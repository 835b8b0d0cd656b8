use hs_tracker::catalog::{Catalog, CatalogItem};
use hs_tracker::json::{Json, JsonNumber};
use hs_tracker::parser::{rarity_from_packet, Currency, GameEvent, Purse};
use hs_tracker::stats::{tally, Carried, GameStats, Listed, Now, Rule, Snapshot, IDLE_AFTER, SECOND, TALLY_COUNT};

const CURRENT_SEASON: i64 = 9;

fn at(secs: u64) -> Now {
    Now { mono: secs * SECOND, wall_ms: 1_700_000_000_000 + secs * 1000 }
}

fn fresh() -> GameStats {
    GameStats::new_at(at(0), Catalog::empty())
}

fn entry(t: i64, i: i64, w: i64, name: &str, rarity: &str, tier: i64) -> CatalogItem {
    CatalogItem {
        item_type: t,
        item_id: i,
        weapon_type: w,
        name: name.to_string(),
        names: Vec::new(),
        rarity: rarity.to_string(),
        tier,
    }
}

/// The rows of the game's item tables these checks lean on.
fn tables() -> Catalog {
    let mut c = Catalog::empty();
    c.items.push(entry(0, 0, 0, "Harlequinn's Crest", "Satanic", 5));
    c.items.push(entry(3, 0, 1, "Godfather", "Satanic", 5));
    c.items.push(entry(0, 7, 0, "Uabel's Helmet", "Set", 4));
    c.items.push(entry(0, 12, 0, "Sky Crusader Helm", "Satanic", 2));
    c.items.push(entry(3, 15, 14, "AK-47", "Heroic", 6));
    c.items.push(entry(3, 16, 14, "Eternity", "Heroic", 6));
    c.items.push(entry(16, 28, 0, "Shrunken Head", "Common", 1));
    c.items.push(entry(10, 37, 0, "Shrunken Head", "Satanic", 5));
    c.items.push(entry(13, 86, 0, "Doctor's Potion", "Set", 5));
    c.items.push(entry(12, 3, 0, "Angelic Key", "Angelic", 6));
    c.items.push(entry(3, 7, 2, "Death's Scythe", "Set", 5));
    c.items.push(entry(16, 60, 0, "Death's Scythe", "Common", 1));
    c.items.push(entry(16, 127, 0, "Jungle Vial", "Common", 1));
    c.items.push(entry(16, 134, 0, "Sun Vial", "Common", 1));
    c.items.push(entry(11, 18, 0, "Eternity Codex", "Angelic", 6));
    c.items.push(entry(11, 23, 0, "Infernal Codex", "Angelic", 6));
    c.items.push(entry(8, 1, 0, "Abomination's Gut Ripper", "Satanic", 6));
    c.items.push(entry(8, 2, 0, "Azazel's Despair", "Heroic", 6));
    c
}

fn with_tables() -> GameStats {
    GameStats::new_at(at(0), tables())
}

fn number(n: i64) -> Json {
    Json::Number(JsonNumber { exact: Some(n), text: n.to_string() })
}

fn float(text: &str) -> Json {
    Json::Number(JsonNumber { exact: None, text: text.to_string() })
}

fn text(s: &str) -> Json {
    Json::Str(s.to_string())
}

fn named_item(rarity: Json, mf: bool, name: &str, fingerprint: &str) -> GameEvent {
    GameEvent::ItemAdded {
        rarity,
        unscaled: false,
        mf,
        tier: 3,
        item_type: 0,
        item_id: 0,
        weapon_type: 0,
        seed: 0,
        name: name.into(),
        announced: false,
        amount: 1,
        fingerprint: fingerprint.into(),
        hash: String::new(),
        ground: false,
    }
}

fn item(rarity: Json, mf: bool) -> GameEvent {
    named_item(rarity, mf, "", "")
}

fn tiered_satanic(tier: i64, fingerprint: &str) -> GameEvent {
    match named_item(number(6), false, "", fingerprint) {
        GameEvent::ItemAdded { rarity, mf, item_type, item_id, weapon_type, seed, name, announced, amount, fingerprint, ground, .. } => {
            GameEvent::ItemAdded {
                rarity,
                unscaled: false,
                mf,
                tier,
                item_type,
                item_id,
                weapon_type,
                seed,
                name,
                announced,
                amount,
                fingerprint,
                hash: String::new(),
                ground,
            }
        }
        other => other,
    }
}

fn notable_item(name: &str, item_type: i64, amount: i64) -> GameEvent {
    GameEvent::ItemAdded {
        rarity: number(1),
        unscaled: false,
        mf: false,
        tier: 0,
        item_type,
        item_id: 0,
        weapon_type: 0,
        seed: 0,
        name: name.into(),
        announced: false,
        amount,
        fingerprint: format!("fp-{name}"),
        hash: String::new(),
        ground: false,
    }
}

fn account_xp(season: i64, hardcore: i64, blood_pact: i64, experience: i64) -> GameEvent {
    GameEvent::Account {
        experience,
        has_experience: experience > 0,
        season,
        hardcore,
        blood_pact,
        name: "Test".into(),
        level: 10,
        herolevel: 20,
        difficulty: 2,
        hell_sub: 0,
        act: 0,
        kills: 0,
        tallies: Vec::new(),
    }
}

fn account(season: i64, hardcore: i64, blood_pact: i64) -> GameEvent {
    account_xp(season, hardcore, blood_pact, 0)
}

fn in_act(act: i64) -> GameEvent {
    GameEvent::Account {
        experience: 1,
        has_experience: true,
        season: 1,
        hardcore: 0,
        blood_pact: 0,
        name: "Test".into(),
        level: 10,
        herolevel: 20,
        difficulty: 2,
        hell_sub: 0,
        act,
        kills: 0,
        tallies: Vec::new(),
    }
}

fn account_packet(name: &str, kills: i64, experience: i64) -> GameEvent {
    GameEvent::Account {
        experience,
        has_experience: true,
        season: CURRENT_SEASON,
        hardcore: 0,
        blood_pact: 0,
        name: name.into(),
        level: 100,
        herolevel: 112,
        difficulty: 2,
        hell_sub: 0,
        act: 0,
        kills,
        tallies: Vec::new(),
    }
}

fn balance(gss: i64) -> GameEvent {
    GameEvent::Gold(Currency { gss, ..Default::default() })
}

fn deposit(amount: i64) -> GameEvent {
    GameEvent::Gold(Currency { delta: amount, ..Default::default() })
}

fn snap(s: &GameStats) -> Snapshot {
    s.snapshot(String::new())
}

fn items_of(snap: &Snapshot, rarity: &str) -> (i64, i64) {
    snap.items.iter().find(|(r, _)| r == rarity).map(|(_, i)| (i.total, i.mf)).unwrap_or((0, 0))
}

fn resource(snap: &Snapshot, kind: &str) -> i64 {
    snap.resources.iter().find(|(k, _)| k == kind).map(|(_, n)| *n).expect("every kind is shown")
}

fn notable(snap: &Snapshot, label: &str) -> i64 {
    snap.notable.iter().find(|n| n.label == label).map(|n| n.total).expect("the group exists")
}

#[test]
fn a_tally_is_filed_under_what_the_game_counted() {
    for i in 0..TALLY_COUNT {
        let (key, label, group) = tally(i);
        let want = match group {
            "boss" => "kills",
            "chest" => "opened",
            "clear" => "clears",
            other => panic!("{label}: no such group as {other:?}"),
        };
        assert!(key.ends_with(want), "{label} is filed under {group}, but the game calls its counter {key}");
    }
}

#[test]
fn a_glance_at_the_app_is_not_a_run() {
    let mut s = GameStats::default();
    assert!(s.finish().is_none(), "nothing happened and no time passed");

    // long enough, but the game never reported anything
    let mut s = fresh();
    assert!(s.finish_at(at(900)).is_none(), "an idle session is not a run either");
}

#[test]
fn five_quiet_minutes_stop_the_clock() {
    let mut s = fresh();
    s.watch_idle_at(at(1).mono);
    assert!(!s.paused(), "a run that has just started is not idle");

    s.watch_idle_at(IDLE_AFTER + SECOND);
    assert!(s.paused(), "quiet for longer than the limit");

    // Anything the run does lifts it, without being asked to.
    s.progressed_at(IDLE_AFTER + 2 * SECOND);
    assert!(!s.paused(), "a kill, a drop or a coin is a sign of life");

    // A pause the player asked for is a different thing and outranks it.
    s.set_paused_at(true, IDLE_AFTER + 3 * SECOND);
    s.progressed_at(IDLE_AFTER + 4 * SECOND);
    assert!(s.paused(), "a hand-made pause lasts until the same hand lifts it");
    s.set_paused_at(false, IDLE_AFTER + 5 * SECOND);
    assert!(!s.paused());
}

#[test]
fn an_idle_pause_is_dated_from_the_last_sign_of_life() {
    let mut s = fresh();
    s.progressed_at(10 * SECOND);
    s.watch_idle_at(10 * SECOND + IDLE_AFTER);
    assert_eq!(s.clock.paused_at, Some(10 * SECOND));
    assert_eq!(s.active_at(10 * SECOND + IDLE_AFTER + 100 * SECOND), 10 * SECOND, "the quiet minutes are not run time");
}

#[test]
fn items_count_by_rarity_id_and_name() {
    let mut s = fresh();
    s.set_prefer_ground(false);
    s.apply_at(&item(number(6), true), at(1));
    s.apply_at(&item(text("Satanic"), false), at(2));
    s.apply_at(&item(text("satanic"), false), at(3));
    s.apply_at(&item(number(999), false), at(4));
    let snap = snap(&s);
    assert_eq!(items_of(&snap, "Satanic"), (3, 1));
    assert_eq!(s.extra().drops.len(), 3);
}

#[test]
fn float_rarities_are_recognised() {
    // the protocol writes whole numbers as floats
    assert_eq!(rarity_from_packet(&float("6.0")).as_deref(), Some("Satanic"));
    assert_eq!(rarity_from_packet(&text("9.0")).as_deref(), Some("Heroic"));
}

#[test]
fn filter_silences_alerts_without_touching_counters() {
    let mut s = fresh();
    s.set_prefer_ground(false);
    s.set_filter(vec!["Satanic".into()], 4);
    assert!(s.apply_at(&tiered_satanic(2, "8-1-1"), at(1)).is_none(), "low tier must not alert");
    assert!(s.apply_at(&tiered_satanic(7, "8-2-1"), at(2)).is_some());
    assert!(s.apply_at(&named_item(number(9), false, "", "8-3-1"), at(3)).is_none());
    let snap = snap(&s);
    assert_eq!(items_of(&snap, "Satanic").0, 2, "counters ignore the filter");
    assert_eq!(items_of(&snap, "Heroic").0, 1);
}

#[test]
fn notable_drops_are_counted_by_name() {
    let mut s = fresh();
    s.apply_at(&notable_item("Angelic Key", 12, 2), at(1));
    s.apply_at(&notable_item("Prophet's Wisdom", 14, 1), at(2));
    s.apply_at(&notable_item("Jol", 15, 1), at(3));
    s.apply_at(&notable_item("Zed", 15, 1), at(4));
    s.apply_at(&notable_item("Ol", 15, 1), at(5));
    let snap = snap(&s);
    assert_eq!(notable(&snap, "Angelic Key"), 2);
    assert_eq!(notable(&snap, "SS runes"), 1, "Jol is one of the seven level-100 runes");
    assert_eq!(notable(&snap, "S runes"), 1, "Zed is graded S");
    assert_eq!(notable(&snap, "Prophet's Wisdom"), 1, "a material counts under its own group");
}

#[test]
fn a_rune_counts_under_either_spelling() {
    let mut s = fresh();
    s.apply_at(&notable_item("Ber", 15, 1), at(1));
    s.apply_at(&notable_item("Jah Rune", 15, 1), at(2));
    assert_eq!(notable(&snap(&s), "S runes"), 2);
}

#[test]
fn the_key_counter_ignores_the_ones_that_rain_down() {
    let mut s = fresh();
    s.apply_at(&notable_item("Basic Key", 12, 3), at(1));
    s.apply_at(&notable_item("Crystal Key", 12, 2), at(2));
    s.apply_at(&notable_item("Angelic Key", 12, 1), at(3));
    assert_eq!(resource(&snap(&s), "keys"), 1);
}

#[test]
fn identity_packets_do_not_override_the_real_season_mode() {
    let mut s = fresh();
    s.apply_at(&account_xp(CURRENT_SEASON, 0, 0, 5_000), at(1));
    s.apply_at(&account(0, 0, 0), at(2));
    assert_eq!(s.season_mode, Some(Purse::Gss));
    assert_eq!(s.character.as_ref().unwrap().level, 10);
}

#[test]
fn season_mode_selection() {
    let mode = |season, hardcore, blood_pact| {
        let mut s = fresh();
        s.apply_at(&account(season, hardcore, blood_pact), at(1));
        s.season_mode.unwrap().code()
    };
    assert_eq!(mode(CURRENT_SEASON, 0, 0), "GSS");
    assert_eq!(mode(CURRENT_SEASON, 1, 0), "GSH");
    assert_eq!(mode(0, 0, 1), "GBP");
    assert_eq!(mode(0, 1, 0), "GNH");
    assert_eq!(mode(0, 0, 0), "GNS");
    assert_eq!(mode(CURRENT_SEASON + 3, 0, 0), "GSS");
}

#[test]
fn a_save_does_not_bank_the_same_deposit_again() {
    let mut s = fresh();
    s.apply_at(&account_packet("x", 0, 0), at(1));
    s.apply_at(&GameEvent::Gold(Currency { gss: 10_000, delta: 2_600, ..Default::default() }), at(2));
    assert_eq!(snap(&s).gold.earned, 2_600);
    for k in 0..3 {
        s.apply_at(&account_packet("x", 0, 0), at(3 + k));
    }
    assert_eq!(snap(&s).gold.earned, 2_600, "three saves must not turn one deposit into four");
    s.apply_at(&GameEvent::Gold(Currency { gss: 12_161, delta: 2_161, ..Default::default() }), at(10));
    assert_eq!(snap(&s).gold.earned, 4_761);
}

#[test]
fn a_deposit_counts_once_when_the_new_balance_follows_it() {
    let mut s = fresh();
    s.apply_at(&account_packet("Parahryushka", 0, 84_833_801), at(1));
    s.apply_at(&balance(720_239), at(2));
    s.apply_at(&deposit(2600), at(3));
    s.apply_at(&balance(722_839), at(4));
    let snap1 = snap(&s);
    assert_eq!(snap1.gold.earned, 2600, "the deposit counts, the balance does not repeat it");
    assert_eq!(snap1.gold.total, 722_839);
    s.apply_at(&balance(723_000), at(5));
    assert_eq!(snap(&s).gold.earned, 2761);
}

#[test]
fn a_room_from_another_act_is_retired() {
    let mut s = fresh();
    s.apply_at(&in_act(8), at(1));
    s.apply_at(&GameEvent::Room("Act_08_02".into()), at(2));
    assert_eq!(snap(&s).room.as_deref(), Some("Act_08_02"));

    s.apply_at(&in_act(6), at(3));
    let snap1 = snap(&s);
    assert_eq!(snap1.room, None, "the room was in act 8");
    assert_eq!(snap1.act, 6, "and the act is all that is known now");

    s.apply_at(&GameEvent::Room("Town_06_rm".into()), at(4));
    s.apply_at(&in_act(2), at(5));
    assert_eq!(snap(&s).room, None, "towns are numbered by act");

    s.apply_at(&GameEvent::Room("Shadow_Realm_rm".into()), at(6));
    s.apply_at(&in_act(9), at(7));
    assert_eq!(snap(&s).room.as_deref(), Some("Shadow_Realm_rm"), "the Shadow Realm belongs to no act");
}

fn weapon(rarity: Json, tier: i64, t: i64, id: i64, w: i64, name: &str, hash: &str, ground: bool) -> GameEvent {
    GameEvent::ItemAdded {
        rarity,
        unscaled: false,
        mf: false,
        tier,
        item_type: t,
        item_id: id,
        weapon_type: w,
        seed: 1,
        name: name.into(),
        announced: false,
        amount: 1,
        fingerprint: String::new(),
        hash: hash.into(),
        ground,
    }
}

fn relic(id: i64, hash: &str, ground: bool) -> GameEvent {
    GameEvent::ItemAdded {
        rarity: Json::Null,
        unscaled: false,
        mf: false,
        tier: 0,
        item_type: 16,
        item_id: id,
        weapon_type: 0,
        seed: 24533420,
        name: String::new(),
        announced: false,
        amount: 1,
        fingerprint: format!("99-4964607-{hash}-16"),
        hash: hash.into(),
        ground,
    }
}

fn save_with(satan: i64, odin: i64, ruby: i64) -> GameEvent {
    GameEvent::Account {
        experience: 1,
        has_experience: true,
        season: CURRENT_SEASON,
        hardcore: 0,
        blood_pact: 0,
        name: "x".into(),
        level: 100,
        herolevel: 112,
        difficulty: 2,
        hell_sub: 0,
        act: 0,
        kills: 1,
        tallies: vec![
            ("statisticsatankills".to_string(), satan),
            ("statisticodinkills".to_string(), odin),
            ("statisticrubychestsopened".to_string(), ruby),
        ],
    }
}

#[test]
fn a_vial_is_gear_and_counts_in_both_columns() {
    let mut s = fresh();
    let vial = GameEvent::ItemAdded {
        rarity: number(9),
        unscaled: false,
        mf: false,
        tier: 6,
        item_type: 18,
        item_id: 5,
        weapon_type: 0,
        seed: 1,
        name: "Elixir of Unworldly Cognition".into(),
        announced: false,
        amount: 1,
        fingerprint: String::new(),
        hash: "v".into(),
        ground: true,
    };
    s.apply_at(&vial, at(1));
    assert_eq!(items_of(&snap(&s), "Heroic").0, 1, "a Heroic find");
    assert_eq!(s.graded(6), 1, "and an SS one, which is what the columns disagreed about");
}

#[test]
fn a_list_adds_a_voice_rather_than_taking_the_others_away() {
    let mut s = with_tables();
    s.set_prefer_ground(true);
    s.set_filter(vec!["Heroic".into()], 0);
    s.set_sound_lists(vec![("list-target".into(), vec!["AK-47".into()])]);
    let listed = s.apply_at(&weapon(number(9), 0, 3, 15, 14, "AK-47", "a", true), at(1)).expect("on a list");
    assert_eq!(listed.sound.as_deref(), Some("list-target"), "the list's own sound");
    let plain = s
        .apply_at(&weapon(number(9), 0, 3, 15, 14, "Eternity", "b", true), at(2))
        .expect("on no list, but its rarity is armed");
    assert_eq!(plain.sound.as_deref(), Some("heroic"), "still the rarity's sound");
}

#[test]
fn a_rule_puts_a_whole_category_on_a_list() {
    let mut s = with_tables();
    s.set_prefer_ground(true);
    s.set_filter(vec![], 6);
    s.set_listed(vec![Listed {
        key: "list-helms".into(),
        names: Vec::new(),
        rules: vec![Rule { rarity: Some("satanic".into()), item_type: Some(0), weapon: None }],
    }]);
    let helm = s
        .apply_at(&weapon(number(6), 0, 0, 0, 0, "Harlequinn's Crest", "a", true), at(1))
        .expect("a Satanic helmet");
    assert_eq!(helm.sound.as_deref(), Some("list-helms"), "the rule put it on the list");
    assert!(
        s.apply_at(&weapon(number(6), 0, 3, 0, 1, "Godfather", "b", true), at(2)).is_none(),
        "a Satanic sword is not a Satanic helmet"
    );
    assert!(
        s.apply_at(&weapon(number(6), 0, 0, 7, 0, "Uabel's Helmet", "c", true), at(3)).is_none(),
        "a Set helmet is not a Satanic one"
    );
}

#[test]
fn the_earlier_list_wins_whether_it_says_a_name_or_a_category() {
    let drop = || weapon(number(6), 0, 0, 0, 0, "Harlequinn's Crest", "one", true);
    let category = || Listed {
        key: "list-category".into(),
        names: Vec::new(),
        rules: vec![Rule { rarity: Some("satanic".into()), item_type: Some(0), weapon: None }],
    };
    let by_name = || Listed { key: "list-name".into(), names: vec!["harlequinn's crest".into()], rules: Vec::new() };

    let mut s = with_tables();
    s.set_prefer_ground(true);
    s.set_listed(vec![category(), by_name()]);
    assert_eq!(s.apply_at(&drop(), at(1)).and_then(|d| d.sound).as_deref(), Some("list-category"));

    let mut s = with_tables();
    s.set_prefer_ground(true);
    s.set_listed(vec![by_name(), category()]);
    assert_eq!(s.apply_at(&drop(), at(1)).and_then(|d| d.sound).as_deref(), Some("list-name"));
}

#[test]
fn a_rule_reads_the_identity_before_the_name_it_shares() {
    let mut s = with_tables();
    s.set_prefer_ground(true);
    s.set_filter(vec![], 6);
    s.set_listed(vec![Listed {
        key: "list-charms".into(),
        names: Vec::new(),
        rules: vec![Rule { rarity: Some("satanic".into()), item_type: Some(10), weapon: None }],
    }]);
    let charm = s
        .apply_at(&weapon(number(6), 0, 10, 37, 0, "Shrunken Head", "charm", true), at(1))
        .expect("the Satanic charm is in the category");
    assert_eq!(charm.sound.as_deref(), Some("list-charms"));
    assert!(
        s.apply_at(&relic(28, "relic28", true), at(2)).is_none(),
        "the Common relic sharing that name is not a Satanic charm"
    );
}

#[test]
fn a_list_outranks_the_rarity_alerts() {
    let mut s = with_tables();
    s.set_prefer_ground(true);
    s.set_filter(vec![], 6);
    s.set_sound_lists(vec![("list-chase".into(), vec!["AK-47".into()])]);
    let listed = s.apply_at(&weapon(number(2), 0, 3, 15, 14, "AK-47", "a", true), at(1)).expect("always announced");
    assert_eq!(listed.sound.as_deref(), Some("list-chase"));
    assert!(
        s.apply_at(&weapon(number(2), 0, 3, 15, 14, "Eternity", "b", true), at(2)).is_none(),
        "unlisted items follow the filter"
    );
    assert!(
        s.apply_at(&weapon(number(2), 0, 3, 15, 14, "AK-47", "a", false), at(3)).is_none(),
        "a list is not told twice about one item"
    );
}

#[test]
fn a_lone_purse_is_read_before_the_save_names_it() {
    let mut s = fresh();
    let c = Currency { gss: 753_900, ..Default::default() };
    s.apply_at(&GameEvent::Gold(c), at(1));
    assert_eq!(snap(&s).gold.total, 753_900);

    let mut two = fresh();
    two.apply_at(&GameEvent::Gold(Currency { gss: 100, gns: 200, ..Default::default() }), at(1));
    assert_eq!(snap(&two).gold.total, 0);

    s.apply_at(&account(CURRENT_SEASON, 0, 0), at(2));
    s.apply_at(&GameEvent::Gold(c), at(3));
    assert_eq!(snap(&s).gold.total, 753_900);
    assert_eq!(s.bank.gold_earned, 0, "reading a balance is not earning it");
}

#[test]
fn the_flourish_asks_its_own_question() {
    let mut s = fresh();
    s.set_filter(vec!["Unholy".into()], 6);
    s.set_flourish_filter(vec!["Satanic".into()], 5);
    s.set_prefer_ground(false);
    let drop = s.apply_at(&tiered_satanic(5, "a"), at(1)).expect("the flourish wants it");
    assert!(!drop.announce, "the alert rules did not ask for this one");
    assert!(drop.flourish);
    assert!(s.extra().drops.is_empty(), "and it does not join the journal");
    assert!(s.apply_at(&tiered_satanic(4, "b"), at(2)).is_none());
    s.set_flourish_filter(Vec::new(), 6);
    assert!(s.apply_at(&tiered_satanic(5, "c"), at(3)).is_none());
}

#[test]
fn only_our_own_finds_are_announced() {
    let mut s = with_tables();
    s.set_filter(vec!["Set".into()], 6);
    s.set_flourish_filter(vec!["Set".into()], 1);
    s.apply_at(&account_packet("Parahryushka", 0, 0), at(1));
    let found = |who: &str| GameEvent::Found { finder: who.into(), name: "Doctor's Potion".into() };
    assert!(s.apply_at(&found("SomebodyElse"), at(2)).is_none(), "another player's luck is theirs");
    assert!(s.extra().drops.is_empty(), "and it does not reach the journal either");
    let ours = s.apply_at(&found("parahryushka"), at(3)).expect("our own find still counts");
    assert_eq!(ours.sound.as_deref(), Some("set"));

    let mut cold = with_tables();
    assert!(cold.apply_at(&found("Parahryushka"), at(1)).is_none());
}

#[test]
fn the_flourish_is_seen_and_not_heard() {
    let mut s = fresh();
    s.set_filter(vec!["Satanic".into()], 6);
    s.set_flourish_filter(vec!["Satanic".into()], 1);
    s.set_prefer_ground(false);
    let drop = s.apply_at(&tiered_satanic(1, "a"), at(1)).expect("the flourish wants it");
    assert!(drop.flourish);
    assert!(!drop.announce, "a D item is below the alerts");
    assert_eq!(drop.sound, None, "so it must not make a sound either");
    let unknown = s.apply_at(&tiered_satanic(0, "b"), at(2)).expect("D means anything at all");
    assert!(unknown.flourish);
}

#[test]
fn a_finished_run_leaves_the_settings_alone() {
    let mut s = fresh();
    s.set_filter(vec!["Satanic".into()], 6);
    s.set_flourish_filter(vec!["Satanic".into()], 1);
    s.set_prefer_ground(false);
    s.reset_at(at(5));
    let drop = s.apply_at(&tiered_satanic(1, "a"), at(6)).expect("the flourish is still armed");
    assert!(drop.flourish);
}

#[test]
fn bosses_and_chests_count_from_the_first_save_on() {
    let counted = |s: &GameStats, label: &str| s.tallies().iter().find(|t| t.label == label).map_or(0, |t| t.total);
    let mut s = fresh();
    s.apply_at(&save_with(60, 0, 376), at(1));
    assert!(s.tallies().is_empty(), "the first save only sets the mark");
    s.apply_at(&save_with(63, 1, 380), at(2));
    assert_eq!(counted(&s, "Satan"), 3);
    assert_eq!(counted(&s, "Ruby"), 4);
    assert_eq!(counted(&s, "Odin"), 1);
    s.reset_at(at(3));
    assert!(s.tallies().is_empty(), "a reset starts the tally again");
    s.apply_at(&save_with(64, 1, 380), at(4));
    assert_eq!(counted(&s, "Satan"), 1, "and the game is not made to recount");
    assert_eq!(counted(&s, "Odin"), 0);
}

#[test]
fn the_session_tallies_drops_by_grade() {
    let mut s = with_tables();
    s.apply_at(&tiered_satanic(6, "a"), at(1));
    s.apply_at(&notable_item("Angelic Key", 12, 1), at(2));
    assert_eq!(s.graded(6), 1, "a key is not an SS find");
    s.apply_at(&tiered_satanic(3, "b"), at(3));
    s.apply_at(&notable_item("Mystery Blade", 3, 1), at(4));
    assert_eq!(s.graded(3), 1);
    assert_eq!(s.graded(6), 1, "an item the table cannot grade is not an SS");
    assert_eq!(snap(&s).ss, 1);
    s.reset_at(at(5));
    assert_eq!(s.graded(6), 0, "the tally belongs to the session");
}

#[test]
fn a_named_drop_is_graded_by_the_item_table() {
    let mut s = with_tables();
    s.set_prefer_ground(true);
    s.set_filter(vec!["Satanic".into(), "Heroic".into()], 6);
    let ss = s.apply_at(&weapon(number(2), 0, 3, 15, 14, "AK-47", "a", true), at(1)).expect("an SS drop passes");
    assert_eq!(ss.tier, 6);
    assert!(
        s.apply_at(&weapon(number(2), 0, 3, 15, 14, "Sky Crusader Helm", "b", true), at(2)).is_none(),
        "tier C is below SS"
    );
    assert!(
        s.apply_at(&weapon(number(2), 0, 3, 15, 14, "Mystery Blade", "c", true), at(3)).is_none(),
        "an ungraded item stays quiet"
    );
}

#[test]
fn the_servers_announcement_chimes_and_the_pickup_stays_quiet() {
    let mut s = with_tables();
    s.set_filter(vec!["Set".into()], 5);
    let announced = s
        .apply_at(
            &GameEvent::ItemAdded {
                rarity: Json::Null,
                unscaled: false,
                mf: false,
                tier: 0,
                item_type: 0,
                item_id: 0,
                weapon_type: 0,
                seed: 0,
                name: "Doctor's Potion".into(),
                announced: true,
                amount: 1,
                fingerprint: String::new(),
                hash: String::new(),
                ground: false,
            },
            at(1),
        )
        .expect("an announced find is always shown");
    assert_eq!(announced.rarity, "Set");
    assert_eq!(announced.sound.as_deref(), Some("set"));
    let picked = s.apply_at(
        &GameEvent::ItemAdded {
            rarity: number(4),
            unscaled: false,
            mf: false,
            tier: 6,
            item_type: 13,
            item_id: 86,
            weapon_type: 0,
            seed: 1,
            name: "Doctor's Potion".into(),
            announced: false,
            amount: 1,
            fingerprint: "13-1-1".into(),
            hash: String::new(),
            ground: false,
        },
        at(2),
    );
    assert!(picked.is_none_or(|d| d.sound.is_none()), "one item, one chime");
}

#[test]
fn the_tier_filter_belongs_to_pickup_alerts() {
    let ak = |tier: i64, ground: bool, fp: &str| GameEvent::ItemAdded {
        rarity: number(2),
        unscaled: false,
        mf: true,
        tier,
        item_type: 3,
        item_id: 15,
        weapon_type: 14,
        seed: 924_824_705,
        name: "AK-47".into(),
        announced: false,
        amount: 1,
        fingerprint: fp.into(),
        hash: String::new(),
        ground,
    };
    let mut on_drop = with_tables();
    on_drop.set_prefer_ground(true);
    on_drop.set_filter(vec!["Heroic".into()], 6);
    let entry = on_drop.apply_at(&ak(0, true, ""), at(1)).expect("the drop is announced by rarity");
    assert_eq!(entry.sound.as_deref(), Some("heroic"));

    let mut on_pickup = with_tables();
    on_pickup.set_prefer_ground(false);
    on_pickup.set_filter(vec!["Heroic".into()], 6);
    assert!(on_pickup.apply_at(&ak(3, false, "3-1-1"), at(1)).is_none(), "tier B is below SS");
    assert!(on_pickup.apply_at(&ak(6, false, "3-1-2"), at(2)).is_some(), "tier SS passes");
}

#[test]
fn without_a_minimum_tier_the_drop_itself_is_announced() {
    let mut s = with_tables();
    s.set_filter(vec!["Heroic".into()], 0);
    let entry = s
        .apply_at(
            &GameEvent::ItemAdded {
                rarity: number(2),
                unscaled: false,
                mf: true,
                tier: 0,
                item_type: 3,
                item_id: 15,
                weapon_type: 14,
                seed: 924_824_705,
                name: "AK-47".into(),
                announced: false,
                amount: 1,
                fingerprint: String::new(),
                hash: String::new(),
                ground: true,
            },
            at(1),
        )
        .expect("an SS drop must be announced");
    assert_eq!(entry.rarity, "Heroic");
    assert!(entry.ground);
}

#[test]
fn a_rolled_back_kill_total_keeps_the_counter_moving() {
    let saves = [909_625, 909_625, 905_988, 906_175, 906_286];
    let mut s = fresh();
    for (k, kills) in saves.into_iter().enumerate() {
        s.apply_at(&account_packet("Parahryushka", kills, 75_807_189), at(1 + k as u64));
    }
    let snap = snap(&s);
    assert_eq!(snap.kills.earned, 906_286 - 905_988);
    assert_eq!(snap.kills.total, 906_286);
}

#[test]
fn income_on_the_new_purse_survives_the_purse_changing() {
    let mut s = fresh();
    s.apply_at(&GameEvent::Gold(Currency { gbp: 1_706_231, ..Default::default() }), at(1));
    assert_eq!(s.bank.gold_mode, Some(Purse::Gbp), "one funded purse names itself");
    s.apply_at(&account_packet("x", 0, 0), at(2));
    s.apply_at(&GameEvent::Gold(Currency { gss: 5_000, gbp: 1_706_231, ..Default::default() }), at(3));
    assert_eq!(s.bank.gold_mode, Some(Purse::Gss), "the save outranks the guess");
    s.apply_at(&GameEvent::Gold(Currency { gss: 6_000, gbp: 1_706_231, ..Default::default() }), at(4));
    assert_eq!(snap(&s).gold.earned, 1_000);
}

#[test]
fn the_room_a_reset_carries_starts_its_clock() {
    let mut s = fresh();
    s.apply_at(&GameEvent::Room("Act_09_06".into()), at(1));
    s.reset_at(at(2));
    assert_eq!(s.place.room.as_deref(), Some("Act_09_06"));
    assert!(s.place.room_since.is_some(), "the carried room is being timed");
}

#[test]
fn two_currency_packets_make_earned_gold() {
    let mut s = fresh();
    s.apply_at(&account_packet("Parahryushka", 0, 75_807_189), at(1));
    for (k, total) in [693_835, 694_452].into_iter().enumerate() {
        let c = Currency { gbp: 1_706_231, gnh: 0, gns: 78_101, gsh: 0, gss: total, delta: 0 };
        s.apply_at(&GameEvent::Gold(c), at(2 + k as u64));
    }
    let snap = snap(&s);
    assert_eq!(snap.gold.total, 694_452);
    assert_eq!(snap.gold.earned, 617);
}

#[test]
fn real_login_packets_yield_the_bank_total() {
    let currency = || GameEvent::Gold(Currency { gbp: 1_706_231, gnh: 0, gns: 78_101, gsh: 0, gss: 687_514, delta: 0 });
    let save = || GameEvent::Account {
        experience: 63_419_870,
        has_experience: true,
        season: CURRENT_SEASON,
        hardcore: 0,
        blood_pact: 0,
        name: "Parahryushka".into(),
        level: 100,
        herolevel: 112,
        difficulty: 2,
        hell_sub: 0,
        act: 0,
        kills: 4210,
        tallies: Vec::new(),
    };
    for currency_first in [true, false] {
        let mut s = fresh();
        if currency_first {
            s.apply_at(&currency(), at(1));
            s.apply_at(&save(), at(2));
        } else {
            s.apply_at(&save(), at(1));
            s.apply_at(&currency(), at(2));
        }
        let snap = snap(&s);
        assert_eq!(snap.gold.total, 687_514, "gold total lost");
        assert_eq!(snap.xp.total, 63_419_870);
        assert_eq!(snap.kills.total, 4210);
    }
}

#[test]
fn gold_replays_the_currency_that_preceded_the_account() {
    let mut s = fresh();
    s.apply_at(&balance(100), at(1));
    assert_eq!(snap(&s).gold.total, 100);
    s.apply_at(&account(CURRENT_SEASON, 0, 0), at(2));
    assert_eq!(snap(&s).gold.total, 100);
    assert_eq!(s.bank.gold_earned, 0, "a balance already shown is not earned again");
    s.apply_at(&balance(150), at(3));
    s.apply_at(&balance(120), at(4));
    let snap = snap(&s);
    assert_eq!(snap.gold.total, 120);
    assert_eq!(snap.gold.earned, 50);
}

#[test]
fn guild_xp_before_the_first_account_total_does_not_inflate() {
    let mut s = fresh();
    s.apply_at(&GameEvent::XpGain(100), at(1));
    s.apply_at(&account_xp(CURRENT_SEASON, 0, 0, 50_000_000), at(2));
    assert_eq!(snap(&s).xp.earned, 100);
    s.apply_at(&account_xp(CURRENT_SEASON, 0, 0, 50_000_500), at(3));
    assert_eq!(snap(&s).xp.earned, 600);
}

fn ground_item(rarity: Json, name: &str, seed: i64) -> GameEvent {
    GameEvent::ItemAdded {
        rarity,
        unscaled: false,
        mf: false,
        tier: 0,
        item_type: 1,
        item_id: 7,
        weapon_type: 0,
        seed,
        name: name.into(),
        announced: false,
        amount: 1,
        fingerprint: String::new(),
        hash: String::new(),
        ground: true,
    }
}

fn account_at_level(experience: i64, herolevel: i64) -> GameEvent {
    GameEvent::Account {
        experience,
        has_experience: experience > 0,
        season: CURRENT_SEASON,
        hardcore: 0,
        blood_pact: 0,
        name: "Test".into(),
        level: 100,
        herolevel,
        difficulty: 2,
        hell_sub: 0,
        act: 0,
        kills: 0,
        tallies: Vec::new(),
    }
}

fn satanic_zone(zone: &str) -> GameEvent {
    rolled_zone(zone, vec![1, 2, 3])
}

fn rolled_zone(zone: &str, buffs: Vec<u8>) -> GameEvent {
    GameEvent::SatanicZone { zone: zone.into(), buffs, debuffs: vec![4] }
}

fn entry_codex(id: i64, hash: &str) -> GameEvent {
    GameEvent::ItemAdded {
        rarity: Json::Null,
        unscaled: false,
        mf: false,
        tier: 0,
        item_type: 11,
        item_id: id,
        weapon_type: 0,
        seed: 1,
        name: String::new(),
        announced: false,
        amount: 1,
        fingerprint: format!("11-1-{hash}-11"),
        hash: hash.into(),
        ground: true,
    }
}

#[test]
fn a_drop_and_its_pickup_are_one_item() {
    let mut s = with_tables();
    s.set_prefer_ground(true);
    let sighting = |ground: bool, tier: i64| GameEvent::ItemAdded {
        rarity: number(6),
        unscaled: false,
        mf: false,
        tier,
        item_type: 8,
        item_id: 1,
        weapon_type: 0,
        seed: 123,
        name: "Abomination's Gut Ripper".into(),
        announced: false,
        amount: 1,
        fingerprint: "8-1-1".into(),
        hash: "abc".into(),
        ground,
    };
    let dropped = s.apply_at(&sighting(true, 5), at(1)).expect("the roll is announced");
    assert_eq!(dropped.tier, 5);
    assert!(s.apply_at(&sighting(true, 5), at(2)).is_none(), "a world sync repeats the roll");
    assert!(s.apply_at(&sighting(false, 0), at(3)).is_none(), "no second alert for the pickup");
    assert_eq!(items_of(&snap(&s), "Satanic").0, 1, "counted once");
}

#[test]
fn a_hashless_drop_and_its_pickup_are_one_item_too() {
    let mut s = with_tables();
    let sighting = |ground: bool| GameEvent::ItemAdded {
        rarity: number(3),
        unscaled: false,
        mf: false,
        tier: 0,
        item_type: 8,
        item_id: 2,
        weapon_type: 0,
        seed: 55,
        name: "Azazel's Despair".into(),
        announced: false,
        amount: 1,
        fingerprint: "7-4964607-65875ac569ff60006-8".into(),
        hash: String::new(),
        ground,
    };
    s.apply_at(&sighting(true), at(1));
    s.apply_at(&sighting(false), at(2));
    assert_eq!(items_of(&snap(&s), "Heroic").0, 1, "one item, one count");
}

#[test]
fn the_pickup_inherits_the_tier_the_roll_reported() {
    let mut s = with_tables();
    s.set_prefer_ground(false);
    s.set_filter(vec!["Satanic".into()], 5);
    let sighting = |ground: bool, tier: i64| GameEvent::ItemAdded {
        rarity: number(6),
        unscaled: false,
        mf: false,
        tier,
        item_type: 8,
        item_id: 1,
        weapon_type: 0,
        seed: 7,
        name: "Abomination's Gut Ripper".into(),
        announced: false,
        amount: 1,
        fingerprint: "8-1-2".into(),
        hash: "def".into(),
        ground,
    };
    assert!(s.apply_at(&sighting(true, 6), at(1)).is_none(), "alerts are set to pickup time");
    let picked = s.apply_at(&sighting(false, 0), at(2)).expect("the pickup alerts");
    assert_eq!(picked.tier, 6, "the tier came from the roll");
}

#[test]
fn pickup_alerts_when_ground_alerts_are_off() {
    let mut s = with_tables();
    s.set_prefer_ground(false);
    assert!(s.apply_at(&ground_item(number(6), "Azazel's Despair", 55), at(1)).is_none());
    assert!(s.apply_at(&named_item(number(6), false, "Azazel's Despair", "8-2-1"), at(2)).is_some());
}

#[test]
fn resynced_items_are_counted_once_and_named_rarity_wins() {
    let mut s = with_tables();
    s.apply_at(&named_item(number(3), false, "Azazel's Despair", "8-1-1"), at(1));
    s.apply_at(&named_item(number(3), false, "Azazel's Despair", "8-1-1"), at(2));
    let snap = snap(&s);
    assert_eq!(items_of(&snap, "Heroic").0, 1);
    assert_eq!(items_of(&snap, "Rare").0, 0);
}

#[test]
fn the_heavy_payload_moves_only_when_it_has_something_new() {
    let mut s = with_tables();
    s.set_prefer_ground(false);
    let quiet = s.extra_revision();
    s.apply_at(&GameEvent::Room("Act_07_03".into()), at(1));
    s.apply_at(&GameEvent::Vitals { mf: Some(120), level: 0, hlevel: 0, satanic_here: Some(false) }, at(2));
    s.apply_at(&GameEvent::Gold(Currency { gss: 500, ..Default::default() }), at(3));
    s.apply_at(&GameEvent::XpGain(15), at(4));
    assert_eq!(s.extra_revision(), quiet, "a heartbeat adds nothing to the journal");
    assert!(s.revision() > quiet, "the counters themselves did move");
    assert!(s.apply_at(&named_item(number(6), false, "Azazel's Despair", "8-9-1"), at(5)).is_some());
    assert!(s.extra_revision() > quiet, "a journalled drop is something new");
}

#[test]
fn an_xp_gain_is_credited_as_the_character_xp_it_is() {
    let mut s = fresh();
    s.apply_at(&GameEvent::XpGain(100), at(1));
    let snap = snap(&s);
    assert_eq!(snap.xp.total, 100);
    assert_eq!(snap.xp.earned, 100);
}

#[test]
fn a_counter_saturates_rather_than_wrapping() {
    let mut s = fresh();
    for k in 0..3 {
        s.apply_at(&GameEvent::XpGain(i64::MAX), at(1 + k));
    }
    let snap1 = snap(&s);
    assert_eq!(snap1.xp.earned, i64::MAX, "pinned at the top, not wrapped past it");
    assert!(snap1.xp.total >= 0, "and the lifetime total with it");

    let mut s = fresh();
    for k in 0..3 {
        s.apply_at(&GameEvent::Gold(Currency { delta: i64::MAX, ..Default::default() }), at(1 + k));
    }
    assert!(snap(&s).gold.earned >= 0, "gold too");
}

#[test]
fn an_experience_number_too_large_to_scale_is_refused() {
    let mut s = fresh();
    s.apply_at(&GameEvent::XpGain(hs_tracker::parser::guild_share_to_character(i64::MAX)), at(1));
    assert_eq!(snap(&s).xp.earned, 0, "nothing was earned");

    let mut s = fresh();
    s.apply_at(&GameEvent::XpGain(hs_tracker::parser::guild_share_to_character(1_500)), at(1));
    assert_eq!(snap(&s).xp.earned, 10_000, "a fifteenth, scaled back up");
}

#[test]
fn a_hero_level_up_credits_what_carried_over() {
    let mut s = fresh();
    s.apply_at(&account_at_level(50_000_000, 91), at(1));
    s.apply_at(&account_at_level(53_600_000, 91), at(2));
    assert_eq!(snap(&s).xp.earned, 3_600_000);
    s.apply_at(&account_at_level(1_289, 92), at(3));
    assert_eq!(snap(&s).xp.earned, 3_601_289, "the overflow past a level-up is xp this session earned");
    s.apply_at(&account_at_level(500_000, 92), at(4));
    assert_eq!(snap(&s).xp.earned, 4_100_000);
}

#[test]
fn a_drop_without_a_level_up_credits_nothing() {
    let mut s = fresh();
    s.apply_at(&account_at_level(50_000_000, 91), at(1));
    s.apply_at(&account_at_level(53_600_000, 91), at(2));
    s.apply_at(&account_at_level(2_000_000, 91), at(3));
    assert_eq!(snap(&s).xp.earned, 3_600_000);
}

#[test]
fn a_paused_run_does_not_credit_a_room_with_the_pause() {
    // 1500 seconds on the wall, 900 of them paused: a 600-second run
    let mut s = fresh();
    s.apply_at(&account_packet("Test", 1_000, 10_000), at(1));
    s.apply_at(&account_packet("Test", 1_400, 60_000), at(2));
    s.apply_at(&GameEvent::Room("Act_07_03".into()), at(3));

    s.set_paused_at(true, 600 * SECOND);
    s.apply_at(&GameEvent::Room("Town_01".into()), at(601));
    assert!(s.place.room_since.is_none(), "a room change must not restart a stopped clock");
    assert_eq!(s.place.room.as_deref(), Some("Town_01"), "the panel still says where we are");

    s.place.room_since = Some(600 * SECOND);
    s.apply_at(&GameEvent::Room("Act_07_03".into()), at(1499));
    s.set_paused_at(false, 1500 * SECOND);

    let run = s.finish_at(at(1500)).expect("a session with earnings is worth keeping");
    let banked: u64 = run.zones.iter().map(|(_, secs)| secs).sum();
    assert!(banked <= run.secs, "{banked} room-seconds inside a {}-second run", run.secs);
    assert!(!run.zones.iter().any(|(room, _)| room == "Town_01"), "the paused town trip is not where the run happened");
}

#[test]
fn a_finished_run_carries_the_session_and_where_it_happened() {
    let mut s = fresh();
    s.apply_at(&account_packet("Test", 1_000, 10_000), at(1));
    s.apply_at(&account_packet("Test", 1_400, 60_000), at(2));
    s.apply_at(&GameEvent::Room("Act_07_02".into()), at(240));
    s.apply_at(&GameEvent::Room("Act_07_03".into()), at(540));
    let run = s.finish_at(at(600)).expect("a session with earnings is worth keeping");
    assert_eq!(run.kills, 400);
    assert_eq!(run.xp, 50_000);
    assert!(run.secs >= 600, "{}", run.secs);
    assert_eq!(run.character.as_deref(), Some("Test"));
    assert_eq!(run.zones.first().map(|(room, _)| room.as_str()), Some("Act_07_02"));
    assert!(run.zones[0].1 >= 300, "{:?}", run.zones);
}

#[test]
fn a_pickup_is_heard_when_the_roll_that_preceded_it_was_not() {
    fn sighting(ground: bool, tier: i64, print: &str) -> GameEvent {
        GameEvent::ItemAdded {
            rarity: number(6),
            unscaled: false,
            mf: false,
            tier,
            item_type: 0,
            item_id: 0,
            weapon_type: 0,
            seed: 0,
            name: String::new(),
            announced: false,
            amount: 1,
            fingerprint: print.into(),
            hash: String::new(),
            ground,
        }
    }
    let mut s = fresh();
    assert!(s.prefs.prefer_ground);
    s.prefs.min_tier = 3;
    assert!(s.apply_at(&sighting(true, 0, "a"), at(1)).is_none(), "no grade on the floor, no alert");
    assert!(s.apply_at(&sighting(false, 5, "a"), at(2)).is_some(), "the bag proves the grade");

    let mut t = fresh();
    assert!(t.apply_at(&sighting(false, 5, "b"), at(1)).is_some());

    let mut u = fresh();
    assert!(u.apply_at(&sighting(true, 5, "c"), at(1)).is_some(), "announced as it lands");
    assert!(u.apply_at(&sighting(false, 5, "c"), at(2)).is_none(), "and not again in the bag");

    let mut v = fresh();
    v.set_prefer_ground(false);
    assert!(v.apply_at(&sighting(true, 5, "d"), at(1)).is_none(), "the floor is not what was asked for");
    assert!(v.apply_at(&sighting(false, 5, "d"), at(2)).is_some());
}

#[test]
fn another_characters_lifetime_is_not_this_sessions_earnings() {
    fn save(name: &str, xp: i64, kills: i64, chests: i64) -> GameEvent {
        GameEvent::Account {
            experience: xp,
            has_experience: true,
            season: CURRENT_SEASON,
            hardcore: 0,
            blood_pact: 0,
            name: name.into(),
            level: 100,
            herolevel: 100,
            difficulty: 2,
            hell_sub: 0,
            act: 0,
            kills,
            tallies: vec![("statisticcommonchestsopened".to_string(), chests)],
        }
    }
    let mut s = fresh();
    s.apply_at(&save("Main", 1_000_000, 900_000, 5_000), at(1));
    s.apply_at(&save("Main", 1_000_500, 900_010, 5_001), at(2));
    s.apply_at(&save("Alt", 40, 3, 1), at(3));
    s.apply_at(&save("Alt", 90, 5, 1), at(4));
    s.apply_at(&save("Main", 1_001_000, 900_020, 5_002), at(5));
    let snap = snap(&s);
    assert_eq!(snap.xp.earned, 550, "500 on the main, 50 on the alt, and nothing between them");
    assert_eq!(snap.kills.earned, 12, "10 + 2, not nine hundred thousand");
    let chests = snap.tallies.iter().find(|t| t.label == "Common").map(|t| t.total);
    assert_eq!(chests, Some(1), "one chest on the main; the alt opened none after its mark");
}

#[test]
fn climbing_back_to_a_balance_the_bank_has_held_is_not_income() {
    let gns = |gns: i64| GameEvent::Gold(Currency { gns, ..Default::default() });
    let mut s = fresh();
    s.apply_at(&account(0, 0, 0), at(1));
    s.apply_at(&gns(78_101), at(2));
    s.apply_at(&gns(107), at(3));
    s.apply_at(&gns(78_101), at(4));
    assert_eq!(snap(&s).gold.earned, 0, "nothing was earned by walking there and back");
    s.apply_at(&gns(80_101), at(5));
    assert_eq!(snap(&s).gold.earned, 2_000);
}

#[test]
fn a_deposit_and_the_balance_that_answers_it_are_one_lot_of_coins() {
    let gns = |gns: i64| GameEvent::Gold(Currency { gns, ..Default::default() });
    for deposit_first in [true, false] {
        let mut s = fresh();
        s.apply_at(&account(0, 0, 0), at(1));
        s.apply_at(&gns(100_000), at(2));
        if deposit_first {
            s.apply_at(&deposit(10_000), at(3));
            s.apply_at(&gns(110_000), at(4));
        } else {
            s.apply_at(&gns(110_000), at(3));
            s.apply_at(&deposit(10_000), at(4));
        }
        assert_eq!(snap(&s).gold.earned, 10_000, "the same ten thousand, counted once");
    }
}

#[test]
fn a_reset_clears_the_session_but_keeps_the_character() {
    let mut s = fresh();
    s.apply_at(&account(CURRENT_SEASON, 1, 0), at(1));
    s.apply_at(&GameEvent::XpGain(15), at(2));
    s.reset_at(at(3));
    let snap = snap(&s);
    assert_eq!(snap.xp.earned, 0);
    assert_eq!(snap.character.as_ref().unwrap().name, "Test");
}

#[test]
fn only_a_real_rotation_announces_the_satanic_zone() {
    let mut s = fresh();
    s.apply_at(&satanic_zone("Act_08_02"), at(1));
    assert!(s.take_zone_change().is_none(), "learning where the zone is is not it moving");
    s.apply_at(&satanic_zone("Act_08_02"), at(2));
    assert!(s.take_zone_change().is_none(), "the same zone said twice is one zone");
    s.apply_at(&satanic_zone("Act_03_01"), at(3));
    let moved = s.take_zone_change().expect("the zone moved");
    assert_eq!(moved.zone, "Act_03_01", "and it says which zone it moved to");
    assert!(s.take_zone_change().is_none(), "announced once, not until the next look");
}

#[test]
fn a_blackout_swallows_one_packet_and_a_plain_reset_does_not() {
    let mut s = fresh();
    s.apply_at(&satanic_zone("Act_03_01"), at(1));
    s.take_zone_change();
    s.reset_after_blackout_at(at(2));
    s.apply_at(&satanic_zone("Act_11_01"), at(3));
    assert!(s.take_zone_change().is_none(), "a blackout must not be reported as a rotation");
    s.apply_at(&satanic_zone("Act_02_04"), at(4));
    assert!(s.take_zone_change().is_some(), "the packet after it re-arms the guard");
    s.reset_at(at(5));
    s.apply_at(&satanic_zone("Act_05_05"), at(6));
    assert!(s.take_zone_change().is_some(), "a session reset must not swallow a rotation");
}

#[test]
fn another_regions_answer_is_not_a_rotation() {
    let mut s = fresh();
    s.apply_at(&GameEvent::ZoneRegion("8909978777".into()), at(1));
    s.apply_at(&rolled_zone("Act_04_05", vec![15, 23, 9]), at(2));
    s.take_zone_change();
    s.apply_at(&GameEvent::ZoneRegion("2029974116".into()), at(3));
    s.apply_at(&rolled_zone("Act_04_05", vec![2, 5, 7]), at(4));
    assert!(s.take_zone_change().is_none(), "another region answering is not news");
    s.apply_at(&GameEvent::ZoneRegion("8917481016".into()), at(5));
    s.apply_at(&rolled_zone("Act_02_01", vec![1]), at(6));
    assert!(s.take_zone_change().is_none(), "nor is the next one, on a third region");
    s.apply_at(&GameEvent::ZoneRegion("8917481016".into()), at(7));
    s.apply_at(&rolled_zone("Act_07_02", vec![1]), at(8));
    assert!(s.take_zone_change().is_some(), "the region that asked before is the one that moved");
}

#[test]
fn a_capture_with_no_question_in_it_behaves_as_it_always_did() {
    let mut s = fresh();
    s.apply_at(&satanic_zone("Act_01_01"), at(1));
    s.take_zone_change();
    s.apply_at(&satanic_zone("Act_02_02"), at(2));
    assert!(s.take_zone_change().is_some(), "both regions unknown compares equal");
}

#[test]
fn a_reroll_onto_the_same_zone_is_still_a_rotation() {
    let mut s = fresh();
    s.apply_at(&rolled_zone("Act_08_02", vec![1, 2, 3]), at(1));
    s.take_zone_change();
    s.apply_at(&rolled_zone("Act_08_02", vec![3, 2, 1]), at(2));
    assert!(s.take_zone_change().is_none(), "the same buffs in another order are the same roll");
    s.apply_at(&rolled_zone("Act_08_02", vec![1, 2, 14]), at(3));
    assert!(s.take_zone_change().is_some(), "the same room with a different set on it is a new rotation");
}

#[test]
fn a_relic_is_silent_until_it_is_hunted() {
    let mut s = with_tables();
    assert!(s.prefs.relics.is_empty(), "nothing hunted out of the box");
    let quiet = s.apply_at(&relic(127, "8b5bdb8ad9be", true), at(1));
    assert!(quiet.is_none_or(|d| d.sound.is_none()), "an unticked relic passes in silence");
    let snap1 = snap(&s);
    for (rarity, count) in &snap1.items {
        assert_eq!(count.total, 0, "{rarity} moved on a relic drop");
    }
    assert_eq!(snap1.ss, 0, "and the SS figure a run is judged on did not move");
    assert!(s.finds.graded.is_empty(), "nor any grade column behind it");
    assert!(s.extra().drops.is_empty(), "and nothing reached the drop feed");

    let mut s = with_tables();
    s.prefs.relics = vec![127];
    s.prefs.fx_relic = true;
    let hit = s.apply_at(&relic(127, "8b5bdb8ad9be", true), at(1)).expect("a hunted relic is announced");
    assert_eq!(hit.sound.as_deref(), Some("relic"), "and it chimes on its own key");
    assert!(hit.flourish, "the Relic switch on the pillar is on, so it takes that too");
    let journal = s.extra().drops;
    assert_eq!(journal.len(), 1, "and it reaches the drop feed");
    assert_eq!((journal[0].item_type, journal[0].item_id), (16, 127));
    assert_eq!(s.catalog.item_name(16, 127, 0).as_deref(), Some("Jungle Vial"), "which is how it is named there");
    let picked = s.apply_at(&relic(127, "8b5bdb8ad9be", false), at(2));
    assert!(picked.is_none_or(|d| d.sound.is_none()), "one relic, one chime");
    let other = s.apply_at(&relic(134, "cc808046c7c7", true), at(3));
    assert!(other.is_none_or(|d| d.sound.is_none()), "relic 134 was not ticked");
}

#[test]
fn a_listed_collectible_takes_the_pillar() {
    let card = |name: &str, hash: &str| GameEvent::ItemAdded {
        rarity: Json::Null,
        unscaled: false,
        mf: false,
        tier: 0,
        item_type: 13,
        item_id: 30,
        weapon_type: 0,
        seed: 1,
        name: name.into(),
        announced: false,
        amount: 1,
        fingerprint: format!("13-1-{hash}"),
        hash: hash.into(),
        ground: true,
    };
    let mut s = with_tables();
    s.set_flourish_filter(vec!["Satanic".into(), "Angelic".into()], 1);
    assert!(s.apply_at(&card("Justice", "quiet"), at(1)).is_none(), "an unlisted tarot card is still not news");

    let mut s = with_tables();
    s.set_sound_lists(vec![("list-codex".into(), vec!["Justice".into()])]);
    let hit = s.apply_at(&card("Justice", "listed"), at(1)).expect("on a list, so it is announced");
    assert_eq!(hit.sound.as_deref(), Some("list-codex"));
    assert!(hit.flourish, "and the pillar follows the list, not the rarity grid");
}

#[test]
fn an_unlisted_key_does_not_take_the_pillar() {
    let mut s = with_tables();
    s.set_flourish_filter(vec!["Angelic".into()], 1);
    s.set_filter(vec!["Angelic".into()], 0);
    assert!(
        s.apply_at(&notable_item("Angelic Key", 12, 1), at(1)).is_none(),
        "a resource is not a rarity find, on the pillar or the horn"
    );
    s.set_sound_lists(vec![("list-keys".into(), vec!["Angelic Key".into()])]);
    let hit = s
        .apply_at(
            &GameEvent::ItemAdded {
                rarity: number(7),
                unscaled: false,
                mf: false,
                tier: 0,
                item_type: 12,
                item_id: 0,
                weapon_type: 0,
                seed: 0,
                name: "Angelic Key".into(),
                announced: false,
                amount: 1,
                fingerprint: "key-listed".into(),
                hash: "key-listed".into(),
                ground: true,
            },
            at(2),
        )
        .expect("the list asked for this one");
    assert!(hit.flourish, "named on a list, the key takes the pillar");
}

#[test]
fn a_codex_takes_the_pillar_when_its_switch_is_on() {
    let mut s = with_tables();
    s.set_flourish_filter(vec!["Satanic".into(), "Angelic".into()], 1);
    assert!(s.apply_at(&entry_codex(18, "quiet"), at(1)).is_none(), "a Codex is not a rarity find");

    let mut s = with_tables();
    s.prefs.fx_codex = true;
    let eternity = s.apply_at(&entry_codex(18, "et"), at(1)).expect("the Codex switch asked for it");
    assert!(eternity.flourish);
    assert!(!eternity.announce, "the pillar is not a chime");
    assert_eq!(eternity.item_id, 18);
    let infernal = s.apply_at(&entry_codex(23, "inf"), at(2)).expect("both Codexes share the switch");
    assert!(infernal.flourish);
    assert_eq!(infernal.item_id, 23);
}

#[test]
fn a_potion_does_not_borrow_the_codex_switch() {
    let mut s = with_tables();
    s.prefs.fx_codex = true;
    assert!(s.apply_at(&entry_codex(2, "potion"), at(1)).is_none(), "id 2 is a healing potion, not a Codex");
}

#[test]
fn a_hunted_relic_can_chime_without_the_pillar() {
    let mut s = with_tables();
    s.prefs.relics = vec![127];
    s.prefs.fx_relic = false;
    let hit = s.apply_at(&relic(127, "8b5bdb8ad9be", true), at(1)).expect("the chime still fires");
    assert_eq!(hit.sound.as_deref(), Some("relic"));
    assert!(!hit.flourish, "the Relic switch on the pillar was off");
}

#[test]
fn a_codex_named_in_chat_takes_the_pillar() {
    let mut s = with_tables();
    s.prefs.fx_codex = true;
    s.apply_at(&account_packet("Tester", 0, 0), at(1));
    let hit = s
        .apply_at(&GameEvent::Found { finder: "Tester".into(), name: "Eternity Codex".into() }, at(2))
        .expect("our own find still counts");
    assert!(hit.flourish);
    assert_eq!(hit.name, "Eternity Codex");
}

#[test]
fn an_empty_relic_pick_is_silence_where_an_empty_buff_pick_is_everything() {
    let mut s = with_tables();
    s.prefs.relics = Vec::new();
    for (i, id) in [0, 55, 127, 155].into_iter().enumerate() {
        let hash = format!("hash{i}");
        let d = s.apply_at(&relic(id, &hash, true), at(1 + i as u64));
        assert!(d.is_none_or(|d| d.sound.is_none()), "relic {id}: an empty pick hunts nothing");
    }
    s.prefs.relics = vec![0, 155];
    assert_eq!(
        s.apply_at(&relic(0, "edge-low", true), at(10)).and_then(|d| d.sound).as_deref(),
        Some("relic"),
        "id 0 is a real relic and must not be read as 'no relic'"
    );
    assert_eq!(
        s.apply_at(&relic(155, "edge-high", true), at(11)).and_then(|d| d.sound).as_deref(),
        Some("relic"),
        "155 is the last id the table holds"
    );
}

#[test]
fn hunting_a_relic_does_not_touch_a_list_that_shares_its_name() {
    let mut s = with_tables();
    s.set_sound_lists(vec![("list-a".into(), vec!["death's scythe".into()])]);
    s.prefs.relics = vec![60];
    let d = s.apply_at(&relic(60, "relic60", true), at(1)).expect("the relic is hunted");
    assert_eq!(d.sound.as_deref(), Some("relic"), "by identity, not by the name it shares");
    let polearm = s
        .apply_at(
            &GameEvent::ItemAdded {
                rarity: number(4),
                unscaled: false,
                mf: false,
                tier: 0,
                item_type: 3,
                item_id: 2,
                weapon_type: 6,
                seed: 7,
                name: "Death's Scythe".into(),
                announced: false,
                amount: 1,
                fingerprint: "3-7-2".into(),
                hash: "polearm".into(),
                ground: true,
            },
            at(2),
        )
        .expect("still on the list it was always on");
    assert_eq!(polearm.sound.as_deref(), Some("list-a"), "the list is untouched");
}

#[test]
fn the_buff_pick_narrows_the_alert_and_an_empty_pick_narrows_nothing() {
    let mut s = fresh();
    s.apply_at(&rolled_zone("Act_01_01", vec![7]), at(1));
    s.take_zone_change();
    assert!(s.prefs.zone_buffs.is_empty());
    s.apply_at(&rolled_zone("Act_02_02", vec![7]), at(2));
    assert!(s.take_zone_change().is_some(), "an empty pick lets every rotation through");
    s.apply_at(&rolled_zone("Act_02_03", vec![]), at(3));
    assert!(s.take_zone_change().is_some(), "including one the game gave no buffs at all");

    s.prefs.zone_buffs = vec![14, 15, 16];
    s.apply_at(&rolled_zone("Act_03_01", vec![7, 21]), at(4));
    assert!(s.take_zone_change().is_none(), "none of the three: it passes in silence");
    s.apply_at(&rolled_zone("Act_03_02", vec![]), at(5));
    assert!(s.take_zone_change().is_none(), "and a zone with no buffs cannot match a pick");

    s.apply_at(&rolled_zone("Act_04_01", vec![7, 15]), at(6));
    let hit = s.take_zone_change().expect("one of the three is enough");
    assert_eq!(hit.buffs, vec![7, 15], "and the alert carries what the zone rolled");

    s.apply_at(&rolled_zone("Act_05_01", vec![21]), at(7));
    assert!(s.take_zone_change().is_none());
    assert!(s.take_zone_change().is_none(), "a filtered rotation is not left pending");
}

#[test]
fn an_item_made_for_somebody_else_is_not_a_find() {
    let pickup = |fingerprint: &str, hash: &str| GameEvent::ItemAdded {
        rarity: number(9),
        unscaled: false,
        mf: false,
        tier: 4,
        item_type: 10,
        item_id: 23,
        weapon_type: 0,
        seed: 781_190_902,
        name: String::new(),
        announced: false,
        amount: 1,
        fingerprint: fingerprint.into(),
        hash: hash.into(),
        ground: false,
    };
    let mut s = fresh();
    s.apply_at(&GameEvent::WhoseAccount("4964607".into()), at(1));
    s.apply_at(&pickup("99-133690701-1a03ba73b5f-10", "a4a54a715ab5"), at(2));
    assert_eq!(items_of(&snap(&s), "Heroic").0, 0, "a friend handing you a thing is not you finding one");
    s.apply_at(&pickup("99-4964607-1a03ba74c88-10", "0f21b6c4d7e3"), at(3));
    assert_eq!(items_of(&snap(&s), "Heroic").0, 1, "our own still counts");
}

#[test]
fn mail_that_was_already_there_does_not_announce_itself() {
    let mut s = fresh();
    assert_eq!(s.mail_state(), None, "before anything is said, nothing is known");
    s.apply_at(&GameEvent::Mail(true), at(1));
    assert_eq!(s.mail_state(), Some(true));

    let mut empty = fresh();
    empty.apply_at(&GameEvent::Mail(false), at(1));
    assert_eq!(empty.mail_state(), Some(false));
    empty.apply_at(&GameEvent::Mail(true), at(2));
    assert_eq!(empty.mail_state(), Some(true), "and that is the arrival worth a chime");

    s.reset_at(at(3));
    assert_eq!(s.mail_state(), Some(true), "the box is not emptied by the Reset button");
}

#[test]
fn an_item_you_dropped_yourself_is_not_found_when_you_pick_it_up() {
    let mut s = fresh();
    s.set_prefer_ground(true);
    s.set_filter(vec!["Heroic".into()], 0);
    let pendant = "7-4964607-65953287a338c0001-5";
    let pickup = |fp: &str| GameEvent::ItemAdded {
        rarity: number(9),
        unscaled: false,
        mf: false,
        tier: 6,
        item_type: 5,
        item_id: 25,
        weapon_type: 0,
        seed: 0,
        name: "Pendant of Eternity".into(),
        announced: false,
        amount: 1,
        fingerprint: fp.into(),
        hash: String::new(),
        ground: false,
    };
    s.apply_at(&GameEvent::ItemsLetGo(vec![pendant.into()]), at(1));
    assert!(s.apply_at(&pickup(pendant), at(2)).is_none(), "the same item returning is not a find");
    assert_eq!(items_of(&snap(&s), "Heroic").0, 0);
    assert!(s.apply_at(&pickup(pendant), at(3)).is_some(), "only the return itself is excused");
}

#[test]
fn a_reset_between_a_deposit_and_its_balance_earns_the_gold_once() {
    let mut s = fresh();
    s.apply_at(&account_packet("Parahryushka", 0, 84_833_801), at(1));
    s.apply_at(&balance(720_239), at(2));
    s.apply_at(&deposit(2600), at(3));
    assert_eq!(snap(&s).gold.earned, 2600, "the finished run keeps it");
    s.reset_at(at(4));
    s.apply_at(&balance(722_839), at(5));
    assert_eq!(snap(&s).gold.earned, 0, "the new session did not earn it");
}

#[test]
fn a_reset_between_a_balance_and_its_deposit_earns_the_gold_once() {
    let mut s = fresh();
    s.apply_at(&account_packet("Parahryushka", 0, 84_833_801), at(1));
    s.apply_at(&balance(720_239), at(2));
    s.apply_at(&balance(722_839), at(3));
    assert_eq!(snap(&s).gold.earned, 2600, "the balance climbed by 2600");
    s.reset_at(at(4));
    s.apply_at(&deposit(2600), at(5));
    assert_eq!(snap(&s).gold.earned, 0, "the deposit that caused that climb is not a second 2600");
}

#[test]
fn the_peak_a_climb_is_measured_from_survives_a_reset() {
    let mut s = fresh();
    s.apply_at(&account_packet("Parahryushka", 0, 84_833_801), at(1));
    s.apply_at(&balance(1_000_000), at(2));
    s.apply_at(&balance(500_000), at(3));
    s.reset_at(at(4));
    s.apply_at(&balance(1_000_000), at(5));
    assert_eq!(snap(&s).gold.earned, 0, "returning to a level the bank has already held is a return, not income");
}

#[test]
fn a_deposit_before_the_first_balance_still_counts() {
    let mut s = fresh();
    s.restore(&Carried { gold: 717_188, mode: Some("GSS".into()), xp: 0, kills: 0 });
    s.apply_at(&account_packet("Parahryushka", 0, 84_833_801), at(1));
    s.apply_at(&deposit(2600), at(2));
    s.apply_at(&balance(722_839), at(3));
    let snap = snap(&s);
    assert_eq!(snap.gold.earned, 2600);
    assert_eq!(snap.gold.total, 722_839);
}

#[test]
fn totals_carried_from_the_last_run_do_not_count_as_earned() {
    let mut s = fresh();
    s.restore(&Carried { gold: 700_000, mode: Some("GSS".into()), xp: 90_000_000, kills: 912_000 });
    s.apply_at(&account_packet("Parahryushka", 913_000, 91_000_000), at(1));
    s.apply_at(&balance(715_517), at(2));
    let snap1 = snap(&s);
    assert_eq!(snap1.gold.total, 715_517);
    assert_eq!(snap1.gold.earned, 0, "a restart must not invent earnings");
    assert_eq!(snap1.xp.earned, 0);
    assert_eq!(snap1.kills.earned, 0);
    s.apply_at(&account_packet("Parahryushka", 913_100, 91_500_000), at(3));
    s.apply_at(&balance(716_000), at(4));
    let snap2 = snap(&s);
    assert_eq!(snap2.kills.earned, 100);
    assert_eq!(snap2.xp.earned, 500_000);
    assert_eq!(snap2.gold.earned, 483);
}

#[test]
fn a_run_keeps_the_six_rooms_it_spent_longest_in() {
    let mut s = fresh();
    s.apply_at(&account_packet("Test", 1_000, 10_000), at(1));
    s.apply_at(&account_packet("Test", 1_400, 60_000), at(2));
    // seven rooms, the n-th held for n * 10 seconds
    let mut t = 10;
    for n in 1..=7u64 {
        s.apply_at(&GameEvent::Room(format!("Act_01_0{n}")), at(t));
        t += n * 10;
    }
    s.apply_at(&GameEvent::Room("Act_02_01".into()), at(t));
    let run = s.finish_at(at(t + 1)).expect("a session with earnings is worth keeping");
    assert_eq!(run.zones.len(), 6);
    let names: Vec<&str> = run.zones.iter().map(|(room, _)| room.as_str()).collect();
    assert!(!names.contains(&"Act_01_01"), "the shortest stay is the one left out: {names:?}");
    assert_eq!(names[0], "Act_01_07");
    assert!(run.zones.windows(2).all(|w| w[0].1 >= w[1].1), "{:?}", run.zones);
}

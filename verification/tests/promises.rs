use hs_tracker::catalog::Catalog;
use hs_tracker::json::{Json, JsonNumber};
use hs_tracker::messages::item_event;
use hs_tracker::parser::GameEvent;
use hs_tracker::presence::Card;
use hs_tracker::stats::{GameStats, Now, SECOND};
use hs_tracker::status::{StatusState, RETRY_MS, SEND_GAP_MS};

fn at(secs: u64) -> Now {
    Now { mono: secs * SECOND, wall_ms: 1_700_000_000_000 + secs * 1000 }
}

fn fresh() -> GameStats {
    GameStats::new_at(at(0), Catalog::empty())
}

fn number(n: i64) -> Json {
    Json::Number(JsonNumber { exact: Some(n), text: n.to_string() })
}

fn object(fields: &[(&str, i64)]) -> Json {
    Json::Object(fields.iter().map(|(k, v)| (k.to_string(), number(*v))).collect())
}

fn satanic(tier: i64, fingerprint: &str) -> GameEvent {
    GameEvent::ItemAdded {
        rarity: number(6),
        unscaled: false,
        mf: false,
        tier,
        item_type: 0,
        item_id: 0,
        weapon_type: 0,
        seed: 0,
        name: String::new(),
        announced: false,
        amount: 1,
        fingerprint: fingerprint.into(),
        hash: String::new(),
        ground: true,
    }
}

fn in_act(act: i64) -> GameEvent {
    GameEvent::Account {
        experience: 1,
        has_experience: true,
        season: 1,
        hardcore: 0,
        blood_pact: 0,
        name: "Test".into(),
        level: 10,
        herolevel: 20,
        difficulty: 2,
        hell_sub: 0,
        act,
        kills: 0,
        tallies: Vec::new(),
    }
}

fn card(state: &str) -> Card {
    Card {
        details: "Act 5".into(),
        state: state.into(),
        hover: "Test".into(),
        start: 1_700_000_000_000,
        satanic: None,
    }
}

fn rarity_of(e: &GameEvent) -> &Json {
    match e {
        GameEvent::ItemAdded { rarity, .. } => rarity,
        _ => panic!("an item event"),
    }
}

#[test]
fn a_reset_keeps_the_act() {
    let mut s = fresh();
    s.apply_at(&in_act(5), at(1));
    assert_eq!(s.snapshot(String::new()).act, 5);
    s.reset_at(at(2));
    assert_eq!(s.snapshot(String::new()).act, 5, "the act is where the character stands, not something earned");
}

#[test]
fn a_fresh_session_is_open_with_the_default_settings() {
    let s = GameStats::default();
    assert!(!s.finished);
    assert!(!s.paused());
    assert_eq!(s.revision(), 0);
    assert_eq!(s.extra_revision(), 0);
    assert!(!s.mail_known);
    assert!(s.prefs.prefer_ground);
    assert_eq!(s.prefs.alerts, vec!["Satanic", "Set", "Heroic", "Angelic", "Unholy"]);
    assert_eq!((s.prefs.min_tier, s.prefs.fx_tier), (0, 6));
    assert!(s.prefs.fx_rarities.is_empty());
    assert!(s.extra().drops.is_empty());
}

#[test]
fn the_journal_files_the_entry_it_hands_back() {
    let mut s = fresh();
    let d = s.apply_at(&satanic(4, "7-1-a"), at(3)).expect("a Satanic drop is announced");
    let journal = s.extra().drops;
    assert_eq!(journal.len(), 1);
    assert_eq!(journal[0].tier, d.tier);
    assert_eq!(journal[0].ts_ms, at(3).wall_ms);
    assert_eq!(journal[0].rarity, "Satanic");
    let e = s.apply_at(&satanic(2, "7-1-b"), at(4)).expect("another one");
    let journal = s.extra().drops;
    assert_eq!(journal.len(), 2, "the newest goes in front");
    assert_eq!((journal[0].ts_ms, journal[0].tier), (e.ts_ms, e.tier));
    assert_eq!(journal[1].ts_ms, d.ts_ms);
}

#[test]
fn a_refused_rarity_claim_is_carried_as_null() {
    let c = Catalog::empty();
    let plain = item_event(&c, &object(&[("c", 0), ("d", 6)]), None, false);
    assert!(matches!(rarity_of(&plain), Json::Null), "a plain base cannot be Satanic");
    let odyssey = item_event(&c, &object(&[("c", 1), ("d", 6), ("h", 1)]), None, false);
    assert!(matches!(rarity_of(&odyssey), Json::Null), "odyssey numbers its own rarities");
    let magic = item_event(&c, &object(&[("c", 1), ("d", 6)]), None, false);
    assert!(matches!(rarity_of(&magic), Json::Number(JsonNumber { exact: Some(6), .. })), "a claim on an item that may carry it stands");
    let none = item_event(&c, &object(&[("c", 1)]), None, false);
    assert!(matches!(rarity_of(&none), Json::Number(JsonNumber { exact: Some(0), .. })), "no claim is rarity 0");
}

#[test]
fn finishing_a_run_moves_the_revision() {
    let mut s = fresh();
    let before = s.revision();
    s.set_finished_at(true, 5 * SECOND);
    assert!(s.finished);
    assert!(s.paused(), "closing a run holds its clock");
    assert_eq!(s.revision(), before + 2, "the hold and the close each move the revision");
    s.set_finished_at(true, 6 * SECOND);
    assert_eq!(s.revision(), before + 3, "a clock already held is not held again");
}

#[test]
fn a_finished_run_ignores_the_pause_button() {
    let mut s = fresh();
    s.set_finished_at(true, SECOND);
    let revision = s.revision();
    assert!(s.paused());
    s.set_paused_at(false, 2 * SECOND);
    assert!(s.paused(), "the button does not lift a finished run");
    assert_eq!(s.revision(), revision);
}

#[test]
fn a_paused_session_takes_no_sample() {
    let mut s = fresh();
    s.set_paused_at(true, SECOND);
    let revision = s.revision();
    let points = s.extra().series.len();
    s.sample_at(90 * SECOND);
    assert_eq!(s.revision(), revision);
    assert_eq!(s.extra().series.len(), points);
}

#[test]
fn the_status_shows_only_while_it_is_wanted() {
    let s = StatusState::new();
    let (s, t) = s.tick(true, 1000);
    assert!(t.connect && t.build && !t.take_down, "a first tick opens the link and builds a card");
    assert!(s.worth_sending(&card("0 SS")));
    let s = s.answered(true, 1000, card("0 SS"));
    assert!(!s.worth_sending(&card("0 SS")), "an unchanged card is not sent again");
    assert!(s.worth_sending(&card("1 SS")));
    let (s, t) = s.tick(true, 1000 + SEND_GAP_MS - 1);
    assert!(!t.build, "four seconds between two cards");
    let (s, t) = s.tick(true, 1000 + SEND_GAP_MS);
    assert!(t.build && !t.connect);
    let (s, t) = s.tick(false, 9000);
    assert!(t.take_down && !s.linked && s.shown.is_none(), "the game closed: the status goes down");
}

#[test]
fn a_silent_link_is_tried_again_after_half_a_minute() {
    let (s, _) = StatusState::new().tick(true, 1000);
    let s = s.answered(false, 2000, card("0 SS"));
    assert!(!s.linked);
    assert_eq!(s.next_try, 2000 + RETRY_MS);
    let (s, t) = s.tick(true, 2000 + RETRY_MS - 1);
    assert!(!t.connect && !t.build);
    let (_, t) = s.tick(true, 2000 + RETRY_MS);
    assert!(t.connect);
}

fn resource_drop(name: &str, fingerprint: &str) -> GameEvent {
    GameEvent::ItemAdded {
        rarity: number(1),
        unscaled: false,
        mf: false,
        tier: 0,
        item_type: 13,
        item_id: 0,
        weapon_type: 0,
        seed: 0,
        name: name.into(),
        announced: false,
        amount: 1,
        fingerprint: fingerprint.into(),
        hash: String::new(),
        ground: false,
    }
}

#[test]
fn an_array_rarity_claim_is_carried_as_it_came() {
    let c = Catalog::empty();
    let obj = Json::Object(vec![
        ("c".to_string(), number(1)),
        ("d".to_string(), Json::Array(vec![number(1), number(2)])),
    ]);
    match rarity_of(&item_event(&c, &obj, None, false)) {
        Json::Array(items) => {
            assert_eq!(items.len(), 2);
            assert!(matches!(items[1], Json::Number(JsonNumber { exact: Some(2), .. })));
        },
        _ => panic!("the claim is kept as the array it was"),
    }
}

#[test]
fn equal_resources_are_listed_by_name_once_each() {
    let mut s = fresh();
    s.apply_at(&resource_drop("Zeta Stone", "7-1-z"), at(1));
    s.apply_at(&resource_drop("Alpha Stone", "7-1-a"), at(2));
    s.apply_at(&resource_drop("Zeta Stone", "7-1-y"), at(3));
    s.apply_at(&resource_drop("Alpha Stone", "7-1-b"), at(4));
    let listed = s.snapshot(String::new()).resource_items;
    let names: Vec<&str> = listed.iter().map(|r| r.name.as_str()).collect();
    assert_eq!(names, vec!["Alpha Stone", "Zeta Stone"], "a tie in count goes by name, and each name once");
    assert!(listed.iter().all(|r| r.total == 2));
    assert!(s.is_well_formed());
}

#[test]
fn mail_before_its_state_is_known_is_not_well_formed() {
    let mut s = fresh();
    assert!(s.is_well_formed());
    s.has_mail = true;
    assert!(!s.is_well_formed(), "mail is only had once the mail state is known");
    s.mail_known = true;
    assert!(s.is_well_formed());
    s.clock.by_hand = true;
    assert!(!s.is_well_formed(), "a clock held by hand is a held clock");
}

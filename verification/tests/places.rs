use hs_tracker::catalog::Catalog;
use hs_tracker::presence::{card, clip, satanic_badge, zone_label, zone_pair};
use hs_tracker::stats::{CharacterInfo, GameStats, ItemStats, Now, SatanicZone, Snapshot};

fn rooms() -> Catalog {
    let mut c = Catalog::empty();
    c.rooms.push(("Act_08_02".to_string(), "Flooded Plains".to_string()));
    c.rooms.push(("Act_02_05".to_string(), "The Glacial Trail".to_string()));
    c.rooms.push(("Town_01_rm".to_string(), "Town of Inoya".to_string()));
    c
}

#[test]
fn rooms_read_as_places() {
    let c = rooms();
    // the game's own names, for the rooms it names
    assert_eq!(zone_label(&c, "Act_08_02"), "Flooded Plains");
    assert_eq!(zone_label(&c, "Act_02_05"), "The Glacial Trail");
    assert_eq!(zone_label(&c, "Town_01_rm"), "Town of Inoya");
    assert_eq!(zone_label(&c, "Shadow_Realm_rm"), "Shadow Realm", "and not \"Shadow Realm rm\"");

    // and the arithmetic underneath, for a room the tables have not caught up with
    assert_eq!(zone_label(&c, "Act_44_02"), "Act 44 · Zone 2");
    assert_eq!(zone_label(&c, "Town_01"), "Town");
    assert_eq!(zone_label(&c, "Chaos_Tower"), "Chaos Tower");
    assert_eq!(zone_label(&c, "Nowhere_At_All_rm"), "Nowhere At All");
}

#[test]
fn a_room_and_a_satanic_zone_name_the_same_place() {
    assert_eq!(zone_pair("Act_08_02"), zone_pair("SZ_8_2"));
    assert_ne!(zone_pair("Act_08_02"), zone_pair("SZ_8_3"));
    assert_eq!(zone_pair("Town"), None);
}

#[test]
fn the_badge_goes_out_with_the_act() {
    let c = rooms();
    // the game said so, and the act agrees
    assert_eq!(satanic_badge(&c, true, Some("Act_08_02"), 8).as_deref(), Some("Flooded Plains"));

    // it said so before the player walked into another act
    assert_eq!(satanic_badge(&c, true, Some("Act_08_02"), 3), None);

    // and it never said so at all
    assert_eq!(satanic_badge(&c, false, Some("Act_08_02"), 8), None);
    assert_eq!(satanic_badge(&c, true, None, 8), None);
}

#[test]
fn a_line_is_cut_where_we_choose() {
    assert_eq!(clip("Act 8".into(), 120), "Act 8");
    assert_eq!(clip("абвгд".into(), 3), "аб…");
}

#[test]
fn zone_numbers_read_both_spellings() {
    assert_eq!(zone_pair("Act_08_02"), Some((8, 2)));
    assert_eq!(zone_pair("SZ_8_2"), Some((8, 2)));
    assert_eq!(zone_pair("Act_11_01_rm"), Some((11, 1)));
    assert_eq!(zone_pair("Act_x_01"), None);
    assert_eq!(zone_pair(""), None);
}

#[test]
fn a_line_that_fits_is_left_alone_and_one_that_does_not_ends_in_an_ellipsis() {
    assert_eq!(clip("abc".into(), 3), "abc");
    assert_eq!(clip("abcd".into(), 3), "ab…");
    assert_eq!(clip("abcd".into(), 1), "…");
    assert_eq!(clip(String::new(), 5), "");
}

#[test]
fn a_satanic_zone_is_labelled_by_the_room_it_names() {
    let c = rooms();
    assert_eq!(zone_label(&c, "SZ_8_2"), "Act 8 · Zone 2");
    assert_eq!(satanic_badge(&c, true, Some("SZ_2_5"), 2).as_deref(), Some("Act 2 · Zone 5"));
    assert_eq!(satanic_badge(&c, true, Some("Shadow_Realm_rm"), 0), None);
}

fn snapshot() -> Snapshot {
    let stats = GameStats::new_at(Now { mono: 0, wall_ms: 1_700_000_000_000 }, Catalog::empty());
    stats.snapshot_at("idle".to_string(), 0)
}

fn hero(difficulty: i64, hardcore: bool) -> CharacterInfo {
    CharacterInfo {
        name: "Ragnar".to_string(),
        level: 87,
        herolevel: 12,
        difficulty,
        hell_sub: 0,
        hardcore,
        season: 9,
    }
}

#[test]
fn a_fresh_session_reads_as_just_started_somewhere() {
    let c = card(&rooms(), &snapshot(), 1_700_000_000_000, "0");
    assert_eq!(c.details, "Somewhere in Hero Siege");
    assert_eq!(c.state, "just started");
    assert_eq!(c.hover, "HS Tracker");
    assert_eq!(c.start, 1_700_000_000_000);
    assert_eq!(c.satanic, None);
}

#[test]
fn the_card_names_the_act_the_haul_and_the_hero() {
    let mut snap = snapshot();
    snap.act = 8;
    snap.character = Some(hero(3, true));
    snap.mf = 240;
    snap.ss = 5;
    snap.items = vec![
        ("Angelic".to_string(), ItemStats { total: 1, mf: 0, per_hour: 0 }),
        ("Unholy".to_string(), ItemStats { total: 2, mf: 0, per_hour: 0 }),
    ];
    snap.gold.earned = 7_317;
    snap.satanic_here = true;
    snap.satanic_zone = Some(SatanicZone { zone: "SZ_8_2".to_string(), buffs: vec![], debuffs: vec![] });
    let c = card(&rooms(), &snap, 5, "7.3k");
    assert_eq!(c.details, "Act 8 · Inferno HC");
    // the Unholy and Angelic drops are named, not counted twice as SS
    assert_eq!(c.state, "2 SS · 2 Unholy · 1 Angelic · 7.3k gold");
    assert_eq!(c.hover, "HS Tracker · level 87 · hero level 12 · MF 240");
    assert_eq!(c.satanic.as_deref(), Some("Act 8 · Zone 2"));

    // a difficulty the panels do not know is left off, and no MF is no MF
    snap.character = Some(hero(9, false));
    snap.mf = 0;
    let c = card(&rooms(), &snap, 5, "7.3k");
    assert_eq!(c.details, "Act 8");
    assert_eq!(c.hover, "HS Tracker · level 87 · hero level 12");

    // walking out of the act clears the badge
    snap.act = 7;
    assert_eq!(card(&rooms(), &snap, 5, "7.3k").satanic, None);
}

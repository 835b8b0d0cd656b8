use hs_tracker::catalog::{Catalog, CatalogItem};
use hs_tracker::json::{Json, JsonNumber};
use hs_tracker::parser::{
    announced_item_name, fingerprint_account, fingerprint_type, guild_share_to_character, is_entry_codex,
    known_item, matching_json_end, opens_a_value, rarity_from_packet, resolve_rarity, unterminated_start,
};

const NO_IDENTITY: (i64, i64, i64) = (-1, -1, -1);

fn entry(t: i64, i: i64, w: i64, name: &str, names: &[&str], rarity: &str, tier: i64) -> CatalogItem {
    CatalogItem {
        item_type: t,
        item_id: i,
        weapon_type: w,
        name: name.to_string(),
        names: names.iter().map(|n| n.to_string()).collect(),
        rarity: rarity.to_string(),
        tier,
    }
}

/// A few rows of the game's item tables: enough to hold the names two items
/// share and one item's name in several languages.
fn tables() -> Catalog {
    let mut c = Catalog::empty();
    c.items.push(entry(
        0,
        0,
        0,
        "Harlequinn's Crest",
        &["Harlekins Wappen", "Герб Арлекина", "할리퀸의 문장"],
        "Satanic",
        5,
    ));
    c.items.push(entry(9, 3, 0, "Ra's Band", &["Ras Band"], "Heroic", 6));
    c.items.push(entry(3, 11, 14, "Angel", &["Engel"], "Set", 5));
    c.items.push(entry(15, 116, 0, "Angel", &["Engel"], "Heroic", 6));
    c.items.push(entry(13, 30, 0, "Justice", &[], "Common", 1));
    c.items.push(entry(16, 28, 0, "Shrunken Head", &[], "Common", 1));
    c.items.push(entry(10, 37, 0, "Shrunken Head", &[], "Satanic", 5));
    c.items.push(entry(16, 60, 0, "Death's Scythe", &[], "Common", 1));
    c.items.push(entry(3, 7, 2, "Death's Scythe", &[], "Set", 5));
    c.items.push(entry(16, 127, 0, "Jungle Vial", &[], "Common", 1));
    c.items.push(entry(9, 40, 0, "Apex Striker's Ring", &[], "Satanic", 1));
    c
}

fn number(n: i64) -> Json {
    Json::Number(JsonNumber { exact: Some(n), text: n.to_string() })
}

fn text(s: &str) -> Json {
    Json::Str(s.to_string())
}

#[test]
fn an_item_answers_to_its_name_in_any_language() {
    let c = tables();
    let english = "Harlequinn's Crest";
    assert!(c.same_item(english, english, 0, 0, 0), "an English client");
    assert!(c.same_item("Harlekins Wappen", english, 0, 0, 0), "a German one");
    assert!(c.same_item("Герб Арлекина", english, 0, 0, 0), "a Russian one");
    assert!(c.same_item("할리퀸의 문장", english, 0, 0, 0), "a Korean one");
}

#[test]
fn another_items_name_is_still_refused() {
    let c = tables();
    let english = "Harlequinn's Crest";
    assert!(!c.same_item("Ra's Band", english, 0, 0, 0));
    assert!(!c.same_item("Engel", english, 0, 0, 0), "German, another item");
    assert!(!c.same_item("", english, 0, 0, 0));
}

#[test]
fn a_relic_is_what_the_tables_say_it_is() {
    let c = tables();
    let relic = "Jungle Vial";
    assert_eq!(c.rarity_by_name(relic).as_deref(), Some("Common"), "the table is right");
    assert_eq!(c.tier_by_name(relic), 1, "tier D");
    for claim in [number(7), number(10), number(2), Json::Null] {
        assert_eq!(resolve_rarity(&c, &claim, relic, false, NO_IDENTITY), "Common");
    }
    // an item off a scale these tables do not read still claims nothing
    assert_eq!(resolve_rarity(&c, &number(7), relic, true, NO_IDENTITY), "Angelic");
}

#[test]
fn the_tables_outrank_the_packet_for_a_named_item() {
    let c = tables();
    let ring = "Apex Striker's Ring";
    assert_eq!(c.rarity_by_name(ring).as_deref(), Some("Satanic"), "the table is right");
    assert_eq!(c.tier_by_name(ring), 1, "and grades it D");
    assert_eq!(resolve_rarity(&c, &number(7), ring, false, NO_IDENTITY), "Satanic", "a packet claiming Angelic");
    assert_eq!(resolve_rarity(&c, &number(2), ring, false, NO_IDENTITY), "Satanic", "and one claiming Superior");
    assert_eq!(resolve_rarity(&c, &Json::Null, ring, false, NO_IDENTITY), "Satanic", "and one claiming nothing");
    assert_eq!(resolve_rarity(&c, &number(7), "No Such Item", false, NO_IDENTITY), "Angelic");
}

#[test]
fn a_name_two_items_answer_to_is_never_angelic_by_default() {
    let c = tables();
    assert_eq!(c.rarity_by_name("Shrunken Head").as_deref(), Some("Satanic"));
    assert_eq!(c.rarity_by_name("Death's Scythe").as_deref(), Some("Set"));
    for claim in [number(7), number(2), Json::Null] {
        assert_eq!(resolve_rarity(&c, &claim, "Shrunken Head", false, NO_IDENTITY), "Satanic");
        assert_eq!(resolve_rarity(&c, &claim, "Death's Scythe", false, NO_IDENTITY), "Set");
    }
    assert_eq!(c.tier_by_name("Shrunken Head"), 5, "the charm is S");

    assert!(c.muddled("Angel"));
    assert_eq!(c.rarity_by_name("Angel"), None, "the table will not pick");
    assert_eq!(
        resolve_rarity(&c, &number(7), "Angel", false, NO_IDENTITY),
        "Unknown",
        "and the packet does not get to call it Angelic"
    );

    assert!(!c.muddled("No Such Item"));
    assert_eq!(resolve_rarity(&c, &number(7), "No Such Item", false, NO_IDENTITY), "Angelic");
}

#[test]
fn an_identity_tells_apart_two_items_of_one_name() {
    let c = tables();
    let angel_gun = (3, 11, 14);
    let angel_orb = (15, 116, 0);
    let justice = (13, 30, 0);

    for claim in [number(7), number(8), Json::Null] {
        assert_eq!(resolve_rarity(&c, &claim, "Angel", false, angel_gun), "Set");
        assert_eq!(resolve_rarity(&c, &claim, "Angel", false, angel_orb), "Heroic");
        assert_eq!(resolve_rarity(&c, &claim, "Justice", false, justice), "Common");
    }
    assert_eq!(known_item(&c, "Angel", false, angel_gun).map(|k| k.tier), Some(5));
    assert_eq!(known_item(&c, "Angel", false, angel_orb).map(|k| k.tier), Some(6));

    let relic = (16, 28, 0);
    assert_eq!(c.rarity_by_name("Shrunken Head").as_deref(), Some("Satanic"));
    assert_eq!(resolve_rarity(&c, &number(7), "Shrunken Head", false, relic), "Common");
    assert_eq!(known_item(&c, "Shrunken Head", false, relic).map(|k| k.tier), Some(1));
    assert_eq!(resolve_rarity(&c, &number(7), "Shrunken Head", false, (10, 37, 0)), "Satanic");

    assert!(known_item(&c, "Angel", false, (0, 0, 0)).is_none());
    assert!(known_item(&c, "", false, angel_gun).is_none(), "a nameless base is not this");
    assert!(known_item(&c, "Angel", true, angel_gun).is_none(), "Odyssey numbers its own");
}

#[test]
fn a_translated_name_finds_its_item_by_identity() {
    let c = tables();
    assert_eq!(known_item(&c, "Engel", false, (3, 11, 14)).map(|k| k.name), Some("Angel".to_string()));
    assert_eq!(known_item(&c, "Harlekins Wappen", false, (0, 0, 0)).map(|k| k.rarity), Some("Satanic".to_string()));
    assert!(known_item(&c, "Harlekins Wappen", false, (9, 3, 0)).is_none());
}

#[test]
fn the_packets_rarity_reads_numbers_and_names() {
    assert_eq!(rarity_from_packet(&number(1)).as_deref(), Some("Common"));
    assert_eq!(rarity_from_packet(&number(6)).as_deref(), Some("Satanic"));
    assert_eq!(rarity_from_packet(&number(10)).as_deref(), Some("Unholy"));
    assert_eq!(rarity_from_packet(&number(0)), None);
    assert_eq!(rarity_from_packet(&number(11)), None);
    assert_eq!(rarity_from_packet(&text("satanic")).as_deref(), Some("Satanic"));
    assert_eq!(rarity_from_packet(&text("  HEROIC ")).as_deref(), Some("Heroic"));
    assert_eq!(rarity_from_packet(&text("6")).as_deref(), Some("Satanic"));
    assert_eq!(rarity_from_packet(&text("Legendary")), None);
    assert_eq!(rarity_from_packet(&text("")), None);
    assert_eq!(rarity_from_packet(&Json::Null), None);
    assert_eq!(rarity_from_packet(&Json::Bool(true)), None);
}

#[test]
fn a_fingerprint_names_the_account_it_was_made_for() {
    assert_eq!(fingerprint_account("99-4964607-1a03b93f92c-10").as_deref(), Some("4964607"));
    assert_eq!(fingerprint_account("99-133690701-1a03ba73b5f-10").as_deref(), Some("133690701"));
    assert_eq!(fingerprint_account("99-4964607"), None, "there has to be more after it");
    assert_eq!(fingerprint_account("99--1a0-10"), None);
    assert_eq!(fingerprint_account("99-49x46-1a0-10"), None);
    assert_eq!(fingerprint_account(""), None);
}

#[test]
fn a_fingerprint_ends_in_the_items_type() {
    assert_eq!(fingerprint_type(Some("7-4964607-659e0185c44750001-7")), Some(7));
    assert_eq!(fingerprint_type(Some("99-4964607-1a025650554-16")), Some(16));
    assert_eq!(fingerprint_type(Some("8-1")), Some(1));
    assert_eq!(fingerprint_type(Some("abc")), None);
    assert_eq!(fingerprint_type(Some("7-")), None);
    assert_eq!(fingerprint_type(None), None);
}

#[test]
fn a_chat_line_names_the_finder_and_the_find() {
    assert_eq!(
        announced_item_name("Ragnar just found [Azazel's Despair]"),
        Some(("Ragnar".to_string(), "Azazel's Despair".to_string()))
    );
    assert_eq!(
        announced_item_name("İSTANBUL just found [Doom Bringer]"),
        Some(("İSTANBUL".to_string(), "Doom Bringer".to_string()))
    );
    assert_eq!(
        announced_item_name("[Global] <c=ff0000>Tester JUST FOUND [ Eternity Codex ]"),
        Some(("Tester".to_string(), "Eternity Codex".to_string()))
    );
    assert_eq!(
        announced_item_name("Tester: just found [Angel]"),
        Some((String::new(), "Angel".to_string())),
        "what follows the last separator is the finder, and here that is nothing"
    );
    assert_eq!(announced_item_name("Ragnar just found []"), None);
    assert_eq!(announced_item_name("Ragnar just found [Azazel"), None);
    assert_eq!(announced_item_name("Ragnar found nothing"), None);
}

#[test]
fn a_guild_share_scales_by_twenty_thirds() {
    assert_eq!(guild_share_to_character(150), 1000);
    assert_eq!(guild_share_to_character(100), 666);
    assert_eq!(guild_share_to_character(0), 0);
    assert_eq!(guild_share_to_character(-3), -20);
    assert_eq!(guild_share_to_character(-4), -26);
    assert_eq!(guild_share_to_character(i64::MAX), 0, "too large to scale");
}

#[test]
fn a_codex_is_known_by_its_identity_or_its_name() {
    assert!(is_entry_codex(11, 18, ""));
    assert!(is_entry_codex(11, 23, ""));
    assert!(!is_entry_codex(11, 2, "Healing Potion"));
    assert!(is_entry_codex(0, 0, "  Eternity Codex "));
    assert!(is_entry_codex(0, 0, "INFERNAL CODEX"));
    assert!(!is_entry_codex(0, 0, "Eternity"));
}

#[test]
fn a_value_ends_at_its_own_close() {
    assert_eq!(matching_json_end(b"{\"a\": [1, 2]} tail", 0), Some(12));
    assert_eq!(matching_json_end(b"{\"a\": \"}\"}", 0), Some(9), "a brace in a string is text");
    assert_eq!(matching_json_end(b"{\"a\": \"\\\"}\"}", 0), Some(11), "an escaped quote does not end the string");
    assert_eq!(matching_json_end(b"x[1]", 1), Some(3));
    assert_eq!(matching_json_end(b"{]", 0), None, "a close of the wrong kind");
    assert_eq!(matching_json_end(b"{\"a\": 1", 0), None, "no close yet");
}

#[test]
fn the_unfinished_tail_starts_at_the_first_open_value() {
    assert_eq!(unterminated_start(b""), 0);
    assert_eq!(unterminated_start(b"{}"), 2);
    assert_eq!(unterminated_start(b"{} {\"a\""), 3);
    assert_eq!(unterminated_start(b"noise [1] {\"b\": [2"), 10);
    assert_eq!(unterminated_start(b"no braces at all"), 16);
}

#[test]
fn an_opener_reads_as_a_value_only_when_one_can_follow() {
    assert!(opens_a_value(b"{\"key\""));
    assert!(opens_a_value(b"{ }"));
    assert!(opens_a_value(b"{"), "a tail that ends at the opener is a truncation");
    assert!(opens_a_value(b"{   "));
    assert!(!opens_a_value(b"{\x01\x02"));
    assert!(opens_a_value(b"[1, 2"));
    assert!(opens_a_value(b"[ -3"));
    assert!(opens_a_value(b"[true"));
    assert!(!opens_a_value(b"[:"));
    assert!(!opens_a_value(b""));
    assert!(!opens_a_value(b"x{"));
}

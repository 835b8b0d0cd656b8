use hs_tracker::catalog::{Catalog, CatalogItem};
use hs_tracker::json::{Json, JsonNumber};
use hs_tracker::messages::belongs_to_a_player;
use hs_tracker::parser::{resolve_rarity, GameEvent};
use hs_tracker::stats::GameStats;

const NO_IDENTITY: (i64, i64, i64) = (-1, -1, -1);

/// A `serde_json::Value` as the library's `Json`.
fn json_of(v: serde_json::Value) -> Json {
    match v {
        serde_json::Value::Null => Json::Null,
        serde_json::Value::Bool(b) => Json::Bool(b),
        serde_json::Value::Number(n) => Json::Number(JsonNumber { exact: n.as_i64(), text: n.to_string() }),
        serde_json::Value::String(s) => Json::Str(s),
        serde_json::Value::Array(a) => Json::Array(a.into_iter().map(json_of).collect()),
        serde_json::Value::Object(m) => Json::Object(m.into_iter().map(|(k, x)| (k, json_of(x))).collect()),
    }
}

fn j(text: &str) -> Json {
    json_of(serde_json::from_str(text).expect("the test's JSON parses"))
}

fn entry(t: i64, i: i64, w: i64, name: &str, rarity: &str, tier: i64) -> CatalogItem {
    CatalogItem {
        item_type: t,
        item_id: i,
        weapon_type: w,
        name: name.to_string(),
        names: Vec::new(),
        rarity: rarity.to_string(),
        tier,
    }
}

/// The rows of the game's item tables these messages name.
fn tables() -> Catalog {
    let mut c = Catalog::empty();
    c.items.push(entry(10, 17, 0, "Wind Token", "Common", 1));
    c.items.push(entry(16, 127, 0, "Jungle Vial", "Common", 1));
    c.items.push(entry(11, 18, 0, "Eternity Codex", "Angelic", 6));
    c.items.push(entry(11, 23, 0, "Infernal Codex", "Angelic", 6));
    c.items.push(entry(12, 0, 0, "Basic Key", "Common", 1));
    c.items.push(entry(10, 37, 0, "Shrunken Head", "Satanic", 5));
    c.items.push(entry(16, 28, 0, "Shrunken Head", "Common", 1));
    c.items.push(entry(3, 11, 14, "Angel", "Set", 5));
    c.items.push(entry(15, 116, 0, "Angel", "Heroic", 6));
    c.items.push(entry(1, 71, 0, "Odin's Helm", "Angelic", 6));
    c.items.push(entry(18, 8, 0, "Gold Inlaid Mysterious Potion", "Angelic", 6));
    c.items.push(entry(13, 30, 0, "Justice", "Common", 1));
    c.items.push(entry(19, 5, 0, "Essence Vault", "Angelic", 1));
    c.items.push(entry(19, 0, 0, "Essence Vault", "Superior", 1));
    c
}

fn events_from_messages(messages: &[Json]) -> Vec<GameEvent> {
    hs_tracker::messages::events_from_messages(&tables(), messages)
}

fn events_of(message: &Json) -> Vec<GameEvent> {
    events_from_messages(std::slice::from_ref(message))
}

fn message_json(text: &str) -> Json {
    Json::Object(vec![("message".to_string(), Json::Str(text.to_string()))])
}

/// An inventory answer adding one item under a fingerprint.
fn inventory_add(fp: &str, item: Json) -> Json {
    Json::Object(vec![
        ("status".to_string(), j("1")),
        ("message".to_string(), Json::Str("Success on inventory update ext".to_string())),
        ("operations".to_string(), Json::Object(vec![("add".to_string(), Json::Object(vec![(fp.to_string(), item)]))])),
    ])
}

/// A rarity field as `Display` writes it.
fn shown(v: &Json) -> String {
    match v {
        Json::Null => "null".to_string(),
        Json::Bool(b) => b.to_string(),
        Json::Number(n) => n.text.clone(),
        Json::Str(s) => format!("{s:?}"),
        _ => "[..]".to_string(),
    }
}

#[test]
fn the_save_says_which_act() {
    let bare = j(r#"{
        "name": "Babazeya2", "level": 100, "herolevel": 26, "difficulty": 1,
        "season": 0, "hardcore": 0, "experience": 2370181,
        "act_previous": [1, 6, 0, 0],
        "act_zones_6": [0, 2, 1, 1, 1, 0, 0, 0, 0, 0]
    }"#);
    let act = events_of(&bare).into_iter().find_map(|e| match e {
        GameEvent::Account { act, .. } => Some(act),
        _ => None,
    });
    assert_eq!(act, Some(6), "the second element is the act");

    // and the same save arrives wrapped in a slot as well
    let wrapped = j(r#"{
        "account_id": "49646", "slot": "9", "save_counter": "1074",
        "name": "Babazeya2", "level": 100, "herolevel": 26, "difficulty": 1,
        "season": 0, "hardcore": 0, "experience": 2370181,
        "slot_data": { "act_previous": [1, 6, 0, 0] }
    }"#);
    let act = events_of(&wrapped).into_iter().find_map(|e| match e {
        GameEvent::Account { act, .. } => Some(act),
        _ => None,
    });
    assert_eq!(act, Some(6));
}

#[test]
fn a_heartbeat_without_magic_find_still_says_where_we_are() {
    // region "ERROR", season 0, room Act_07_05, no mf
    let telemetry = j(r#"{
        "checksum": "d5", "description": "x", "reason_id": 3, "region_id": 1, "slot": "9",
        "game_state": "eyJyZWdpb24iOiJFUlJPUiIsImhsZXZlbCI6Niwic2xvdCI6OSwibG9naW5fc2Vzc2lvbl90aW1lIjoiMzowNjoxMiIsImxhc3RfdWkiOiJVSV9IdWRfVGFsZW50X29iaiIsImxhc3RfdWlfbm9kZSI6Ik1hcFpvbmUiLCJzZWFzb24iOjAsInJvb20iOiJBY3RfMDdfMDUiLCJwaWNrdXBzIjo4NjM5LCJnYW1lX3Nlc3Npb25fdGltZSI6IjE6MDA6MzMiLCJoYXJkY29yZSI6MCwibGV2ZWwiOjEwMCwicHJldl9yb29tIjoiVG93bl8wN19ybSJ9"
    }"#);
    let events = events_of(&telemetry);
    assert!(
        matches!(events.first(), Some(GameEvent::Room(r)) if r == "Act_07_05"),
        "the act room comes only from this one: {events:?}"
    );
    assert!(
        matches!(events.get(1), Some(GameEvent::Vitals { mf: None, .. })),
        "and it says nothing about magic find: {events:?}"
    );

    // the other one says everything it says
    let beat = j(r#"{
        "account_id": "49646", "checksum": "d5", "identifier": "dtt",
        "game_state": "eyJzbG90Ijo5LCJobGV2ZWwiOjIsIm1mIjoxNDQ3LCJyb29tIjoiVG93bl8wMV9ybSIsInNlc1RpbWUiOjI3MTcsImxldmVsIjoxMDAsInN6IjpmYWxzZX0="
    }"#);
    let events = events_of(&beat);
    assert!(matches!(events.first(), Some(GameEvent::Room(r)) if r == "Town_01_rm"));
    assert!(matches!(
        events.get(1),
        Some(GameEvent::Vitals { mf: Some(1447), level: 100, hlevel: 2, satanic_here: Some(false) })
    ), "{events:?}");

    // `sz` is a JSON boolean now and was a number once. It was still being
    // compared against 1, which a boolean never equals, so the game's own
    // word for "this room is the Satanic Zone" had stopped being read.
    let inside = j(r#"{
        "account_id": "49646", "checksum": "d5", "identifier": "dtt",
        "game_state": "eyJzbG90Ijo5LCJobGV2ZWwiOjIyLCJtZiI6MjI2OSwicm9vbSI6IkFjdF8wMV8wNSIsInNlc1RpbWUiOjEsImxldmVsIjoxMDAsInN6Ijp0cnVlfQ=="
    }"#);
    let events = events_of(&inside);
    assert!(matches!(
        events.get(1),
        Some(GameEvent::Vitals { satanic_here: Some(true), .. })
    ), "{events:?}");
}

#[test]
fn leaving_town_keeps_the_magic_find_and_takes_the_room() {
    let in_town = j(r#"{
        "account_id": "49646", "checksum": "d5", "identifier": "dtt",
        "game_state": "eyJzbG90Ijo5LCJobGV2ZWwiOjIsIm1mIjoxNDQ3LCJyb29tIjoiVG93bl8wMV9ybSIsInNlc1RpbWUiOjI3MTcsImxldmVsIjoxMDAsInN6IjpmYWxzZX0="
    }"#);
    let in_an_act = j(r#"{
        "checksum": "d5", "description": "x", "reason_id": 3, "region_id": 1, "slot": "9",
        "game_state": "eyJyZWdpb24iOiJFUlJPUiIsImhsZXZlbCI6Niwic2xvdCI6OSwibG9naW5fc2Vzc2lvbl90aW1lIjoiMzowNjoxMiIsImxhc3RfdWkiOiJVSV9IdWRfVGFsZW50X29iaiIsImxhc3RfdWlfbm9kZSI6Ik1hcFpvbmUiLCJzZWFzb24iOjAsInJvb20iOiJBY3RfMDdfMDUiLCJwaWNrdXBzIjo4NjM5LCJnYW1lX3Nlc3Npb25fdGltZSI6IjE6MDA6MzMiLCJoYXJkY29yZSI6MCwibGV2ZWwiOjEwMCwicHJldl9yb29tIjoiVG93bl8wN19ybSJ9"
    }"#);
    let mut s = GameStats::with_catalog(tables());
    for e in events_of(&in_town) {
        s.apply(&e);
    }
    assert_eq!(s.snapshot(String::new()).mf, 1447);

    for e in events_of(&in_an_act) {
        s.apply(&e);
    }
    let snap = s.snapshot(String::new());
    assert_eq!(snap.room.as_deref(), Some("Act_07_05"), "the zone panel needs this");
    assert_eq!(snap.mf, 1447, "silence about a number is not zero");
}

#[test]
fn a_stranger_saying_mailbox_is_not_mail() {
    for said in ["mail", "mailbox", "mailbox in town"] {
        let line = j(&format!(
            r#"{{
            "chatRoom": 0,
            "language": 0,
            "message": "{said}",
            "msgColor": 16777215,
            "msgPlus": 0,
            "msgType": 0,
            "name": "Hior",
            "nameColor": 7844807,
            "platform": 0,
            "region": 7,
            "slot": 1,
            "uid": 5070307
        }}"#
        ));
        let events = events_of(&line);
        assert!(
            !events.iter().any(|e| matches!(e, GameEvent::Mail(_))),
            "{said:?} in chat rang the chime: {events:?}"
        );
    }

    // and the server's own answers still do, both ways round
    let came = j(r#"{"message": "New mail!", "status": 1}"#);
    assert!(
        matches!(events_of(&came).first(), Some(GameEvent::Mail(true))),
        "the server saying so is still mail"
    );
    let none = j(r#"{"message": "No new mail", "status": "0"}"#);
    assert!(
        matches!(events_of(&none).first(), Some(GameEvent::Mail(false))),
        "and so is the server saying there is none"
    );
}

#[test]
fn a_quest_reward_waiting_to_be_earned_is_not_a_drop() {
    let fortune = j(r#"{
        "itemData": {
            "7-4964607-659e0185c44750001-7":
                {"a": 850937459, "b": 12, "c": 1, "d": 9, "e": 0, "j": 0, "sh": "2c490ef57269"}
        },
        "itemGenHash": "",
        "message": "ok",
        "operationTime": 0.0011980533599853516,
        "status": 1
    }"#);
    assert!(
        events_of(&fortune).is_empty(),
        "a reward that has not been earned has not dropped"
    );
}

#[test]
fn a_shop_window_is_not_the_ground() {
    let stock = j(r#"{
        "status": 1,
        "message": "ok",
        "itemGenHash": "abc",
        "operationTime": 1,
        "itemData": {
            "7-4964607-659930d6954b90001-3":
                {"a": 180867568, "b": 1, "c": 1, "d": 9, "e": 0, "gd": {"player": 0}, "j": 14, "sh": "0d734caaa919"},
            "7-4964607-659930d695af90003-1":
                {"a": 337583057, "b": 80, "c": 1, "d": 9, "e": 0, "gd": {"player": 0}, "j": 0, "sh": "a62f096b3a4f"}
        }
    }"#);
    assert!(
        events_of(&stock).is_empty(),
        "nothing in a shop window has dropped"
    );

    // and the drop answer beside it still lands. The same field carries the
    // world's id for the spot the thing is lying on when it is lying on one;
    // that number is the whole difference, and this message is verbatim.
    let dropped = j(r#"{
        "status": 1,
        "message": "ok",
        "itemData": {
            "99-4964607-1a025546fef-1":
                {"a": 392508565, "b": 84, "c": 1, "d": 9, "e": 0, "gd": 2422649, "j": 0, "m": 1, "sh": "97ef9213eaf6"}
        }
    }"#);
    let events = events_of(&dropped);
    assert!(
        matches!(events.first(), Some(GameEvent::ItemAdded { ground: true, .. })),
        "a thing with a place in the world is a drop: {events:?}"
    );

    // and so is one that gives its place as a position rather than an id.
    // No named item arrives that way in any capture kept here, but every
    // ordinary item on the ground does, so it is a shape the game speaks
    // and a filter that refused it would throw away a real find.
    let by_position = j(r#"{
        "status": 1,
        "message": "ok",
        "itemGenHash": "abc",
        "operationTime": 1,
        "itemData": {
            "7-4964607-65991cc0616140001-18":
                {"a": 61067529, "b": 5, "c": 1, "d": 6, "e": 0, "gd": {"pos": [11, 0]}, "j": 0, "sh": "ecc3352481d6"}
        }
    }"#);
    let events = events_of(&by_position);
    assert!(
        matches!(events.first(), Some(GameEvent::ItemAdded { ground: true, .. })),
        "a position is a place too: {events:?}"
    );
}

#[test]
fn a_white_charm_is_not_wind_token() {
    let msg = j(r#"{
        "status": 1,
        "message": "Success on inventory update ext",
        "operations": { "add": {
            "99-4964607-1a02570a09d-10": {
                "a": 327060669, "b": 17, "c": 0, "d": 9, "e": 0,
                "gd": 2850811, "j": 0, "sh": "2a0bb624530e"
            }
        }}
    }"#);
    let events = events_of(&msg);
    let GameEvent::ItemAdded { name, rarity, item_type, item_id, .. } = &events[0] else {
        panic!("not an item: {events:?}")
    };
    assert_eq!((*item_type, *item_id), (10, 17), "it is the charm at 10:17:0");
    assert_eq!(
        tables().item_name(10, 17, 0).as_deref(),
        Some("Wind Token"),
        "and the tables do answer for that triple"
    );
    assert!(matches!(rarity, Json::Null), "but a base claims no rarity");
    assert!(name.is_empty(), "so it is left nameless, not called Wind Token");
}

#[test]
fn a_relic_on_the_floor_is_seen_and_the_bases_beside_it_are_not() {
    let msg = j(r#"{
        "message": "ok",
        "status": 1,
        "itemData": {
            "99-4964607-1a025650554-16": {
                "a": 24533420, "b": 127, "c": 0, "d": 9, "e": 0,
                "gd": 2694669, "j": 0, "sh": "8b5bdb8ad9be"
            },
            "99-4964607-1a025650555-3": {
                "a": 663812958, "b": 4, "c": 0, "d": 9, "e": 0,
                "gd": 2694670, "j": 14, "n": 4, "sh": "4e3012a3a7db"
            }
        }
    }"#);
    let events = events_of(&msg);
    assert_eq!(events.len(), 1, "the type-3 base is still refused: {events:?}");
    let GameEvent::ItemAdded { name, item_type, item_id, weapon_type, ground, hash, .. } =
        &events[0]
    else {
        panic!("not an item: {events:?}")
    };
    assert_eq!((*item_type, *item_id, *weapon_type), (16, 127, 0), "relic 127");
    assert!(*ground, "it is lying on the floor, which is where a relic is worth hearing about");
    assert_eq!(hash, "8b5bdb8ad9be");
    // Nameless on purpose. Naming type 16 would change what a list already
    // saved on disk means — see the comment on `RELIC`. The windows read
    // the name off the identity instead, and `item_name` is what they call.
    assert!(name.is_empty(), "relics are not named here");
    assert_eq!(tables().item_name(16, 127, 0).as_deref(), Some("Jungle Vial"));
}

#[test]
fn a_codex_on_the_floor_is_seen_and_a_potion_beside_it_is_not() {
    let msg = j(r#"{
        "message": "ok",
        "status": 1,
        "itemData": {
            "99-4964607-1a025650aaa-11": {
                "a": 1, "b": 18, "c": 0, "d": 1, "e": 0,
                "gd": 2694669, "j": 0, "sh": "codexhash0001"
            },
            "99-4964607-1a025650bbb-11": {
                "a": 2, "b": 0, "c": 0, "d": 1, "e": 0,
                "gd": 2694670, "j": 0, "sh": "potionhash000"
            }
        }
    }"#);
    let events = events_of(&msg);
    assert_eq!(events.len(), 1, "the potion is still refused: {events:?}");
    let GameEvent::ItemAdded { name, item_type, item_id, ground, hash, .. } = &events[0] else {
        panic!("not an item: {events:?}")
    };
    assert_eq!((*item_type, *item_id), (11, 18), "Eternity Codex");
    assert!(*ground);
    assert_eq!(hash, "codexhash0001");
    assert_eq!(name, "Eternity Codex", "the two Codexes are named; potions are not");
}

#[test]
fn the_pickup_of_a_relic_is_the_same_item_as_its_drop() {
    let msg = j(r#"{
        "message": "Success on inventory update ext",
        "status": 1,
        "operations": { "add": {
            "99-4964607-1a025650554-16": {
                "a": 24533420, "b": 127, "c": 0, "d": 9, "e": 0,
                "j": 0, "sh": "8b5bdb8ad9be"
            }
        }}
    }"#);
    let events = events_of(&msg);
    let GameEvent::ItemAdded { item_type, item_id, ground, hash, .. } = &events[0] else {
        panic!("not an item: {events:?}")
    };
    assert_eq!((*item_type, *item_id), (16, 127));
    assert!(!*ground, "this one is in the bag");
    assert_eq!(hash, "8b5bdb8ad9be", "the same hash the floor sighting carried");
}

#[test]
fn the_heartbeat_reports_magic_find() {
    // a real packet out of a capture taken 2026-08-21
    let packet = j(r#"{
        "_src": "10.8.1.2",
        "account_id": "49646",
        "checksum": "d5996db42bdba7d1",
        "identifier": "dttIzbvwpWWqbgmBOQlDr1SjoQKkaHLB",
        "game_state": "eyJzbG90Ijo5LCJobGV2ZWwiOjIsIm1mIjoxNDQ3LCJyb29tIjoiVG93bl8wMV9ybSIsInNlc1RpbWUiOjI3MTcsImxldmVsIjoxMDAsInN6IjpmYWxzZX0=",
        "slot": "9"
    }"#);
    let events = events_of(&packet);
    let vitals = events.iter().find_map(|e| match e {
        GameEvent::Vitals { mf, level, hlevel, satanic_here } => {
            Some((*mf, *level, *hlevel, *satanic_here))
        }
        _ => None,
    });
    assert_eq!(vitals, Some((Some(1447), 100, 2, Some(false))), "events were {events:?}");
}

#[test]
fn the_merchant_is_recognised_under_either_spelling_of_the_marker() {
    for owner in ["gd", "gid"] {
        let item = j(&format!(r#"{{ "{owner}": {{"player": 0}}, "a": 372940672, "b": 8, "c": 1 }}"#));
        assert!(belongs_to_a_player(&item), "{owner} says whose slot it is in");
    }
    // and a position under either name is still the ground
    for where_at in ["gd", "gid"] {
        let item = j(&format!(r#"{{ "{where_at}": {{"pos": [11, 0]}}, "a": 372940672 }}"#));
        assert!(!belongs_to_a_player(&item), "{where_at} with a position is a drop");
    }
    assert!(!belongs_to_a_player(&j(r#"{"a": 1}"#)), "saying nothing is still a drop");
}

#[test]
fn an_item_taken_back_off_the_market_is_not_a_drop() {
    let removal = j(r#"{
        "message": "Removal success",
        "marketId": "138066",
        "fingerprint": "8-4559708-64f87be967fea0001-7",
        "itemData": "{\"d\":1,\"r\":0,\"sh\":\"0d820197c506\",\"b\":44,\"c\":1,\"e\":10,\"i\":548925603,\"q\":2,\"a\":566876198,\"j\":0,\"w\":1}",
        "logSuccess": 1,
        "status": "1"
    }"#);
    assert!(
        events_of(&removal).is_empty(),
        "a removal from the market announced nothing"
    );

    // and the listing that goes the other way, which carries a price
    let listing = j(r#"{
        "item_name": "Stormloop",
        "price": "12121221",
        "market_tokens": "2",
        "seller_name": "Parahryushka",
        "rarity": "9",
        "fingerprint": "8-4559708-64f87be967fea0001-7",
        "item_data": {"a": 566876198, "b": 44, "c": 1, "d": 1, "e": 10, "j": 0, "w": 1}
    }"#);
    assert!(events_of(&listing).is_empty(), "nor does putting one up");
}

#[test]
fn splitting_a_stack_is_not_a_find() {
    let split_text = r#"{
        "itemsAdded": {
            "99-4964607-65a531f3501570001-12": {
                "a": 528483482, "b": 8, "c": 0, "d": 10, "e": 0,
                "j": 0, "o": 2, "sh": "b3db67b0edef", "w": 1
            }
        },
        "message": "ok",
        "newData": {
            "99-4964607-1a052d56d30-12": {"location": 0, "sh": "a358a8f4256f"},
            "99-4964607-65a531f3501570001-12": {"location": 0, "sh": "b3db67b0edef"}
        },
        "operations": {
            "split": {
                "99-4964607-1a052d56d30-12": {"amount": 2, "location": 0, "targetLocation": 0}
            }
        },
        "removedItems": [],
        "status": 1
    }"#;
    let split = j(split_text);
    assert!(
        events_of(&split).is_empty(),
        "the far half of a stack is not a new item"
    );

    // The same shape without the operation IS a pickup, so the guard is on
    // the split and not on the message.
    let mut pickup = j(split_text);
    match &mut pickup {
        Json::Object(members) => members.retain(|(k, _)| k != "operations"),
        _ => panic!("an object"),
    }
    assert!(
        !events_of(&pickup).is_empty(),
        "an ordinary itemsAdded is still a find"
    );
}

#[test]
fn an_item_posted_to_the_market_is_not_a_drop() {
    // the listing as captured, credentials replaced
    let listing = j(r#"{
        "account_id": "7-49646",
        "beta": "0",
        "bricked_status": "undefined",
        "checksum": "0000",
        "damage_types": "|",
        "fingerprint": "7-4964607-65875ac569ff60006-3",
        "hardcore": "0",
        "identifier": "session-token",
        "item_data": {"a": 998596353, "b": 14, "c": 1, "d": 2, "e": 10, "j": 3, "m": 1, "sh": "5d6053f71623", "w": 1},
        "item_mask": "1086337038",
        "item_name": "Pillar of Niflheim"
    }"#);
    assert!(
        events_of(&listing).is_empty(),
        "selling an item we already own is not finding one"
    );

    // and a drop answer still is a drop. Not the same item: the capture
    // this listing came from never saw that one fall, so the alternative to
    // this line was inventing the answer for it — which is how a fixture
    // ends up proving whatever it was written to prove. This one is a
    // different message, copied out whole.
    let dropped = j(r#"{
        "itemData": {
            "99-4964607-1a025546fef-1": {"a": 392508565, "b": 84, "c": 1, "d": 9, "e": 0, "gd": 2422649, "j": 0, "m": 1, "sh": "97ef9213eaf6"}
        },
        "message": "ok",
        "status": 1
    }"#);
    let found: Vec<_> = events_of(&dropped)
        .into_iter()
        .filter(|e| matches!(e, GameEvent::ItemAdded { ground: true, .. }))
        .collect();
    assert_eq!(found.len(), 1, "the generation answer is still read as a drop");
}

#[test]
fn only_named_drops_come_out_of_a_generation_answer() {
    // Both items are made up — the ids are 1 and 2 — so the world id on them
    // is made up too. What is not made up is that a thing in the world says
    // where it is; see `lies_on_the_floor`.
    let msg = j(r#"{
        "itemData": {
            "3-4964607-65875f2ed96610001-3": {"a": 1, "b": 8, "c": 0, "d": 2, "e": 10, "gd": 2422649, "j": 0, "n": 3, "sh": "aa"},
            "3-4964607-65875f2ed96610002-3": {"a": 2, "b": 30, "c": 1, "d": 2, "e": 10, "gd": 2422650, "j": 0, "sh": "bb"}
        },
        "itemGenHash": "x", "message": "ok", "status": 1
    }"#);
    let events = events_of(&msg);
    let items: Vec<_> = events
        .iter()
        .filter_map(|e| match e {
            GameEvent::ItemAdded { hash, ground, .. } => Some((hash.clone(), *ground)),
            _ => None,
        })
        .collect();
    assert_eq!(items, vec![("bb".to_string(), true)], "only the named drop is reported");
}

#[test]
fn renamed_fields_are_recognized() {
    let cases = j(r#"[
        {"currency_data": {}},
        {"total_guild_xp": 10},
        {"added_item_object": {"rarity": "Satanic", "item_id": 1}},
        {"satanic_zone_name": "SZ_1_1", "zone_buffs": [1]}
    ]"#);
    let events = events_of(&cases);
    assert!(matches!(events[0], GameEvent::Gold(_)));
    assert!(matches!(events[1], GameEvent::XpGain(_)));
    assert!(matches!(events[2], GameEvent::ItemAdded { .. }));
    assert!(matches!(events[3], GameEvent::SatanicZone { .. }));
}

#[test]
fn only_the_bare_question_names_the_region_the_zone_answers_for() {
    // What the client sends just before the server names the zone. Two
    // fields and nothing else, which is what tells it apart.
    let ask = j(r#"{"crossregion_identifier": "8909978777", "unique_account_id": "4964607"}"#);
    let events = events_of(&ask);
    assert!(
        matches!(&events[0], GameEvent::ZoneRegion(id) if id == "8909978777"),
        "the question carries the region it is asked on behalf of"
    );

    // The login packet names the same region and is not a question. Reading
    // it as one moves the answer to whichever region logged in last.
    let login = j(r#"{
        "account_id": "49646", "beta": "0", "crossregion_identifier": "4659145238",
        "hardcore": "0", "season": "10", "unique_account_id": "4964607"
    }"#);
    assert!(
        !events_of(&login)
            .iter()
            .any(|e| matches!(e, GameEvent::ZoneRegion(_))),
        "a packet that merely mentions the region is not asking about the zone"
    );
}

#[test]
fn nested_payloads_are_flattened() {
    let payloads = vec![
        j(r#"[
            {"currency_data": {"gss": 100, "gsh": 0, "gns": 0, "gnh": 0, "gbp": 0}},
            {"total_guild_xp": 500, "message": "Gained 15 XP"}
        ]"#),
        j(r#"{"satanic_zone_name": "SZ_1_1", "zone_buffs": [1, 26]}"#),
    ];
    let events = events_from_messages(&payloads);
    assert_eq!(events.len(), 3);
    assert!(matches!(&events[0], GameEvent::Gold(c) if c.gss == 100));
    assert!(matches!(events[1], GameEvent::XpGain(100)), "the guild share scales to character xp");
    assert!(
        matches!(&events[2], GameEvent::SatanicZone { zone, buffs, .. } if zone == "SZ_1_1" && buffs == &[1, 26])
    );
}

#[test]
fn a_quest_reward_is_not_a_guild_share() {
    let quest = j(r#"{"message": "qrwrd ok", "questId": 1301, "status": 1, "xp": 50000, "gold": 35000}"#);
    let events = events_of(&quest);
    assert!(
        events.iter().any(|e| matches!(e, GameEvent::XpGain(50_000))),
        "a quest reward is credited as it stands, not scaled: {events:?}"
    );
}

#[test]
fn a_guild_share_still_scales_to_character_xp() {
    let share = j(r#"{"message": "guild", "status": 1, "xp": 150}"#);
    let events = events_of(&share);
    assert!(events.iter().any(|e| matches!(e, GameEvent::XpGain(1000))), "{events:?}");
}

#[test]
fn json_string_values_are_deserialized() {
    let payload = j(r#"{"currency_data": "{\"gss\": 321, \"gsh\": 0, \"gns\": 0, \"gnh\": 0, \"gbp\": 0}"}"#);
    let events = events_of(&payload);
    assert!(matches!(&events[0], GameEvent::Gold(c) if c.gss == 321));
}

#[test]
fn inventory_update_ext_short_fields() {
    let payload = j(r#"{
        "status": 1,
        "message": "Success on inventory update ext",
        "operations": {
            "add": {
                "8-1": {"e": 10, "m": 1, "a": 676909917, "j": 0, "b": 71, "d": 6, "c": 1},
                "8-6": {"e": 10, "a": 624778371, "j": 0, "b": 8, "d": 9, "c": 0}
            }
        }
    }"#);
    let events = events_of(&payload);
    assert_eq!(events.len(), 2);
    let parsed: Vec<(String, bool, i64, i64)> = events
        .iter()
        .map(|e| match e {
            GameEvent::ItemAdded { rarity, mf, item_type, item_id, .. } => {
                (shown(rarity), *mf, *item_type, *item_id)
            }
            _ => panic!("not an item"),
        })
        .collect();
    // fingerprint suffix carries the item type; `b` is then the id-in-category
    assert!(parsed.contains(&("6".into(), true, 1, 71)), "a named item keeps its claim");
    // and the base beside it does not: 9 is Heroic, which no base is
    assert!(parsed.contains(&("null".into(), false, 6, 8)));
}

#[test]
fn a_real_drop_packet_named_by_two_items_is_not_announced_as_angelic() {
    let dropped = |fingerprint: &str, id: i64, wt: i64| {
        j(&format!(r#"{{
            "status": 1,
            "message": "ok",
            "itemGenHash": "abc",
            "operationTime": 1,
            "itemData": {{
                "{fingerprint}": {{"a": 61067529, "b": {id}, "c": 1, "d": 7, "e": 0,
                              "gd": {{"pos": [11, 0]}}, "j": {wt}, "sh": "ecc3352481d6"}}
            }}
        }}"#))
    };
    // exactly what the counters are handed, identity and all
    let found = |packet: Json| {
        events_of(&packet).into_iter().find_map(|e| match e {
            GameEvent::ItemAdded { name, rarity, item_type, item_id, weapon_type, .. } => {
                Some((rarity, name, (item_type, item_id, weapon_type)))
            }
            _ => None,
        })
    };

    let (rarity, name, id) = found(dropped("7-4964607-65a04f84c51d80001-10", 37, 0))
        .expect("a named drop");
    assert_eq!(name, "Shrunken Head");
    assert_eq!(
        resolve_rarity(&tables(), &rarity, &name, false, id),
        "Satanic",
        "the charm, not the relic that shares its name"
    );

    let (rarity, name, id) = found(dropped("7-4964607-65a04f84c51d80001-3", 11, 14))
        .expect("a named drop");
    assert_eq!(name, "Angel");
    assert_eq!(id, (3, 11, 14), "the packet said which Angel this is");
    assert_eq!(
        resolve_rarity(&tables(), &rarity, &name, false, id),
        "Set",
        "the gun, and not the Angelic the packet claimed"
    );
}

#[test]
fn a_resource_keeps_its_name_when_its_rarity_is_refused() {
    let pickup = |fp: &str, item: Json| {
        let msg = inventory_add(fp, item);
        events_of(&msg).into_iter().find_map(|e| match e {
            GameEvent::ItemAdded { name, rarity, tier, .. } => Some((name, rarity, tier)),
            _ => None,
        })
    };
    // a key: type 12, ordinary as every key is, arriving with the d = 7 the
    // rule above refuses
    let (name, rarity, _) = pickup("7-1-12", j(r#"{"a": 1, "b": 0, "c": 0, "d": 7, "e": 10, "j": 0}"#)).unwrap();
    assert_eq!(name, "Basic Key", "a key is still a key");
    assert!(matches!(rarity, Json::Null), "and still claims no grade of its own");

    // and an equipment base in the same shape stays nameless, which is the
    // whole point of the rule
    let (name, _, _) = pickup("7-1-3", j(r#"{"a": 1, "b": 0, "c": 0, "d": 7, "e": 10, "j": 7}"#)).unwrap();
    assert_eq!(name, "", "an ordinary weapon is not read through the unique table");
}

#[test]
fn an_ordinary_base_carries_no_named_rarity() {
    let pickup = |item: Json| {
        let msg = inventory_add("7-4964607-6593db690c6090001-3", item);
        events_of(&msg).into_iter().find_map(|e| match e {
            GameEvent::ItemAdded { rarity, .. } => Some(shown(&rarity)),
            _ => None,
        })
    };
    let plain = j(r#"{"a": 116892350, "b": 0, "c": 0, "d": 7, "e": 10, "j": 7, "n": 2, "sh": "cb"}"#);
    assert_eq!(pickup(plain).as_deref(), Some("null"), "an ordinary base claims no grade");

    // Heroic is no more a base's rarity than Angelic is. The field ranges
    // far past the ten-point scale on a base, and in the game's own data
    // every ordinary base is Common — none is Heroic, Angelic, Satanic, Set
    // or Unholy.
    let ordinary = j(r#"{"a": 1, "b": 8, "c": 0, "d": 9, "e": 10, "j": 0, "sh": "cb"}"#);
    assert_eq!(pickup(ordinary).as_deref(), Some("null"), "nor is a base Heroic");

    // the grades a base really can carry are still believed
    let white = j(r#"{"a": 1, "b": 8, "c": 0, "d": 2, "e": 10, "j": 0, "sh": "cb"}"#);
    assert_eq!(pickup(white).as_deref(), Some("2"), "Superior on a base is its own");

    // and a named item keeps its own claim, Angelic included
    let named = j(r#"{"a": 1, "b": 71, "c": 1, "d": 7, "e": 10, "j": 0, "sh": "cb"}"#);
    assert_eq!(pickup(named).as_deref(), Some("7"), "a named item may be Angelic");
}

#[test]
fn a_grade_is_only_believed_when_it_is_one() {
    let grade_of = |v: &Json| {
        let events = events_of(v);
        match &events[0] {
            GameEvent::ItemAdded { tier, .. } => *tier,
            _ => panic!("not an item"),
        }
    };
    let pickup = |body: Json| inventory_add("7-4964607-6598765fd97540002-3", body);

    // Straight out of a capture: an Odyssey pickup, an ordinary base by its
    // own `c`, with no name — claiming the top grade. Ten of these were the
    // SS column on a practice run.
    assert_eq!(
        grade_of(&pickup(j(r#"{"a": 1, "b": 0, "c": 0, "d": 3, "e": 0, "h": 1, "n": 6, "sh": "x"}"#))),
        0,
        "Odyssey's grade is on its own scale, like its rarity"
    );

    // And a number that is not a grade in any mode. Also from the capture,
    // in both modes.
    assert_eq!(
        grade_of(&pickup(j(r#"{"a": 1, "b": 0, "c": 0, "d": 7, "e": 10, "n": 6666, "sh": "x"}"#))),
        0,
        "6666 is not a grade; it only ever passed for being above zero"
    );

    // A seasonal grade is still read, including the top one.
    assert_eq!(grade_of(&pickup(j(r#"{"a": 1, "c": 1, "d": 2, "e": 10, "n": 4, "sh": "x"}"#))), 4);
    assert_eq!(grade_of(&pickup(j(r#"{"a": 1, "c": 1, "d": 2, "e": 10, "n": 6, "sh": "x"}"#))), 6);
}

#[test]
fn a_nameless_base_cannot_be_the_top_grade() {
    let top = j(r#"{
        "status": 1,
        "message": "Success on inventory update ext",
        "itemsAdded": { "99-1-1a0-1": { "a": 408783704, "b": 8, "c": 0, "d": 10, "n": 6 } }
    }"#);
    let events = events_of(&top);
    let graded: Vec<i64> = events
        .iter()
        .filter_map(|e| match e {
            GameEvent::ItemAdded { tier, .. } => Some(*tier),
            _ => None,
        })
        .collect();
    assert_eq!(graded, vec![0], "a nameless base claimed SS and was believed");

    // and the grades it really can carry still arrive
    let s = j(r#"{
        "status": 1,
        "message": "Success on inventory update ext",
        "itemsAdded": { "99-1-1a0-2": { "a": 408783704, "b": 8, "c": 0, "d": 10, "n": 5 } }
    }"#);
    let events = events_of(&s);
    let graded: Vec<i64> = events
        .iter()
        .filter_map(|e| match e {
            GameEvent::ItemAdded { tier, .. } => Some(*tier),
            _ => None,
        })
        .collect();
    assert_eq!(graded, vec![5], "S is a grade a base can be, and it was thrown away");
}

#[test]
fn an_odyssey_pickup_claims_no_rarity() {
    // straight out of a capture: every pickup on an Odyssey character, all
    // of them ordinary, arrives with d = 7 — which on the seasonal scale
    // is Angelic, and filled the session with Angelic finds
    let odyssey = j(r#"{
        "status": 1,
        "message": "Success on inventory update ext",
        "operations": { "add": {
            "7-4964607-6591f6c6d88770001-12": {"a": 395097030, "b": 1, "c": 0, "d": 7, "e": 0, "h": 1, "j": 0, "sh": "98f379b4da5b"}
        }}
    }"#);
    let events = events_of(&odyssey);
    let GameEvent::ItemAdded { name, rarity, unscaled, .. } = &events[0] else { panic!("not an item") };
    assert_eq!(resolve_rarity(&tables(), rarity, name, *unscaled, NO_IDENTITY), "Unknown", "its scale is not ours to read");

    // the seasonal shape of the same capture keeps working
    let seasonal = j(r#"{
        "status": 1,
        "message": "Success on inventory update ext",
        "operations": { "add": {
            "7-4964607-64f8884a6cfbb000b-10": {"a": 42, "b": 0, "c": 0, "d": 2, "e": 10, "j": 0, "n": 1, "sh": "ab"}
        }}
    }"#);
    let events = events_of(&seasonal);
    let GameEvent::ItemAdded { name, rarity, unscaled, .. } = &events[0] else { panic!("not an item") };
    assert_eq!(resolve_rarity(&tables(), rarity, name, *unscaled, NO_IDENTITY), "Superior");
}

#[test]
fn an_ordinary_pickup_is_not_given_a_uniques_name() {
    // `c: 0` and a low `b` is an ordinary base going into the bag. Slot
    // 18:8 belongs to an Angelic potion, and reading this through the name
    // table made every white potion an Angelic find.
    let payload = j(r#"{
        "status": 1,
        "message": "Success on inventory update ext",
        "operations": { "add": { "8-18": {"e": 10, "a": 42, "j": 0, "b": 8, "d": 2, "c": 0} } }
    }"#);
    let events = events_of(&payload);
    let GameEvent::ItemAdded { name, rarity, unscaled, .. } = &events[0] else { panic!("not an item") };
    assert_eq!(name, "", "an ordinary base is nameless; the table knows only uniques");
    assert_eq!(resolve_rarity(&tables(), rarity, name, *unscaled, NO_IDENTITY), "Superior", "and it keeps the rarity it was sent with");

    // the same slot, flagged by the game as a named item, still resolves
    let named = j(r#"{
        "status": 1,
        "message": "Success on inventory update ext",
        "operations": { "add": { "8-18": {"e": 10, "a": 42, "j": 0, "b": 8, "d": 2, "c": 1} } }
    }"#);
    let events = events_of(&named);
    let GameEvent::ItemAdded { name, rarity, unscaled, .. } = &events[0] else { panic!("not an item") };
    assert_eq!(name, "Gold Inlaid Mysterious Potion");
    assert_eq!(resolve_rarity(&tables(), rarity, name, *unscaled, NO_IDENTITY), "Angelic");
}

#[test]
fn audit_announcement_with_non_ascii_name() {
    // 'İ' lowercases to two chars, so byte offsets taken from the
    // lowercased copy do not line up with the original
    let payload = j(r#"{"message": "İSTANBUL just found [Doom Bringer]"}"#);
    let events = events_of(&payload);
    assert!(matches!(
        &events[0],
        GameEvent::Found { finder, name } if name == "Doom Bringer" && finder == "İSTANBUL"
    ));
}

#[test]
fn audit_unrelated_packet_is_not_an_item() {
    // single-letter keys are common; "a"/"d" alone must not mint an item
    let payload = j(r#"{"route": "party/update", "a": 5, "d": 6}"#);
    let events = events_of(&payload);
    assert!(
        !events.iter().any(|e| matches!(e, GameEvent::ItemAdded { .. })),
        "spurious item from {events:?}"
    );
    // a spelled-out payload is still an item
    let real = j(r#"{"seed": 991, "rarity": 6, "type": 1}"#);
    assert!(events_of(&real)
        .iter()
        .any(|e| matches!(e, GameEvent::ItemAdded { .. })));
}

#[test]
fn audit_mail_text_variants() {
    let mail = |text: &str| {
        let payload = message_json(text);
        events_of(&payload)
            .into_iter()
            .find_map(|e| match e {
                GameEvent::Mail(v) => Some(v),
                _ => None,
            })
    };
    assert_eq!(mail("You have new mail!"), Some(true));
    assert_eq!(mail("No new mail"), Some(false));
    assert_eq!(mail("You have no new mail."), Some(false));
    assert_eq!(mail("Mailbox empty"), Some(false));
}

#[test]
fn an_item_with_mail_in_its_name_is_not_mail() {
    let mail = |text: &str| {
        events_from_messages(&[message_json(text)])
            .into_iter()
            .find_map(|e| match e {
                GameEvent::Mail(has) => Some(has),
                _ => None,
            })
    };
    // a real Set item, announced to the whole shard
    assert_eq!(mail("Ragnar just found [Lost Master's Platemail]"), None);
    assert_eq!(mail("Chainmail Coif picked up"), None);
    // and the lines that really are about mail
    assert_eq!(mail("You have new mail"), Some(true));
    assert_eq!(mail("Mailbox empty"), Some(false));
    assert_eq!(mail("No new mail"), Some(false));
}

#[test]
fn announced_finds_become_named_journal_items() {
    let payload = j(r#"{"message": "Ragnar just found [Azazel's Despair]!"}"#);
    let events = events_of(&payload);
    assert!(matches!(
        &events[0],
        GameEvent::Found { finder, name } if name == "Azazel's Despair" && finder == "Ragnar"
    ));

    // straight from a capture: the channel prefix is not part of the name
    let server = j(r#"{"message": "SERVER: Parahryushka Just found [Doctor's Potion]"}"#);
    let events = events_of(&server);
    assert!(matches!(
        &events[0],
        GameEvent::Found { finder, name } if name == "Doctor's Potion" && finder == "Parahryushka"
    ));
}

#[test]
fn satanic_zone_carries_debuffs() {
    let payload = j(r#"{"satanic_zone_name": "SZ_2_5", "zone_buffs": [17, 10], "zone_debuffs": "11|13"}"#);
    let events = events_of(&payload);
    assert!(matches!(
        &events[0],
        GameEvent::SatanicZone { buffs, debuffs, .. } if buffs == &[17, 10] && debuffs == &[11, 13]
    ));
}


#[test]
fn a_drop_reaches_the_journal_as_the_item_it_is() {
    let dropped = |fingerprint: &str, id: i64, wt: i64, sh: &str| {
        events_of(&j(&format!(
            r#"{{
            "status": 1,
            "message": "ok",
            "itemGenHash": "abc",
            "operationTime": 1,
            "itemData": {{
                "{fingerprint}": {{"a": 61067529, "b": {id}, "c": 1, "d": 7, "e": 0,
                              "gd": {{"pos": [11, 0]}}, "j": {wt}, "sh": "{sh}"}}
            }}
        }}"#
        )))
    };
    let mut s = GameStats::with_catalog(tables());
    let gun = s.apply(&dropped("7-4964607-65a04f84c51d80001-3", 11, 14, "ecc3352481d6")[0]);
    let gun = gun.expect("a Set find is worth announcing");
    assert_eq!((gun.name.as_str(), gun.rarity.as_str(), gun.tier), ("Angel", "Set", 5));

    let card = s.apply(&dropped("7-4964607-65a04f84c51d80002-13", 30, 0, "b0a1c2d3e4f5")[0]);
    assert!(card.is_none(), "a Common tarot card is not news");

    let snap = s.snapshot(String::new());
    let items = |r: &str| snap.items.iter().find(|(k, _)| k == r).map(|(_, i)| i.total).unwrap_or(0);
    assert_eq!(items("Set"), 1);
    assert_eq!(items("Angelic"), 0, "which is what the packet claimed for both");
    let collectibles = snap.resources.iter().find(|(k, _)| k == "collectibles").map(|(_, n)| *n);
    assert_eq!(collectibles, Some(1));
    assert_eq!(items("Common"), 0);
}

#[test]
fn a_list_can_name_one_of_the_seven_vaults() {
    let vault = |which: i64, sh: &str| {
        events_of(&j(&format!(
            r#"{{
            "status": 1,
            "message": "Success on inventory update ext",
            "goldAmount": 0,
            "newHashes": {{}},
            "operations": {{ "add": {{
                "99-4964607-1a042be8def-19": {{"a": 98768726, "b": {which}, "c": 0, "d": 8,
                                              "e": 0, "j": 0, "sh": "{sh}"}}
            }}}}
        }}"#
        )))
        .into_iter()
        .next()
        .expect("a pickup")
    };
    let GameEvent::ItemAdded { name, item_type, item_id, .. } = &vault(5, "a") else { panic!("not an item") };
    assert_eq!((name.as_str(), *item_type, *item_id), ("Essence Vault", 19, 5));

    let mut s = GameStats::with_catalog(tables());
    s.set_sound_lists(vec![("list-vault".into(), vec!["Essence Vault (Angelic)".into()])]);
    let angelic = s.apply(&vault(5, "a")).expect("the one the list names");
    assert_eq!(angelic.rarity, "Angelic");
    assert_eq!(angelic.sound.as_deref(), Some("list-vault"));
    assert!(angelic.flourish, "a listed vault takes the pillar");
    assert!(s.apply(&vault(0, "b")).is_none(), "the Superior one is another item");

    s.set_sound_lists(vec![("list-any".into(), vec!["Essence Vault".into()])]);
    let superior = s.apply(&vault(0, "c")).expect("any vault");
    assert_eq!(superior.rarity, "Superior");
    assert_eq!(superior.sound.as_deref(), Some("list-any"));
}

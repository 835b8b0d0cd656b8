use hs_tracker::capture::{extract_json_values, extract_messages, query_payload};
use hs_tracker::catalog::Catalog;
use hs_tracker::json::{Json, JsonNumber};
use hs_tracker::parser::GameEvent;

/// A `serde_json::Value` as the library's `Json`.
fn json_of(v: serde_json::Value) -> Json {
    match v {
        serde_json::Value::Null => Json::Null,
        serde_json::Value::Bool(b) => Json::Bool(b),
        serde_json::Value::Number(n) => Json::Number(JsonNumber { exact: n.as_i64(), text: n.to_string() }),
        serde_json::Value::String(s) => Json::Str(s),
        serde_json::Value::Array(a) => Json::Array(a.into_iter().map(json_of).collect()),
        serde_json::Value::Object(m) => Json::Object(m.into_iter().map(|(k, x)| (k, json_of(x))).collect()),
    }
}

fn j(text: &str) -> Json {
    json_of(serde_json::from_str(text).expect("the test's JSON parses"))
}

fn events_from_messages(messages: &[Json]) -> Vec<GameEvent> {
    hs_tracker::messages::events_from_messages(&Catalog::empty(), messages)
}

fn member<'a>(j: &'a Json, key: &str) -> Option<&'a Json> {
    match j {
        Json::Object(ms) => ms.iter().find(|(k, _)| k == key).map(|(_, v)| v),
        _ => None,
    }
}

#[test]
fn a_buffer_of_open_braces_does_not_stall_capture() {
    let mut buf = br#"{"currencyData": {"GSS": 1}}"#.to_vec();
    buf.extend(std::iter::repeat(b'{').take(512 << 10));
    let at = std::time::Instant::now();
    let messages = extract_messages(&buf);
    let took = at.elapsed();
    assert!(took < std::time::Duration::from_secs(5), "512 KB of braces took {took:?}");
    assert_eq!(messages.len(), 1, "the message before the noise is still read");
}

#[test]
fn json_survives_framing_bytes_inside_the_buffer() {
    // a length prefix between two messages must not swallow either
    let raw = b"\x00\x1f{\"currency_data\":{\"GSS\":7}}\x00\x05{\"total_guild_xp\":3,\"message\":\"Gained 9 XP\"}";
    let events = events_from_messages(&extract_messages(raw));
    assert!(events.iter().any(|e| matches!(e, GameEvent::Gold(c) if c.gss == 7)));
    assert!(events.iter().any(|e| matches!(e, GameEvent::XpGain(60))));
}

#[test]
fn capture_accepts_json_arrays_with_junk_around() {
    let raw = b"\x01prefix [{\"total_guild_xp\": 500, \"message\": \"Gained 15 XP\"}] suffix\x00";
    let messages = extract_messages(raw);
    assert_eq!(messages.len(), 1);
    let events = events_from_messages(&messages);
    assert!(matches!(events[0], GameEvent::XpGain(100)));
}

#[test]
fn currency_is_found_wrapped_bare_and_in_a_query_string() {
    let wrapped = j(r#"{"currencyData": {"GSS": 700, "GSH": 0}}"#);
    assert!(matches!(&events_from_messages(&[wrapped])[0], GameEvent::Gold(c) if c.gss == 700));

    let bare = j(r#"{"account_id": 5, "GSS": 727015, "GNS": 12}"#);
    assert!(matches!(&events_from_messages(&[bare])[0], GameEvent::Gold(c) if c.gss == 727015));

    // query payloads: currency_data carries JSON as a string value
    let raw = b"\x01account_id=5&currency_data=%7B%22GSS%22%3A727015%7D&checksum=ab\x00";
    let messages = extract_messages(raw);
    let events = events_from_messages(&messages);
    assert!(
        events.iter().any(|e| matches!(e, GameEvent::Gold(c) if c.gss == 727015)),
        "no gold in {messages:?}"
    );
}

#[test]
fn steam_and_excluded_payloads_are_dropped() {
    assert!(events_from_messages(&[j(r#"{"steam": 1, "xp": 5}"#)]).is_empty());
    assert!(extract_messages(b"\x02{\"inventory_charms\": [1], \"a\": 2}\x00").is_empty());
}

#[test]
fn concatenated_messages_are_read_one_by_one() {
    let values = extract_json_values(b"{\"a\":1}{\"b\":2} [3]");
    assert_eq!(values.len(), 3);
    assert!(member(&values[0], "a").is_some());
    assert!(member(&values[1], "b").is_some());
    assert!(matches!(&values[2], Json::Array(items) if items.len() == 1));
}

#[test]
fn a_value_that_never_closes_is_skipped() {
    let values = extract_json_values(b"{\"a\": {\"b\": 1} ");
    // the outer value never closes, so the scan resumes inside it
    assert_eq!(values.len(), 1);
    assert!(member(&values[0], "b").is_some());
}

#[test]
fn a_query_string_keeps_its_last_value_and_drops_empty_names() {
    let q = query_payload("  a=1&=7&b=%7B%22c%22%3A2%7D&a=3").expect("a query");
    let Json::Object(ms) = &q else { panic!("not an object") };
    assert_eq!(ms.len(), 2);
    assert!(matches!(member(&q, "a"), Some(Json::Str(s)) if s == "3"));
    assert!(matches!(member(member(&q, "b").unwrap(), "c"), Some(Json::Number(n)) if n.exact == Some(2)));
    assert!(query_payload("no fields here").is_none());
    assert!(query_payload("a=1 only").is_none());
}

#[test]
fn a_long_base64_segment_holds_a_message() {
    // {"currency_data":{"GSS":12345}} padded with spaces to pass the length bar
    let body = format!("{{\"currency_data\":{{\"GSS\":12345}}}}{}", " ".repeat(80));
    let blob = base64_text(body.as_bytes());
    assert!(blob.len() > 100);
    let mut raw = vec![0x01u8];
    raw.extend_from_slice(blob.as_bytes());
    raw.push(0x00);
    let messages = extract_messages(&raw);
    let events = events_from_messages(&messages);
    assert!(events.iter().any(|e| matches!(e, GameEvent::Gold(c) if c.gss == 12345)), "{messages:?}");
}

/// Standard padded base64, written out here so the test does not lean on the
/// decoder it checks.
fn base64_text(bytes: &[u8]) -> String {
    const ABC: &[u8] = b"ABCDEFGHIJKLMNOPQRSTUVWXYZabcdefghijklmnopqrstuvwxyz0123456789+/";
    let mut out = String::new();
    for chunk in bytes.chunks(3) {
        let b = [chunk[0], *chunk.get(1).unwrap_or(&0), *chunk.get(2).unwrap_or(&0)];
        let n = ((b[0] as u32) << 16) | ((b[1] as u32) << 8) | b[2] as u32;
        for k in 0..4 {
            if k <= chunk.len() {
                out.push(ABC[((n >> (18 - 6 * k)) & 63) as usize] as char);
            } else {
                out.push('=');
            }
        }
    }
    out
}

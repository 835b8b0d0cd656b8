use hs_tracker::capture::extract_messages;
use hs_tracker::catalog::Catalog;
use hs_tracker::json::Json;
use hs_tracker::parser::GameEvent;
use hs_tracker::reassembly::{Flow, Reassembler};

fn events_from_messages(messages: &[Json]) -> Vec<GameEvent> {
    hs_tracker::messages::events_from_messages(&Catalog::empty(), messages)
}

/// The flow from 1.2.3.4 on the game's port, as the capture keys it.
fn flow_from(a: u8, b: u8, c: u8, d: u8) -> Flow {
    let addr = ((a as u128) << 24) | ((b as u128) << 16) | ((c as u128) << 8) | d as u128;
    (addr, 6600, 51000)
}

fn member<'a>(j: &'a Json, key: &str) -> Option<&'a Json> {
    match j {
        Json::Object(ms) => ms.iter().find(|(k, _)| k == key).map(|(_, v)| v),
        _ => None,
    }
}

fn gold_of(flushed: &[u8]) -> Vec<i64> {
    events_from_messages(&extract_messages(flushed))
        .into_iter()
        .filter_map(|e| match e {
            GameEvent::Gold(c) => Some(c.gss),
            _ => None,
        })
        .collect()
}

#[test]
fn reassembler_flushes_on_ack_change() {
    let mut joiner = Reassembler::default();
    let flow = flow_from(1, 2, 3, 4);
    assert!(joiner.push(flow, 1, b"{\"a\":").is_none());
    assert!(joiner.push(flow, 1, b"1}").is_none());
    let flushed = joiner.push(flow, 2, b"next").unwrap();
    assert_eq!(flushed, b"{\"a\":1}");
}

#[test]
fn two_connections_from_one_host_do_not_shred_each_other() {
    // a fight floods the world connection while the save connection is
    // still sending; keyed by address alone the save was lost
    let mut joiner = Reassembler::default();
    let save = flow_from(1, 2, 3, 4);
    let world = (save.0, 6669, 51001);
    joiner.push(save, 1, b"{\"currency_data\":{\"GSS\":");
    joiner.push(world, 7, b"position noise");
    joiner.push(world, 8, b"more noise");
    joiner.push(save, 1, b"42}}");
    let flushed = joiner.push(save, 2, b"x").expect("the save flushes on its own ack");
    let messages = extract_messages(&flushed);
    assert_eq!(messages.len(), 1, "the save survived the flood");
    let gss = member(member(&messages[0], "currency_data").unwrap(), "GSS").unwrap();
    assert!(matches!(gss, Json::Number(n) if n.exact == Some(42)));
}

#[test]
fn a_message_held_hostage_by_a_stray_opener_is_recovered() {
    let mut joiner = Reassembler::default();
    let flow = flow_from(1, 2, 3, 4);
    // `[` then a quote is a plausible enough start for the carry to take it
    joiner.push(flow, 1, b"\x01[\"noise");
    joiner.push(flow, 2, b"{\"currency_data\":{\"GSS\":11}}");
    for ack in 3..8 {
        if let Some(flushed) = joiner.push(flow, ack, b"x") {
            if gold_of(&flushed).contains(&11) {
                return;
            }
        }
    }
    panic!("the message behind the stray opener was never parsed");
}

#[test]
fn a_stray_brace_in_binary_noise_does_not_stall_parsing() {
    let mut joiner = Reassembler::default();
    let flow = flow_from(1, 2, 3, 4);
    // a lone '{' in framing bytes never closes; everything after it must
    // still be parsed instead of being carried forever
    joiner.push(flow, 1, b"\x01{\x02noise{\"currency_data\":{\"GSS\":5}}");
    let flushed = joiner.push(flow, 2, b"x").unwrap();
    assert!(gold_of(&flushed).contains(&5), "capture stalled on a stray brace");
}

#[test]
fn a_message_cut_after_one_of_its_values_closes_is_still_carried() {
    let mut joiner = Reassembler::default();
    let flow = flow_from(1, 2, 3, 4);
    joiner.push(flow, 1, b"{\"itemData\":{\"7-1-1\":{\"n\":1}},\"currency_data\":{\"GSS\":7");
    let first = joiner.push(flow, 2, b"}}").unwrap();
    assert!(extract_messages(&first).is_empty(), "half a message must not parse");
    let second = joiner.push(flow, 3, b"noise").unwrap();
    assert!(gold_of(&second).contains(&7), "a message cut after a closed inner value was thrown away");
}

#[test]
fn a_tail_longer_than_eight_kilobytes_is_still_carried() {
    let mut joiner = Reassembler::default();
    let flow = flow_from(1, 2, 3, 4);
    let mut head = br#"{"pad":""#.to_vec();
    head.extend(std::iter::repeat(b'x').take(20 << 10));
    head.extend_from_slice(br#"","currency_data":{"GSS":9"#);
    joiner.push(flow, 1, &head);
    let first = joiner.push(flow, 2, b"}}").unwrap();
    assert!(extract_messages(&first).is_empty());
    let second = joiner.push(flow, 3, b"noise").unwrap();
    assert!(gold_of(&second).contains(&9), "a 20 KB tail was refused");
}

#[test]
fn reassembler_carries_a_message_split_across_flushes() {
    let mut joiner = Reassembler::default();
    let flow = flow_from(1, 2, 3, 4);
    // the ack moves on while the object is still open
    joiner.push(flow, 1, b"{\"currency_data\":{\"GSS\":42");
    let first = joiner.push(flow, 2, b"}}").unwrap();
    assert!(extract_messages(&first).is_empty(), "half a message must not parse");
    let second = joiner.push(flow, 3, b"noise").unwrap();
    assert!(gold_of(&second).contains(&42), "message lost across the flush boundary");
}

#[test]
fn an_empty_payload_changes_nothing() {
    let mut joiner = Reassembler::new();
    let flow = flow_from(1, 2, 3, 4);
    assert!(joiner.push_at(flow, 1, b"{\"a\":1}", 0).is_none());
    assert!(joiner.push_at(flow, 2, b"", 10).is_none(), "an empty payload flushes nothing");
    assert_eq!(joiner.push_at(flow, 2, b"x", 20).unwrap(), b"{\"a\":1}");
}

#[test]
fn a_quiet_buffer_is_flushed_on_its_own() {
    let mut joiner = Reassembler::new();
    let flow = flow_from(10, 0, 0, 7);
    joiner.push_at(flow, 1, b"{\"a\":1}", 1_000);
    assert!(joiner.drain_idle_at(1_000 + 249_999_999).is_empty(), "not yet idle");
    let flushed = joiner.drain_idle_at(1_000 + 250_000_000);
    assert_eq!(flushed.len(), 1);
    assert_eq!(flushed[0].0, flow.0);
    assert_eq!(flushed[0].1, b"{\"a\":1}");
    assert!(joiner.drain_idle_at(2_000_000_000).is_empty(), "a flushed buffer is gone");
}

#[test]
fn a_carried_tail_is_given_up_after_three_flushes() {
    let mut joiner = Reassembler::new();
    let flow = flow_from(1, 2, 3, 4);
    joiner.push_at(flow, 1, b"{\"k\":1,", 0);
    // each flush carries the open value on and returns what came before it
    assert_eq!(joiner.push_at(flow, 2, b"\"a\":", 0).unwrap(), b"");
    assert_eq!(joiner.push_at(flow, 3, b"2,", 0).unwrap(), b"");
    assert_eq!(joiner.push_at(flow, 4, b"\"b\":", 0).unwrap(), b"");
    // the fourth time the tail is read as it stands
    assert_eq!(joiner.push_at(flow, 5, b"x", 0).unwrap(), b"{\"k\":1,\"a\":2,\"b\":");
}

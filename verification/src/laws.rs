//! What holds across the library's operations, of the session, the capture
//! and the reassembly of payloads: the promises that speak of more than one
//! call or of every input, stated over the specifications the operations' own
//! contracts use.

use vstd::prelude::*;
use crate::events::{read_balance, rerolled, same_ids, same_opt_text, zone_heard};
use crate::finds::{hunted, screen_post};
use crate::parser::{purse_code, purse_named, Purse};
use crate::session::{blackout_post, carried_of, reset_post, restore_post, took_zone, wanted_rotation};
use crate::stats::{shaped, Bank, Carried, Finds, GameStats, Now, Prefs, ZoneWatch};
use crate::apply::{item_post, item_steps};
use crate::sets::lookup;
use crate::json::Json;
use crate::capture::{excluded, values_from};
use crate::reassembly::{ack_at, buf_at, carry_at, drained, finished, lemma_buf_at_found, live_carry, pushed, swept, CarryV, Flow, Held, PendingV};

verus! {

/// The name a purse is saved under reads back as that purse, and a name that
/// reads as a purse is that purse's own.
pub proof fn purse_names_round_trip(p: Purse, code: Seq<char>)
    ensures
        purse_named(purse_code(p)) == Some(p),
        purse_named(code) matches Some(q) ==> purse_code(q) == code,
{
    reveal_strlit("GSS");
    reveal_strlit("GSH");
    reveal_strlit("GNS");
    reveal_strlit("GNH");
    reveal_strlit("GBP");
    assert("GSS"@[2] != "GSH"@[2] && "GSS"@[1] != "GNS"@[1] && "GSS"@[1] != "GNH"@[1] && "GSS"@[1] != "GBP"@[1]);
    assert("GSH"@[1] != "GNS"@[1] && "GSH"@[1] != "GNH"@[1] && "GSH"@[1] != "GBP"@[1]);
    assert("GNS"@[2] != "GNH"@[2] && "GNS"@[1] != "GBP"@[1] && "GNH"@[1] != "GBP"@[1]);
}

/// Restoring the totals a session carried gives the next session the same
/// bank, purse, experience and kills to start from.
pub proof fn carried_totals_come_back(a: GameStats, c: Carried, x: GameStats, b: GameStats)
    requires
        carried_of(a, c),
        restore_post(x, b, c),
        a.bank.total_gold > 0,
        a.save.total_xp >= 0,
        a.save.total_kills >= 0,
    ensures
        b.bank.total_gold == a.bank.total_gold,
        b.bank.gold_mode == a.bank.gold_mode,
        b.save.total_xp == a.save.total_xp,
        b.save.total_kills == a.save.total_kills,
{
    if let Some(p) = a.bank.gold_mode {
        purse_names_round_trip(p, purse_code(p));
    }
}

/// What a session restored from hands on again is what it was given, where
/// what it was given names a purse and holds something of each.
pub proof fn restored_totals_are_carried_on(a: GameStats, b: GameStats, c: Carried, c2: Carried)
    requires
        restore_post(a, b, c),
        carried_of(b, c2),
        c.gold > 0,
        c.xp > 0,
        c.kills > 0,
        c.mode is Some,
        purse_named(c.mode->0@) is Some,
    ensures
        c2.gold == c.gold,
        c2.xp == c.xp,
        c2.kills == c.kills,
        c2.mode is Some && c2.mode->0@ == c.mode->0@,
{
    purse_names_round_trip(purse_named(c.mode->0@)->0, c.mode->0@);
}

/// A reset clears what the run earned and keeps the character, the mailbox's
/// state and every setting.
pub proof fn a_reset_keeps_the_character(a: GameStats, b: GameStats, now: Now)
    requires
        reset_post(a, b, now),
    ensures
        b.bank.gold_earned == 0,
        b.save.xp_earned == 0,
        b.save.kills_earned == 0,
        b.finds.graded@.len() == 0,
        b.character == a.character,
        b.has_mail == a.has_mail && b.mail_known == a.mail_known,
        b.prefs == a.prefs,
        b.bank.total_gold == a.bank.total_gold,
        b.bank.gold_high == a.bank.gold_high,
        b.bank.banked == a.bank.banked,
        b.bank.pending_step == a.bank.pending_step,
{
}

/// A rotation is told once: taking the change spends it, so a second look
/// finds nothing until the zone moves again.
pub proof fn a_rotation_is_told_once(
    a: GameStats,
    m: GameStats,
    b: GameStats,
    r1: Option<crate::stats::SatanicZone>,
    r2: Option<crate::stats::SatanicZone>,
)
    requires
        took_zone(a, m, r1),
        took_zone(m, b, r2),
    ensures
        r2 is None,
{
}

/// An empty buff pick lets every rotation through, one with no buffs at all
/// included; a zone with no buffs cannot match a pick that names some.
pub proof fn an_empty_buff_pick_is_every_rotation(buffs: Seq<u8>, wanted: Seq<u8>)
    ensures
        wanted_rotation(Seq::empty(), buffs),
        wanted.len() > 0 ==> !wanted_rotation(wanted, Seq::empty()),
{
}

/// An empty relic pick is silence: no relic is hunted.
pub proof fn an_empty_relic_pick_hunts_nothing(s: GameStats, t: i64, id: i64)
    requires
        s.prefs.relics@.len() == 0,
    ensures
        !hunted(s, t, id),
{
}

/// The same zone said twice is one zone, whatever order its buffs come in.
pub proof fn the_same_zone_twice_is_one_zone(
    a: ZoneWatch,
    m: ZoneWatch,
    b: ZoneWatch,
    zone: Seq<char>,
    buffs: Seq<u8>,
    buffs2: Seq<u8>,
    debuffs: Seq<u8>,
    t1: Now,
    t2: Now,
)
    requires
        zone_heard(a, m, zone, buffs, debuffs, t1),
        zone_heard(m, b, zone, buffs2, debuffs, t2),
        same_ids(buffs, buffs2),
    ensures
        b.sz_changed == m.sz_changed,
{
    assert(same_ids(debuffs, debuffs));
}

/// A blackout swallows the first zone answer after it: a zone carried over
/// is not news, whatever the answer says.
pub proof fn a_blackout_swallows_one_answer(
    a: GameStats,
    b: GameStats,
    c: ZoneWatch,
    now: Now,
    zone: Seq<char>,
    buffs: Seq<u8>,
    debuffs: Seq<u8>,
    t: Now,
)
    requires
        blackout_post(a, b, now),
        a.zone.satanic is Some,
        zone_heard(b.zone, c, zone, buffs, debuffs, t),
    ensures
        c.sz_changed == a.zone.sz_changed,
        !c.stale_zone,
{
}

/// A plain reset swallows nothing: a new roll answered for the region that
/// asked before is a rotation straight away.
pub proof fn a_reset_does_not_swallow_a_rotation(
    a: GameStats,
    b: GameStats,
    c: ZoneWatch,
    now: Now,
    zone: Seq<char>,
    buffs: Seq<u8>,
    debuffs: Seq<u8>,
    t: Now,
)
    requires
        reset_post(a, b, now),
        a.zone.satanic is Some,
        same_opt_text(a.zone.zone_region, a.zone.zone_asked_by),
        rerolled(a.zone.satanic->0, zone, buffs, debuffs),
        zone_heard(b.zone, c, zone, buffs, debuffs, t),
    ensures
        c.sz_changed == Some(t.mono),
{
}

/// Climbing back to a balance the bank has held is not income: a balance at
/// or under the highest the purse has stood at earns nothing.
pub proof fn a_return_to_a_held_balance_earns_nothing(b: Bank, p: Purse, current: i64, now: u64)
    requires
        current <= b.gold_high || current <= b.total_gold,
    ensures
        read_balance(b, p, current, now).gold_earned == b.gold_earned,
{
}

/// The first balance a session reads only sets where it stands: reading it is
/// not earning it.
pub proof fn the_first_balance_earns_nothing(b: Bank, p: Purse, current: i64, now: u64)
    requires
        b.total_gold == 0 || b.stale_bank || b.gold_mode != Some(p),
    ensures
        read_balance(b, p, current, now).gold_earned == b.gold_earned,
        read_balance(b, p, current, now).total_gold == current,
{
}

/// The same item seen twice counts once: after one sighting of an identity
/// has counted, no later sighting of it counts again, while the memory of
/// what was seen has not been cleared.
pub proof fn an_item_counts_once(
    a: Finds,
    m: Finds,
    b: Finds,
    account: Option<String>,
    fp1: Seq<char>,
    fp2: Seq<char>,
    ident: Seq<char>,
    g1: bool,
    g2: bool,
    go1: bool,
    first1: bool,
    go2: bool,
    first2: bool,
)
    requires
        screen_post(a, m, account, fp1, ident, g1, go1, first1),
        screen_post(m, b, account, fp2, ident, g2, go2, first2),
        ident.len() > 0,
        m.seen@.len() < 20000,
    ensures
        !(go1 && first1 && go2 && first2),
{
}

/// A sighting repeated on the same side of the pickup is stopped before it
/// counts, while the memory of what was seen has not been cleared.
pub proof fn a_repeated_sighting_is_stopped(
    a: Finds,
    m: Finds,
    b: Finds,
    account: Option<String>,
    fp1: Seq<char>,
    fp2: Seq<char>,
    ident: Seq<char>,
    ground: bool,
    go1: bool,
    first1: bool,
    go2: bool,
    first2: bool,
)
    requires
        screen_post(a, m, account, fp1, ident, ground, go1, first1),
        screen_post(m, b, account, fp2, ident, ground, go2, first2),
        ident.len() > 0,
        m.seen@.len() > 0,
    ensures
        go1 ==> !go2,
{
}


/// Nothing the capture keeps out comes out of a scan: no message of the charm
/// inventory and none from the Steam overlay.
pub proof fn excluded_messages_never_come_out(b: Seq<u8>, i: int, budget: int)
    ensures
        forall|k: int| 0 <= k < values_from(b, i, budget).len() ==> !excluded(#[trigger] values_from(b, i, budget)[k]),
    decreases b.len() - i,
{
    let whole = values_from(b, i, budget);
    if i < 0 || i >= b.len() {
        assert(whole.len() == 0);
    } else if !crate::capture::is_opener(b[i]) {
        excluded_messages_never_come_out(b, i + 1, budget);
        assert(whole == values_from(b, i + 1, budget));
    } else if budget == 0 {
        assert(whole.len() == 0);
    } else {
        let w = crate::capture::walked_from(b, i);
        let left = if budget > w {
            budget - w
        } else {
            0
        };
        excluded_messages_never_come_out(b, i + 1, left);
        let next = values_from(b, i + 1, left);
        if crate::parser::value_end(b, i).0 matches Some(e) && i < e < b.len() && crate::wire::parsed_bytes(
            b.subrange(i, e + 1),
        ) is Some {
            let e = crate::parser::value_end(b, i).0->0;
            excluded_messages_never_come_out(b, e + 1, left);
            let v = crate::wire::parsed_bytes(b.subrange(i, e + 1))->0;
            let rest = values_from(b, e + 1, left);
            if excluded(v) {
                assert(whole =~= rest);
            } else {
                assert(whole =~= seq![v] + rest);
                assert forall|k: int| 0 <= k < whole.len() implies !excluded(#[trigger] whole[k]) by {
                    if k > 0 {
                        assert(whole[k] == rest[k - 1]);
                    }
                }
            }
        } else {
            assert(whole == next);
        }
        assert forall|k: int| 0 <= k < whole.len() implies !excluded(#[trigger] whole[k]) by {}
    }
}

/// A flush loses no bytes: what it gives back, followed by the tail it
/// carries on (where it carries one), is the flow's earlier tail followed by
/// the flushed bytes.
pub proof fn a_flush_loses_no_bytes(carry: Seq<CarryV>, flow: Flow, flushed: Seq<u8>)
    ensures
        ({
            let f = finished(carry, flow, flushed);
            let head = match carry_at(carry, flow) {
                Some(i) => carry[i].1,
                None => Seq::empty(),
            };
            ||| f.0 == head + flushed
            ||| f.1.last().0 == flow && f.0 + f.1.last().1 == head + flushed
        }),
{
    let f = finished(carry, flow, flushed);
    let head = match carry_at(carry, flow) {
        Some(i) => carry[i].1,
        None => Seq::empty(),
    };
    let data = head + flushed;
    let cut = crate::parser::open_from(data, 0);
    open_from_is_past(data, 0);
    if f.0 != data {
        assert(data.take(cut) + data.skip(cut) =~= data);
    }
}

proof fn open_from_is_past(b: Seq<u8>, i: int)
    requires
        i >= 0,
    ensures
        crate::parser::open_from(b, i) >= i || crate::parser::open_from(b, i) == b.len(),
        crate::parser::open_from(b, i) >= 0,
    decreases b.len() - i,
{
    if i < b.len() {
        open_from_is_past(b, i + 1);
        match crate::parser::value_end(b, i).0 {
            Some(e) => if e > i && e < b.len() {
                open_from_is_past(b, e + 1);
            },
            None => {},
        }
    }
}

/// A payload taken in under the ack its flow last sent, or the first a flow
/// sends, flushes nothing; neither does an empty one, which changes nothing.
pub proof fn only_a_new_ack_flushes(h: Held, flow: Flow, ack: u32, payload: Seq<u8>, now: u64)
    ensures
        payload.len() == 0 ==> pushed(h, flow, ack, payload, now) == (h, None::<Seq<u8>>),
        ({
            let e = swept(h, now);
            (ack_at(e.acks, flow) matches Some(i) ==> e.acks[i].1 == ack) ==> pushed(h, flow, ack, payload, now).1
                is None
        }),
{
}


/// Flows are kept apart: while the tables are small enough that no sweep
/// runs, a payload on one flow leaves every buffer of every other flow as it
/// was, and makes none up for them.
pub proof fn flows_do_not_shred_each_other(h: Held, flow: Flow, ack: u32, payload: Seq<u8>, now: u64, other: Flow)
    requires
        h.bufs.len() <= 64 && h.acks.len() <= 512 && h.carry.len() <= 512,
        other != flow,
    ensures
        ({
            let after = pushed(h, flow, ack, payload, now).0.bufs;
            &&& forall|i: int|
                0 <= i < h.bufs.len() && (#[trigger] h.bufs[i]).0 == other ==> exists|j: int|
                    0 <= j < after.len() && after[j] == h.bufs[i]
            &&& forall|j: int|
                0 <= j < after.len() && (#[trigger] after[j]).0 == other ==> exists|i: int|
                    0 <= i < h.bufs.len() && h.bufs[i] == after[j]
        }),
{
    let after = pushed(h, flow, ack, payload, now).0.bufs;
    if payload.len() == 0 {
        assert forall|i: int| 0 <= i < h.bufs.len() && (#[trigger] h.bufs[i]).0 == other implies exists|j: int|
            0 <= j < after.len() && after[j] == h.bufs[i] by {
            assert(after[i] == h.bufs[i]);
        }
        assert forall|j: int| 0 <= j < after.len() && (#[trigger] after[j]).0 == other implies exists|i: int|
            0 <= i < h.bufs.len() && h.bufs[i] == after[j] by {
            assert(h.bufs[j] == after[j]);
        }
        return;
    }
    let e = swept(h, now);
    assert(e == h);
    let last = match ack_at(e.acks, flow) {
        Some(i) => e.acks[i].1,
        None => ack,
    };
    lemma_buf_at_found(e.bufs, flow, ack);
    let bufs1: Seq<PendingV> = match buf_at(e.bufs, flow, ack) {
        Some(j) => e.bufs.update(
            j,
            (flow, ack, if e.bufs[j].2.len() < crate::reassembly::BUF_CAP {
                e.bufs[j].2 + payload
            } else {
                e.bufs[j].2
            }, now),
        ),
        None => e.bufs.push((flow, ack, payload, now)),
    };
    // what the payload's own buffer does leaves the others where they stand
    assert(forall|i: int| 0 <= i < h.bufs.len() && h.bufs[i].0 == other ==> bufs1[i] == h.bufs[i]);
    assert(forall|j: int| 0 <= j < bufs1.len() && bufs1[j].0 == other ==> j < h.bufs.len() && bufs1[j] == h.bufs[j]);
    lemma_buf_at_found(bufs1, flow, last);
    let flushed = ack != last && buf_at(bufs1, flow, last) is Some;
    if flushed {
        let k = buf_at(bufs1, flow, last)->0;
        assert(after == bufs1.remove(k));
        assert forall|i: int| 0 <= i < h.bufs.len() && (#[trigger] h.bufs[i]).0 == other implies exists|j: int|
            0 <= j < after.len() && after[j] == h.bufs[i] by {
            if i < k {
                assert(after[i] == bufs1[i]);
            } else {
                assert(i != k);
                assert(after[i - 1] == bufs1[i]);
            }
        }
        assert forall|j: int| 0 <= j < after.len() && (#[trigger] after[j]).0 == other implies exists|i: int|
            0 <= i < h.bufs.len() && h.bufs[i] == after[j] by {
            if j < k {
                assert(after[j] == bufs1[j]);
            } else {
                assert(after[j] == bufs1[j + 1]);
            }
        }
    } else {
        assert(after == bufs1);
        assert forall|i: int| 0 <= i < h.bufs.len() && (#[trigger] h.bufs[i]).0 == other implies exists|j: int|
            0 <= j < after.len() && after[j] == h.bufs[i] by {
            assert(after[i] == h.bufs[i]);
        }
        assert forall|j: int| 0 <= j < after.len() && (#[trigger] after[j]).0 == other implies exists|i: int|
            0 <= i < h.bufs.len() && h.bufs[i] == after[j] by {
            assert(h.bufs[j] == after[j]);
        }
    }
}


proof fn carry_at_absent(s: Seq<CarryV>, f: Flow)
    requires
        forall|i: int| 0 <= i < s.len() ==> (#[trigger] s[i]).0 != f,
    ensures
        carry_at(s, f) is None,
    decreases s.len(),
{
    if s.len() > 0 {
        carry_at_absent(s.drop_last(), f);
    }
}

proof fn carry_at_found(s: Seq<CarryV>, f: Flow)
    ensures
        carry_at(s, f) matches Some(i) ==> 0 <= i < s.len() && s[i].0 == f,
    decreases s.len(),
{
    if s.len() > 0 {
        carry_at_found(s.drop_last(), f);
    }
}

/// What a flush carries comes back: while each flow holds at most one tail,
/// a tail the flush leaves for its flow leads the next flush of that flow,
/// so a message cut by the first flush is whole in what the second gives
/// back, or in what it carries on in turn.
pub proof fn a_carried_tail_leads_the_next_flush(carry: Seq<CarryV>, flow: Flow, first: Seq<u8>, second: Seq<u8>)
    requires
        forall|i: int, j: int| 0 <= i < j < carry.len() ==> (#[trigger] carry[i]).0 != (#[trigger] carry[j]).0,
    ensures
        ({
            let f1 = finished(carry, flow, first);
            let f2 = finished(f1.1, flow, second);
            f1.1.len() > 0 && f1.1.last().0 == flow ==> {
                let tail = f1.1.last().1;
                ||| f2.0 == tail + second
                ||| f2.1.last().0 == flow && f2.0 + f2.1.last().1 == tail + second
            }
        }),
{
    let f1 = finished(carry, flow, first);
    let found = carry_at(carry, flow);
    carry_at_found(carry, flow);
    let rest = match found {
        Some(i) => carry.remove(i),
        None => carry,
    };
    // no other tail of the flow is left once its own is taken out
    assert forall|k: int| 0 <= k < rest.len() implies (#[trigger] rest[k]).0 != flow by {
        match found {
            Some(i) => {
                if k < i {
                    assert(rest[k] == carry[k]);
                } else {
                    assert(rest[k] == carry[k + 1]);
                }
            },
            None => {
                if carry[k].0 == flow {
                    assert(carry_at(carry.take(k + 1), flow) is Some) by {
                        assert(carry.take(k + 1).drop_last() =~= carry.take(k));
                    }
                    lemma_carry_prefix(carry, flow, k + 1);
                }
            },
        }
    }
    carry_at_absent(rest, flow);
    let head = match found {
        Some(i) => carry[i].1,
        None => Seq::empty(),
    };
    let data = head + first;
    let cut = crate::parser::open_from(data, 0);
    open_from_is_past(data, 0);
    if f1.1.len() > 0 && f1.1.last().0 == flow {
        if f1.1 == rest {
            // nothing was carried: the flow's tail, if any, went out in front
            assert(f1.0 == data);
            assert(rest.len() == 0 || rest.last().0 != flow);
        } else {
            let tail = data.skip(cut);
            assert(f1.1 == rest.push(f1.1.last()));
            assert(f1.1.last().1 == tail);
            assert(f1.1.drop_last() =~= rest);
            assert(carry_at(f1.1, flow) == Some(rest.len() as int));
            a_flush_loses_no_bytes(f1.1, flow, second);
        }
    }
}

proof fn lemma_carry_prefix(v: Seq<CarryV>, flow: Flow, n: int)
    requires
        0 <= n <= v.len(),
        carry_at(v.take(n), flow) is Some,
    ensures
        carry_at(v, flow) is Some,
    decreases v.len() - n,
{
    if n < v.len() {
        assert(v.take(n + 1).drop_last() =~= v.take(n));
        lemma_carry_prefix(v, flow, n + 1);
    } else {
        assert(v.take(n) =~= v);
    }
}


/// Each flow holds at most one carried tail.
pub open spec fn one_tail_per_flow(c: Seq<CarryV>) -> bool {
    forall|i: int, j: int| 0 <= i < j < c.len() ==> (#[trigger] c[i]).0 != (#[trigger] c[j]).0
}

proof fn live_carry_keeps(c: Seq<CarryV>, bufs: Seq<PendingV>)
    requires
        one_tail_per_flow(c),
    ensures
        one_tail_per_flow(live_carry(c, bufs)),
        forall|k: int| 0 <= k < live_carry(c, bufs).len() ==> exists|j: int| 0 <= j < c.len() && c[j] == #[trigger] live_carry(c, bufs)[k],
    decreases c.len(),
{
    if c.len() > 0 {
        let d = c.drop_last();
        assert(one_tail_per_flow(d)) by {
            assert forall|i: int, j: int| 0 <= i < j < d.len() implies (#[trigger] d[i]).0 != (#[trigger] d[j]).0 by {
                assert(d[i] == c[i] && d[j] == c[j]);
            }
        }
        live_carry_keeps(d, bufs);
        let r = live_carry(d, bufs);
        assert forall|k: int| 0 <= k < r.len() implies (#[trigger] r[k]).0 != c.last().0 by {
            let j = choose|j: int| 0 <= j < d.len() && d[j] == r[k];
            assert(c[j] == d[j]);
            assert(c[j].0 != c[c.len() - 1].0);
        }
        let out = live_carry(c, bufs);
        assert forall|k: int| 0 <= k < out.len() implies exists|j: int| 0 <= j < c.len() && c[j] == #[trigger] out[k] by {
            if k < r.len() {
                let j = choose|j: int| 0 <= j < d.len() && d[j] == r[k];
                assert(c[j] == d[j]);
                assert(out[k] == r[k]);
            } else {
                assert(out[k] == c[c.len() - 1]);
            }
        }
        assert forall|i: int, j: int| 0 <= i < j < out.len() implies (#[trigger] out[i]).0 != (#[trigger] out[j]).0 by {
            if j < r.len() {
                assert(out[i] == r[i] && out[j] == r[j]);
            } else {
                assert(out[i] == r[i]);
            }
        }
    }
}

proof fn finished_keeps(c: Seq<CarryV>, flow: Flow, x: Seq<u8>)
    requires
        one_tail_per_flow(c),
    ensures
        one_tail_per_flow(finished(c, flow, x).1),
{
    let found = carry_at(c, flow);
    carry_at_found(c, flow);
    let rest = match found {
        Some(i) => c.remove(i),
        None => c,
    };
    assert forall|k: int| 0 <= k < rest.len() implies (#[trigger] rest[k]).0 != flow by {
        match found {
            Some(i) => {
                if k < i {
                    assert(rest[k] == c[k]);
                } else {
                    assert(rest[k] == c[k + 1]);
                }
            },
            None => {
                if c[k].0 == flow {
                    assert(carry_at(c.take(k + 1), flow) is Some) by {
                        assert(c.take(k + 1).drop_last() =~= c.take(k));
                    }
                    lemma_carry_prefix(c, flow, k + 1);
                }
            },
        }
    }
    assert(one_tail_per_flow(rest)) by {
        assert forall|i: int, j: int| 0 <= i < j < rest.len() implies (#[trigger] rest[i]).0 != (#[trigger] rest[j]).0 by {
            match found {
                Some(m) => {
                    let ii = if i < m { i } else { i + 1 };
                    let jj = if j < m { j } else { j + 1 };
                    assert(rest[i] == c[ii] && rest[j] == c[jj]);
                },
                None => {},
            }
        }
    }
    let f = finished(c, flow, x);
    if f.1 != rest {
        assert forall|i: int, j: int| 0 <= i < j < f.1.len() implies (#[trigger] f.1[i]).0 != (#[trigger] f.1[j]).0 by {
            assert(f.1[i] == rest[i]);
        }
    }
}

/// A flow never holds two tails: a reassembler that holds at most one per
/// flow still does after any payload.
pub proof fn a_flow_holds_one_tail(h: Held, flow: Flow, ack: u32, payload: Seq<u8>, now: u64)
    requires
        one_tail_per_flow(h.carry),
    ensures
        one_tail_per_flow(pushed(h, flow, ack, payload, now).0.carry),
{
    if payload.len() > 0 {
        let e = swept(h, now);
        if !(h.bufs.len() <= 64 && h.acks.len() <= 512 && h.carry.len() <= 512) {
            let b = crate::reassembly::fresh_bufs(h.bufs, now);
            if b.len() <= 512 {
                live_carry_keeps(h.carry, b);
            }
        }
        assert(one_tail_per_flow(e.carry));
        assert forall|x: Seq<u8>| #[trigger] one_tail_per_flow(finished(e.carry, flow, x).1) by {
            finished_keeps(e.carry, flow, x);
        }
    }
}


/// Nor does the idle flush give a flow a second tail.
pub proof fn an_idle_flush_holds_one_tail(bufs: Seq<PendingV>, carry: Seq<CarryV>, now: u64)
    requires
        one_tail_per_flow(carry),
    ensures
        one_tail_per_flow(drained(bufs, carry, now).1),
    decreases bufs.len(),
{
    if bufs.len() > 0 {
        an_idle_flush_holds_one_tail(bufs.drop_last(), carry, now);
        let r = drained(bufs.drop_last(), carry, now);
        finished_keeps(r.1, bufs.last().0, bufs.last().2);
    }
}


/// A reset across a blackout is a reset and the mark that a zone carried over
/// is not yet confirmed: take the mark away and it is a plain reset.
pub proof fn a_blackout_reset_is_a_reset_and_a_stale_mark(a: GameStats, b: GameStats, now: Now)
    ensures
        blackout_post(a, b, now) <==> (reset_post(
            a,
            GameStats { zone: ZoneWatch { stale_zone: false, ..b.zone }, ..b },
            now,
        ) && b.zone.stale_zone == b.zone.satanic is Some),
{
}


/// Two sessions alike but for what decides and remembers alerts: the alert
/// list and the lowest grade that alerts, what was already told and when, the
/// journal, and the revision counters.
pub open spec fn alerts_only_differ(a: GameStats, a2: GameStats) -> bool {
    a2 == (GameStats {
        prefs: Prefs { alerts: a2.prefs.alerts, min_tier: a2.prefs.min_tier, ..a.prefs },
        finds: Finds { told: a2.finds.told, announced_at: a2.finds.announced_at, drops: a2.finds.drops, ..a.finds },
        revision: a2.revision,
        extra_rev: a2.extra_rev,
        ..a
    })
}

/// Two sessions that have counted alike: the same finds by rarity, the same
/// resources, named resources and notable drops, the same grades, and the same
/// gold, experience and kills earned.
pub open spec fn same_counts(b: GameStats, b2: GameStats) -> bool {
    &&& b.finds.items@ == b2.finds.items@
    &&& b.finds.resources@ == b2.finds.resources@
    &&& forall|k: Seq<char>| #[trigger] lookup(b.finds.resource_items@, k) == lookup(b2.finds.resource_items@, k)
    &&& forall|k: Seq<char>| #[trigger] lookup(b.finds.notable@, k) == lookup(b2.finds.notable@, k)
    &&& forall|t: i64| #[trigger] crate::sets::count_of(b.finds.graded@, t) == crate::sets::count_of(b2.finds.graded@, t)
    &&& b.bank.gold_earned == b2.bank.gold_earned
    &&& b.save.xp_earned == b2.save.xp_earned
    &&& b.save.kills_earned == b2.save.kills_earned
}

/// Counting one find is a function of the counts before it: two count
/// tables that agree before the same find agree after it.
proof fn counting_agrees(
    a: crate::stats::Finds,
    a2: crate::stats::Finds,
    b: crate::stats::Finds,
    b2: crate::stats::Finds,
    item_type: i64,
    name: Seq<char>,
    rarity: Seq<char>,
    is_resource: bool,
    tier: i64,
    mf: bool,
    amount: i64,
)
    requires
        a.items == a2.items,
        a.resources == a2.resources,
        a.graded == a2.graded,
        a.resource_items == a2.resource_items,
        b.items@.len() == 10,
        b2.items@.len() == 10,
        b.resources@.len() == 4,
        b2.resources@.len() == 4,
        crate::finds::find_counted(a, b, item_type, name, rarity, is_resource, tier, mf, amount),
        crate::finds::find_counted(a2, b2, item_type, name, rarity, is_resource, tier, mf, amount),
    ensures
        b.items@ == b2.items@,
        b.resources@ == b2.resources@,
        forall|k: i64| #[trigger] crate::sets::count_of(b.graded@, k) == crate::sets::count_of(b2.graded@, k),
        forall|k: Seq<char>| #[trigger] lookup(b.resource_items@, k) == lookup(b2.resource_items@, k),
{
    assert forall|i: int| 0 <= i < 10 implies b.items@[i] == b2.items@[i] by {
        assert(b.items@[i] == b2.items@[i]);
    }
    assert(b.items@ =~= b2.items@);
    assert forall|i: int| 0 <= i < 4 implies b.resources@[i] == b2.resources@[i] by {
        assert(b.resources@[i] == b2.resources@[i]);
    }
    assert(b.resources@ =~= b2.resources@);
    assert forall|k: i64| #[trigger] crate::sets::count_of(b.graded@, k) == crate::sets::count_of(b2.graded@, k) by {
        if k == tier {
        } else {
            assert(crate::sets::count_of(b.graded@, k) == crate::sets::count_of(a.graded@, k));
            assert(crate::sets::count_of(b2.graded@, k) == crate::sets::count_of(a2.graded@, k));
        }
    }
    assert forall|k: Seq<char>| #[trigger] lookup(b.resource_items@, k) == lookup(b2.resource_items@, k) by {
        if crate::stats::is_resource_type(item_type) && !crate::finds::dull_key(name) && name.len() > 0 {
            if k != name {
                assert(lookup(b.resource_items@, k) == lookup(a.resource_items@, k));
                assert(lookup(b2.resource_items@, k) == lookup(a2.resource_items@, k));
            }
        }
    }
}

/// Counting a notable drop is a function of the notable counts before it.
proof fn notables_agree(
    defs: Seq<(String, Vec<String>)>,
    a: Vec<(String, i64)>,
    b: Vec<(String, i64)>,
    b2: Vec<(String, i64)>,
    name: Seq<char>,
    amount: i64,
)
    requires
        crate::finds::notable_counted(defs, a, b, name, amount),
        crate::finds::notable_counted(defs, a, b2, name, amount),
    ensures
        forall|k: Seq<char>| #[trigger] lookup(b@, k) == lookup(b2@, k),
{
    let lower = crate::text::lowercase(name);
    if name.len() > 0 && crate::finds::notable_label(defs, lower) is Some {
        let label = defs[crate::finds::notable_label(defs, lower)->0].0@;
        assert forall|k: Seq<char>| #[trigger] lookup(b@, k) == lookup(b2@, k) by {
            if k != label {
                assert(lookup(b@, k) == lookup(a@, k));
                assert(lookup(b2@, k) == lookup(a@, k));
            }
        }
    }
}

/// A sighted item counts alike in two sessions that differ only in what
/// decides and remembers alerts.
#[verifier::rlimit(100)]
#[verifier::spinoff_prover]
proof fn an_item_counts_alike(
    a: GameStats,
    a2: GameStats,
    b: GameStats,
    b2: GameStats,
    r: Option<crate::stats::DropEntry>,
    r2: Option<crate::stats::DropEntry>,
    rarity: Json,
    unscaled: bool,
    mf: bool,
    tier: i64,
    item_type: i64,
    item_id: i64,
    weapon_type: i64,
    seed: i64,
    name: Seq<char>,
    announced: bool,
    amount: i64,
    fingerprint: Seq<char>,
    hash: Seq<char>,
    ground: bool,
    now: Now,
)
    requires
        shaped(a),
        alerts_only_differ(a, a2),
        item_post(a, b, r, rarity, unscaled, mf, tier, item_type, item_id, weapon_type, seed, name, announced, amount, fingerprint, hash, ground, now),
        item_post(a2, b2, r2, rarity, unscaled, mf, tier, item_type, item_id, weapon_type, seed, name, announced, amount, fingerprint, hash, ground, now),
    ensures
        same_counts(b, b2),
{
    let (s1, sg, s2, go, first) = choose|s1: GameStats, sg: GameStats, s2: GameStats, go: bool, first: bool|
        #[trigger] item_steps(a, s1, sg, s2, b, r, go, first, rarity, unscaled, mf, tier, item_type, item_id, weapon_type, seed, name, announced, amount, fingerprint, hash, ground, now);
    let (t1, tg, t2, go2, first2) = choose|s1: GameStats, sg: GameStats, s2: GameStats, go: bool, first: bool|
        #[trigger] item_steps(a2, s1, sg, s2, b2, r2, go, first, rarity, unscaled, mf, tier, item_type, item_id, weapon_type, seed, name, announced, amount, fingerprint, hash, ground, now);
    assert(a2.finds.items == a.finds.items && a2.finds.seen == a.finds.seen && a2.finds.let_go == a.finds.let_go);
    assert(a2.finds.counted == a.finds.counted && a2.finds.tier_seen == a.finds.tier_seen);
    assert(a2.catalog == a.catalog && a2.account == a.account);
    assert(go == go2);
    if go {
        assert(first == first2);
        assert(sg.finds.items == a.finds.items && tg.finds.items == a.finds.items);
        assert(sg.finds.resources == a.finds.resources && tg.finds.resources == a.finds.resources);
        assert(sg.finds.graded == a.finds.graded && tg.finds.graded == a.finds.graded);
        assert(sg.finds.resource_items == a.finds.resource_items && tg.finds.resource_items == a.finds.resource_items);
        assert(sg.finds.notable == a.finds.notable && tg.finds.notable == a.finds.notable);
        assert(sg.bank == a.bank && tg.bank == a.bank && sg.save == a.save && tg.save == a.save);
        assert(sg.prefs.notable_defs == a.prefs.notable_defs && tg.prefs.notable_defs == a.prefs.notable_defs);
        if !announced && first {
            let kv = crate::apply::known_of(a.catalog, name, unscaled, item_type, item_id, weapon_type);
            let grade = crate::finds::drop_tier(a, name, kv, tier, hash);
            assert(grade == crate::finds::drop_tier(a2, name, kv, tier, hash));
            let rk = crate::parser::resolved_rarity(a.catalog, rarity, name, unscaled, item_type, item_id, weapon_type);
            let res = crate::apply::resource_drop(item_type, name);
            counting_agrees(sg.finds, tg.finds, s2.finds, t2.finds, item_type, name, rk, res, grade, mf, amount);
            notables_agree(a.prefs.notable_defs@, a.finds.notable, s2.finds.notable, t2.finds.notable, name, if amount > 1 {
                amount
            } else {
                1
            });
        } else {
            assert(s2 == sg);
            assert(t2 == tg);
        }
    }
}

/// The alert filter decides what sounds, never what is counted: two sessions
/// that differ only in the alert list and its lowest grade, in what they have
/// already told and when, in their journals and in their revision counters
/// count any event alike.
#[verifier::rlimit(100)]
#[verifier::spinoff_prover]
pub proof fn the_alert_filter_never_changes_counts(
    a: GameStats,
    a2: GameStats,
    b: GameStats,
    b2: GameStats,
    event: crate::parser::GameEvent,
    r: Option<crate::stats::DropEntry>,
    r2: Option<crate::stats::DropEntry>,
    now: Now,
)
    requires
        crate::apply::well_formed(a),
        alerts_only_differ(a, a2),
        crate::apply::applied(a, b, event, r, now),
        crate::apply::applied(a2, b2, event, r2, now),
    ensures
        same_counts(b, b2),
{
    let s = GameStats { revision: crate::stats::bump(a.revision), ..a };
    let s2 = GameStats { revision: crate::stats::bump(a2.revision), ..a2 };
    assert(alerts_only_differ(s, s2));
    match event {
        crate::parser::GameEvent::ItemAdded {
            rarity,
            unscaled,
            mf,
            tier,
            item_type,
            item_id,
            weapon_type,
            seed,
            name,
            announced,
            amount,
            fingerprint,
            hash,
            ground,
        } => {
            an_item_counts_alike(s, s2, b, b2, r, r2, rarity, unscaled, mf, tier, item_type, item_id, weapon_type, seed, name@, announced, amount, fingerprint@, hash@, ground, now);
        },
        crate::parser::GameEvent::Found { finder, name } => {
            assert(s2.character == s.character);
            if s.character is Some && crate::text::trimmed(s.character->0.name@).len() > 0
                && crate::text::eq_ascii_ci(crate::text::trimmed(s.character->0.name@), crate::text::trimmed(finder@)) {
                an_item_counts_alike(s, s2, b, b2, r, r2, Json::Null, false, false, 0, 0, 0, 0, 0, name@, true, 1,
                    "chat:"@ + crate::text::lowercase(name@) + ":"@ + crate::text::decimal_text(now.wall_ms as int),
                    Seq::empty(), false, now);
            }
        },
        crate::parser::GameEvent::Account { .. } => {
        },
        _ => {},
    }
}

/// The pause flag tells the truth: a clock that runs is not held by hand.
pub open spec fn hand_flag_ok(s: GameStats) -> bool {
    s.clock.paused_at is None ==> !s.clock.by_hand
}

/// A fresh session's clock runs and is not held by hand, and the pause
/// button, closing or reopening a run, the idle watch, a sign of progress and
/// a reset (plain or across a blackout) all keep the pause flag true to the
/// clock.
pub proof fn the_hand_flag_stays_true(a: GameStats, b: GameStats, on: bool, now: u64, at: Now)
    ensures
        crate::stats::fresh_session(a, at) ==> hand_flag_ok(a),
        hand_flag_ok(a) && crate::session::paused_post(a, b, on, now) ==> hand_flag_ok(b),
        hand_flag_ok(a) && crate::session::finished_post(a, b, on, now) ==> hand_flag_ok(b),
        hand_flag_ok(a) && crate::session::idle_post(a, b, now) ==> hand_flag_ok(b),
        hand_flag_ok(a) && crate::session::progressed_post(a, b, now) ==> hand_flag_ok(b),
        hand_flag_ok(a) && reset_post(a, b, at) ==> hand_flag_ok(b),
        hand_flag_ok(a) && blackout_post(a, b, at) ==> hand_flag_ok(b),
{
}

/// A pause the idle watch makes is never one by hand, so the next sign of
/// progress lifts it.
pub proof fn an_idle_pause_is_not_by_hand(a: GameStats, b: GameStats, now: u64)
    requires
        hand_flag_ok(a),
        crate::session::idle_post(a, b, now),
        a.clock.paused_at is None,
        b.clock.paused_at is Some,
    ensures
        !b.clock.by_hand,
{
}


/// An event taken by an open session keeps the pause flag true to the clock.
#[verifier::rlimit(100)]
#[verifier::spinoff_prover]
pub proof fn an_event_keeps_the_hand_flag(a: GameStats, b: GameStats, event: crate::parser::GameEvent, r: Option<crate::stats::DropEntry>, now: Now)
    requires
        hand_flag_ok(a),
        crate::apply::applied(a, b, event, r, now),
    ensures
        hand_flag_ok(b),
{
    match event {
        crate::parser::GameEvent::ItemAdded { .. } => {
            assert(hand_flag_ok(b));
        },
        crate::parser::GameEvent::Found { .. } => {
            assert(hand_flag_ok(b));
        },
        crate::parser::GameEvent::Account { .. } => {
            assert(hand_flag_ok(b));
        },
        _ => {
            assert(hand_flag_ok(b));
        },
    }
}

/// A sighted item leaves a clock held by hand held, and credits no room.
#[verifier::rlimit(100)]
#[verifier::spinoff_prover]
proof fn an_item_keeps_a_held_clock(
    a: GameStats,
    b: GameStats,
    r: Option<crate::stats::DropEntry>,
    rarity: Json,
    unscaled: bool,
    mf: bool,
    tier: i64,
    item_type: i64,
    item_id: i64,
    weapon_type: i64,
    seed: i64,
    name: Seq<char>,
    announced: bool,
    amount: i64,
    fingerprint: Seq<char>,
    hash: Seq<char>,
    ground: bool,
    now: Now,
)
    requires
        a.clock.paused_at is Some,
        a.clock.by_hand,
        item_post(a, b, r, rarity, unscaled, mf, tier, item_type, item_id, weapon_type, seed, name, announced, amount, fingerprint, hash, ground, now),
    ensures
        b.place.zone_time == a.place.zone_time,
        b.place.room_since == a.place.room_since,
        b.clock.paused_at == a.clock.paused_at,
{
    let (s1, sg, s2, go, first) = choose|s1: GameStats, sg: GameStats, s2: GameStats, go: bool, first: bool|
        #[trigger] item_steps(a, s1, sg, s2, b, r, go, first, rarity, unscaled, mf, tier, item_type, item_id, weapon_type, seed, name, announced, amount, fingerprint, hash, ground, now);
    assert(s1.place == a.place && s1.clock == a.clock);
    if go {
        assert(sg.place == s1.place && sg.clock == s1.clock);
        assert(b.place == s2.place && b.clock == s2.clock);
    }
}

/// A clock held by hand credits no room: whatever event arrives, the rooms'
/// seconds stay as they were and no room clock starts, so a room visited only
/// while the run is held never shows in it.
#[verifier::rlimit(100)]
#[verifier::spinoff_prover]
pub proof fn a_held_clock_credits_no_room(a: GameStats, b: GameStats, event: crate::parser::GameEvent, r: Option<crate::stats::DropEntry>, now: Now)
    requires
        crate::apply::well_formed(a),
        a.clock.paused_at is Some,
        a.clock.by_hand,
        a.place.room_since is None,
        crate::apply::applied(a, b, event, r, now),
    ensures
        b.place.zone_time@ == a.place.zone_time@,
        b.place.room_since is None,
        b.clock.paused_at == a.clock.paused_at,
{
    let s = GameStats { revision: crate::stats::bump(a.revision), ..a };
    match event {
        crate::parser::GameEvent::ItemAdded {
            rarity,
            unscaled,
            mf,
            tier,
            item_type,
            item_id,
            weapon_type,
            seed,
            name,
            announced,
            amount,
            fingerprint,
            hash,
            ground,
        } => {
            an_item_keeps_a_held_clock(s, b, r, rarity, unscaled, mf, tier, item_type, item_id, weapon_type, seed, name@, announced, amount, fingerprint@, hash@, ground, now);
        },
        crate::parser::GameEvent::Found { finder, name } => {
            if s.character is Some && crate::text::trimmed(s.character->0.name@).len() > 0
                && crate::text::eq_ascii_ci(crate::text::trimmed(s.character->0.name@), crate::text::trimmed(finder@)) {
                an_item_keeps_a_held_clock(s, b, r, Json::Null, false, false, 0, 0, 0, 0, 0, name@, true, 1,
                    "chat:"@ + crate::text::lowercase(name@) + ":"@ + crate::text::decimal_text(now.wall_ms as int),
                    Seq::empty(), false, now);
            }
        },
        crate::parser::GameEvent::Account {
            experience,
            has_experience,
            season,
            hardcore,
            blood_pact,
            name,
            level,
            herolevel,
            difficulty,
            hell_sub,
            act,
            kills,
            tallies,
        } => {
            let (s1, s2, s3, s4, s5, s6) = choose|s1: GameStats, s2: GameStats, s3: GameStats, s4: GameStats, s5: GameStats, s6: GameStats|
                #[trigger] crate::apply::account_steps(s, s1, s2, s3, s4, s5, s6, b, experience, has_experience, season, hardcore, blood_pact, name, level, herolevel, difficulty, hell_sub, act, kills, tallies, now.mono);
            assert(s1.place == s.place && s1.clock == s.clock);
            assert(s2.place.zone_time == s1.place.zone_time && s2.place.room_since == s1.place.room_since);
            assert(s2.clock.paused_at == s1.clock.paused_at && s2.clock.by_hand == s1.clock.by_hand);
            assert(s3.place.zone_time == s2.place.zone_time && s3.place.room_since == s2.place.room_since);
            assert(s3.clock.paused_at == s2.clock.paused_at && s3.clock.by_hand == s2.clock.by_hand);
            assert(s4.place.zone_time == s3.place.zone_time && s4.place.room_since == s3.place.room_since);
            assert(s4.clock.paused_at == s3.clock.paused_at && s4.clock.by_hand == s3.clock.by_hand);
            assert(crate::session::room_secs(s4.place, now.mono) == 0);
            assert(s5.place.zone_time@ == s4.place.zone_time@ && s5.place.room_since is None);
            assert(s5.clock == s4.clock);
            assert(s6.place.zone_time == s5.place.zone_time && s6.place.room_since == s5.place.room_since);
            assert(s6.clock.paused_at == s5.clock.paused_at && s6.clock.by_hand == s5.clock.by_hand);
        },
        _ => {},
    }
}

/// A per-hour rate is the value scaled to one hour of the seconds it took,
/// rounded toward zero and held within `i64`: for a value `v >= 0` over
/// `secs > 0` seconds, the rate `r` has `r * secs <= v * 3600`, and short of
/// the top `v * 3600 < (r + 1) * secs`; a loss runs the same way below zero.
pub proof fn a_rate_is_the_value_over_an_hour(v: i64, secs: u64)
    requires
        secs > 0,
    ensures
        v >= 0 ==> crate::report::hourly(v, secs) * secs <= v * 3600,
        v >= 0 && crate::report::hourly(v, secs) < i64::MAX ==> v * 3600 < (crate::report::hourly(v, secs) + 1) * secs,
        v < 0 ==> crate::report::hourly(v, secs) * secs >= v * 3600,
        v < 0 && crate::report::hourly(v, secs) > i64::MIN ==> v * 3600 > (crate::report::hourly(v, secs) - 1) * secs,
{
    let s = secs as int;
    if v >= 0 {
        let q = (v * 3600) / s;
        assert(q * s <= v * 3600 < (q + 1) * s) by (nonlinear_arith)
            requires
                q == (v * 3600) / s,
                s > 0,
                v >= 0,
        ;
        assert(q >= 0) by (nonlinear_arith)
            requires
                q == (v * 3600) / s,
                s > 0,
                v >= 0,
        ;
        let r = crate::report::hourly(v, secs) as int;
        if q > i64::MAX {
            assert(r == i64::MAX);
            assert(r * s <= q * s) by (nonlinear_arith)
                requires
                    r <= q,
                    s > 0,
            ;
        }
    } else {
        let q = (-v * 3600) / s;
        assert(q * s <= -v * 3600 < (q + 1) * s) by (nonlinear_arith)
            requires
                q == (-v * 3600) / s,
                s > 0,
                v < 0,
        ;
        assert(q >= 0) by (nonlinear_arith)
            requires
                q == (-v * 3600) / s,
                s > 0,
                v < 0,
        ;
        let r = crate::report::hourly(v, secs) as int;
        if -q < i64::MIN {
            assert(r == i64::MIN);
            assert(r * s >= -q * s) by (nonlinear_arith)
                requires
                    r >= -q,
                    s > 0,
            ;
        }
        assert((-q) * s == -(q * s)) by (nonlinear_arith);
        assert((-q - 1) * s == -((q + 1) * s)) by (nonlinear_arith);
    }
}

/// Pausing by hand and resuming adds no active time: while held, active time
/// stands still at what it was at the pause; active time read just after the
/// resume equals it; and at any later moment it is the time since the start
/// less everything paused, this pause included.
pub proof fn a_pause_adds_no_active_time(a: GameStats, m: GameStats, b: GameStats, t1: u64, mid: u64, t2: u64, now: u64)
    requires
        !a.finished,
        a.clock.paused_at is None,
        crate::session::paused_post(a, m, true, t1),
        crate::session::paused_post(m, b, false, t2),
        a.clock.start <= t1 <= mid <= t2 <= now,
        a.clock.paused_total <= t1 - a.clock.start,
    ensures
        crate::session::active_ns(m.clock, mid) == crate::session::active_ns(a.clock, t1),
        crate::session::active_ns(b.clock, t2) == crate::session::active_ns(a.clock, t1),
        crate::session::active_ns(b.clock, now) == (now - a.clock.start) - a.clock.paused_total - (t2 - t1),
        crate::session::active_ns(a.clock, t1) == (t1 - a.clock.start) - a.clock.paused_total,
{
    assert(m.clock.paused_at == Some(t1));
    assert(m.clock.paused_total == a.clock.paused_total && m.clock.start == a.clock.start);
    assert(b.clock.paused_at is None);
    assert(b.clock.paused_total == a.clock.paused_total + (t2 - t1));
}

/// The difficulties are named from the fixed table, Normal, Nightmare, Hell
/// and Inferno for 0 to 3, no two alike, and nothing else has a name.
pub proof fn each_difficulty_has_its_own_name(d: int, e: int)
    ensures
        crate::presence::difficulty_name(0) == Some("Normal"@),
        crate::presence::difficulty_name(1) == Some("Nightmare"@),
        crate::presence::difficulty_name(2) == Some("Hell"@),
        crate::presence::difficulty_name(3) == Some("Inferno"@),
        crate::presence::difficulty_name(d) is Some <==> 0 <= d <= 3,
        0 <= d <= 3 && 0 <= e <= 3 && d != e ==> crate::presence::difficulty_name(d) != crate::presence::difficulty_name(e),
{
    reveal_strlit("Normal");
    reveal_strlit("Nightmare");
    reveal_strlit("Hell");
    reveal_strlit("Inferno");
    assert("Normal"@.len() == 6 && "Nightmare"@.len() == 9 && "Hell"@.len() == 4 && "Inferno"@.len() == 7);
}

/// A finished run records what the session earned, as the panel shows it:
/// its gold, experience and kills are the snapshot's earned figures, not the
/// balances behind them.
pub proof fn a_run_records_what_was_earned(
    a: GameStats,
    b: GameStats,
    run: crate::stats::Run,
    now: Now,
    snap: crate::stats::Snapshot,
    status: Seq<char>,
    later: u64,
)
    requires
        crate::report::finished_run(a, b, Some(run), now),
        crate::report::snapshot_of(b, snap, status, later),
    ensures
        run.gold == snap.gold.earned,
        run.xp == snap.xp.earned,
        run.kills == snap.kills.earned,
        run.gold == a.bank.gold_earned,
        run.xp == a.save.xp_earned,
        run.kills == a.save.kills_earned,
{
}

/// The resource counters follow the game's item types: a counted find of
/// type 12, 13, 14 or 15 raises the counter labelled keys, collectibles,
/// materials or socketables respectively, and leaves the others as they were.
pub proof fn resource_counters_follow_item_types(
    a: Finds,
    b: Finds,
    item_type: i64,
    name: Seq<char>,
    rarity: Seq<char>,
    is_resource: bool,
    tier: i64,
    mf: bool,
    amount: i64,
    i: int,
)
    requires
        crate::finds::find_counted(a, b, item_type, name, rarity, is_resource, tier, mf, amount),
        12 <= item_type <= 15,
        !crate::finds::dull_key(name),
        0 <= i < 4,
    ensures
        ({
            let label = if item_type == 12 {
                "keys"@
            } else if item_type == 13 {
                "collectibles"@
            } else if item_type == 14 {
                "materials"@
            } else {
                "socketables"@
            };
            let n: i64 = if amount > 1 { amount } else { 1 };
            &&& crate::stats::kind_name((item_type - 12) as usize) == label
            &&& crate::stats::resource_kinds()[i] == label ==> b.resources@[i] == crate::json::clamp_i64(a.resources@[i] + n)
            &&& crate::stats::resource_kinds()[i] != label ==> b.resources@[i] == a.resources@[i]
        }),
{
    reveal_strlit("keys");
    reveal_strlit("collectibles");
    reveal_strlit("materials");
    reveal_strlit("socketables");
    assert("keys"@.len() == 4 && "collectibles"@.len() == 12 && "materials"@.len() == 9 && "socketables"@.len() == 11);
}

} // verus!

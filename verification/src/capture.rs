//! The messages in a stretch of captured bytes: every JSON value that closes
//! in it, and, segment by segment between the control bytes that frame them,
//! a base64 blob holding JSON or a query string.

use vstd::prelude::*;

use crate::json::Json;
use crate::messages::decoded_json;
use crate::parser::{json_end, value_end, MAX_SPAN};
use crate::sets::{find_key, first_key};
use crate::text::{chars_of, contains_text, copy_str, is_alnum, occurs_at, string_of_range, trimmed};
use crate::wire::{pairs_view, parse_bytes, parsed_bytes, parsed_text, url_decode, url_pairs, utf8_lossy, lossy_text};
use crate::messages::b64_json;
use crate::fields::coerce;

verus! {

/// How many times its own length one scan over a buffer may read.
pub const SCAN_BUDGET: usize = 8;

/// A message the capture keeps out: the game's charm inventory, and anything
/// the Steam overlay says.
pub open spec fn excluded(v: Json) -> bool {
    match v {
        Json::Object(ms) => first_key(ms@, "inventory_charms"@) is Some || first_key(ms@, "steam"@) is Some,
        _ => false,
    }
}

pub open spec fn is_opener(c: u8) -> bool {
    c == 0x7b || c == 0x5b
}

/// What the scan for `start`'s value read.
pub open spec fn walked_from(b: Seq<u8>, start: int) -> int {
    let w = value_end(b, start).1 - start;
    if w > usize::MAX {
        usize::MAX as int
    } else {
        w
    }
}

/// The JSON values in `b` from `i` on, left to right: at each opener, the
/// value that closes there and parses, which the scan then steps past;
/// otherwise the next byte. The scan stops at an opener once it has read its
/// budget.
pub open spec fn values_from(b: Seq<u8>, i: int, budget: int) -> Seq<Json>
    decreases b.len() - i,
{
    if i < 0 || i >= b.len() {
        Seq::empty()
    } else if !is_opener(b[i]) {
        values_from(b, i + 1, budget)
    } else if budget == 0 {
        Seq::empty()
    } else {
        let left = if budget > walked_from(b, i) {
            budget - walked_from(b, i)
        } else {
            0
        };
        match value_end(b, i).0 {
            Some(e) => if i < e < b.len() && parsed_bytes(b.subrange(i, e + 1)) is Some {
                let v = parsed_bytes(b.subrange(i, e + 1))->0;
                (if excluded(v) {
                    Seq::empty()
                } else {
                    seq![v]
                }) + values_from(b, e + 1, left)
            } else {
                values_from(b, i + 1, left)
            },
            None => values_from(b, i + 1, left),
        }
    }
}

/// The budget a buffer's scan starts with.
pub open spec fn first_budget(len: int) -> int {
    let m = if len * SCAN_BUDGET > usize::MAX {
        usize::MAX as int
    } else {
        len * SCAN_BUDGET
    };
    if m + MAX_SPAN > usize::MAX {
        usize::MAX as int
    } else {
        m + MAX_SPAN
    }
}

fn bytes_range(b: &[u8], lo: usize, hi: usize) -> (r: Vec<u8>)
    requires
        lo <= hi <= b@.len(),
    ensures
        r@ == b@.subrange(lo as int, hi as int),
{
    let mut r: Vec<u8> = Vec::new();
    let mut k: usize = lo;
    while k < hi
        invariant
            lo <= k <= hi <= b@.len(),
            r@ == b@.subrange(lo as int, k as int),
        decreases hi - k,
    {
        r.push(b[k]);
        k = k + 1;
    }
    r
}

fn is_excluded(v: &Json) -> (r: bool)
    ensures
        r == excluded(*v),
{
    match v {
        Json::Object(ms) => find_key(ms, "inventory_charms").is_some() || find_key(ms, "steam").is_some(),
        _ => false,
    }
}

/// Every JSON value that closes in a buffer, with a bound on how much the
/// scan reads, so that a buffer of openers that lead nowhere cannot stall it.
pub fn extract_json_values(bytes: &[u8]) -> (r: Vec<Json>)
    ensures
        r@ == values_from(bytes@, 0, first_budget(bytes@.len() as int)),
{
    let mut out: Vec<Json> = Vec::new();
    let mut i: usize = 0;
    let n = bytes.len();
    let scaled: usize = if n > usize::MAX / SCAN_BUDGET {
        usize::MAX
    } else {
        n * SCAN_BUDGET
    };
    let mut budget: usize = scaled.saturating_add(MAX_SPAN);
    let ghost goal = values_from(bytes@, 0, first_budget(bytes@.len() as int));
    assert(out@ + values_from(bytes@, i as int, budget as int) == goal);
    while i < bytes.len()
        invariant
            i <= bytes@.len(),
            goal == values_from(bytes@, 0, first_budget(bytes@.len() as int)),
            out@ + values_from(bytes@, i as int, budget as int) == goal,
        decreases bytes@.len() - i,
    {
        let c = bytes[i];
        if c == 0x7b || c == 0x5b {
            if budget == 0 {
                assert(values_from(bytes@, i as int, budget as int) =~= Seq::<Json>::empty());
                assert(out@ =~= goal);
                return out;
            }
            let mut walked: usize = 0;
            let end = json_end(bytes, i, &mut walked);
            assert(walked as int == walked_from(bytes@, i as int));
            let ghost before = budget;
            budget = budget.saturating_sub(walked);
            if let Some(e) = end {
                let piece = bytes_range(bytes, i, e + 1);
                if let Some(v) = parse_bytes(piece.as_slice()) {
                    let ghost rest = values_from(bytes@, e + 1, budget as int);
                    let ex = is_excluded(&v);
                    if !ex {
                        out.push(v);
                    }
                    proof {
                        assert(values_from(bytes@, i as int, before as int) == (if excluded(v) {
                            Seq::<Json>::empty()
                        } else {
                            seq![v]
                        }) + rest);
                    }
                    assert(out@ + rest =~= goal);
                    i = e + 1;
                    continue;
                }
            }
        }
        i = i + 1;
    }
    assert(values_from(bytes@, i as int, budget as int) =~= Seq::<Json>::empty());
    assert(out@ =~= goal);
    out
}

// ---------------------------------------------------------------------------
// Text segments
// ---------------------------------------------------------------------------

/// Where `needle` first stands in `hay`, from `i` on.
pub open spec fn first_from(hay: Seq<char>, needle: Seq<char>, i: int) -> Option<int>
    decreases hay.len() + 1 - i,
{
    if i < 0 || i > hay.len() {
        None
    } else if occurs_at(hay, needle, i) {
        Some(i)
    } else {
        first_from(hay, needle, i + 1)
    }
}

fn first_at(hay: &Vec<char>, needle: &Vec<char>) -> (r: Option<usize>)
    requires
        needle@.len() > 0,
    ensures
        match r {
            Some(i) => first_from(hay@, needle@, 0) == Some(i as int) && i + needle@.len() <= hay@.len(),
            None => first_from(hay@, needle@, 0) is None,
        },
{
    let mut k: usize = 0;
    while k < hay.len()
        invariant
            k <= hay@.len(),
            needle@.len() > 0,
            first_from(hay@, needle@, 0) == first_from(hay@, needle@, k as int),
        decreases hay@.len() - k,
    {
        if crate::text::matches_at(hay.as_slice(), needle.as_slice(), k) {
            return Some(k);
        }
        k = k + 1;
    }
    assert(!occurs_at(hay@, needle@, k as int));
    assert(first_from(hay@, needle@, k + 1) is None);
    None
}

/// A blob's JSON: what follows an `[INV]` marker, else the whole of it where
/// it is no query string.
pub open spec fn base64_payload(s: Seq<char>) -> Option<Json> {
    match first_from(s, "[INV]"@, 0) {
        Some(k) => decoded_json(s.skip(k + 5)),
        None => if contains_text(s, seq!['&']) {
            None
        } else {
            decoded_json(s)
        },
    }
}

fn blob_payload(s: &str) -> (r: Option<Json>)
    ensures
        r == base64_payload(s@),
{
    let v = chars_of(s);
    let marker = chars_of("[INV]");
    proof {
        reveal_strlit("[INV]");
    }
    match first_at(&v, &marker) {
        Some(k) => {
            let rest = string_of_range(v.as_slice(), k + 5, v.len());
            assert(rest@ == s@.skip(k + 5));
            b64_json(rest.as_str())
        },
        None => {
            if crate::text::contains_char(v.as_slice(), '&') {
                None
            } else {
                b64_json(s)
            }
        },
    }
}

/// Where a query string's first name starts: the first letter, digit or `_`.
pub open spec fn word_from(s: Seq<char>, i: int) -> Option<int>
    decreases s.len() - i,
{
    if i < 0 || i >= s.len() {
        None
    } else if is_alnum(s[i]) || s[i] == '_' {
        Some(i)
    } else {
        word_from(s, i + 1)
    }
}

fn word_char(c: char) -> (r: bool)
    ensures
        r == (is_alnum(c) || c == '_'),
{
    ('0' <= c && c <= '9') || ('a' <= c && c <= 'z') || ('A' <= c && c <= 'Z') || c == '_'
}

/// Where an entry with this name stands.
pub open spec fn entry_at(es: Seq<(Seq<char>, Seq<char>)>, k: Seq<char>, i: int) -> Option<int>
    decreases es.len() - i,
{
    if i < 0 || i >= es.len() {
        None
    } else if es[i].0 == k {
        Some(i)
    } else {
        entry_at(es, k, i + 1)
    }
}

/// A query's fields, gathered as a map gathers them: a later value for a
/// name replaces the earlier one where it stood; a name that is empty is
/// left out.
pub open spec fn query_entries(pairs: Seq<(Seq<char>, Seq<char>)>) -> Seq<(Seq<char>, Seq<char>)>
    decreases pairs.len(),
{
    if pairs.len() == 0 {
        Seq::empty()
    } else {
        let es = query_entries(pairs.drop_last());
        let (k, v) = pairs.last();
        if k.len() == 0 {
            es
        } else {
            match entry_at(es, k, 0) {
                Some(i) => es.update(i, (k, v)),
                None => es.push((k, v)),
            }
        }
    }
}

/// The fields of a query string, where it is one and has any.
pub open spec fn query_fields(s: Seq<char>) -> Option<Seq<(Seq<char>, Seq<char>)>> {
    if !(contains_text(s, seq!['=']) && contains_text(s, seq!['&'])) {
        None
    } else {
        match word_from(s, 0) {
            Some(start) => {
                let es = query_entries(url_pairs(s.skip(start)));
                if es.len() > 0 {
                    Some(es)
                } else {
                    None
                }
            },
            None => None,
        }
    }
}

/// A query value: JSON where the text holds an object or an array, else the
/// text.
pub open spec fn query_value_ok(v: Json, text: Seq<char>) -> bool {
    let t = trimmed(text);
    if t.len() > 0 && (t[0] == '{' || t[0] == '[') && parsed_text(t) is Some {
        v == parsed_text(t)->0
    } else {
        v is Str && v->Str_0@ == text
    }
}

pub open spec fn members_ok(ms: Seq<(String, Json)>, es: Seq<(Seq<char>, Seq<char>)>) -> bool {
    &&& ms.len() == es.len()
    &&& forall|i: int| 0 <= i < ms.len() ==> (#[trigger] ms[i]).0@ == es[i].0 && query_value_ok(ms[i].1, es[i].1)
}

/// A query string's message: an object of its fields.
pub open spec fn query_ok(j: Json, s: Seq<char>) -> bool {
    match query_fields(s) {
        Some(es) => j matches Json::Object(ms) && members_ok(ms@, es),
        None => false,
    }
}

fn query_value(v: String) -> (r: Json)
    ensures
        query_value_ok(r, v@),
{
    let j = Json::Str(v);
    let c = crate::fields::coerce(&j);
    match c {
        crate::fields::Found::Parsed(p) => p,
        crate::fields::Found::At(_) => j,
    }
}

proof fn lemma_entry_at_keys(es: Seq<(Seq<char>, Seq<char>)>, ms: Seq<(String, Json)>, k: Seq<char>, i: int)
    requires
        ms.len() == es.len(),
        forall|j: int| 0 <= j < ms.len() ==> (#[trigger] ms[j]).0@ == es[j].0,
        0 <= i <= es.len(),
    ensures
        entry_at(es, k, i) == match crate::sets::first_key(ms.skip(i), k) {
            Some(x) => Some(x + i),
            None => None,
        },
    decreases es.len() - i,
{
    crate::sets::lemma_first_key_props(ms.skip(i), k);
    if i < es.len() {
        lemma_entry_at_keys(es, ms, k, i + 1);
        crate::sets::lemma_first_key_props(ms.skip(i + 1), k);
        if ms[i].0@ == k {
            assert(ms.skip(i)[0].0@ == k);
            crate::sets::lemma_first_key(ms.skip(i), k, 0);
        } else {
            match crate::sets::first_key(ms.skip(i + 1), k) {
                Some(x) => {
                    assert forall|j: int| 0 <= j < x + 1 implies (#[trigger] ms.skip(i)[j]).0@ != k by {
                        if j > 0 {
                            assert(ms.skip(i)[j] == ms.skip(i + 1)[j - 1]);
                        }
                    }
                    assert(ms.skip(i)[x + 1] == ms.skip(i + 1)[x]);
                    crate::sets::lemma_first_key(ms.skip(i), k, x + 1);
                },
                None => {
                    assert forall|j: int| 0 <= j < ms.skip(i).len() implies (#[trigger] ms.skip(i)[j]).0@ != k by {
                        if j > 0 {
                            assert(ms.skip(i)[j] == ms.skip(i + 1)[j - 1]);
                        }
                    }
                },
            }
        }
    } else {
        assert(ms.skip(i).len() == 0);
    }
}

/// A query string's message, where it carries any fields.
pub fn query_payload(s: &str) -> (r: Option<Json>)
    ensures
        match r {
            Some(j) => query_ok(j, s@),
            None => query_fields(s@) is None,
        },
{
    let v = chars_of(s);
    if !(crate::text::contains_char(v.as_slice(), '=') && crate::text::contains_char(v.as_slice(), '&')) {
        return None;
    }
    let mut start: usize = 0;
    while start < v.len() && !(word_char(v[start]))
        invariant
            start <= v@.len(),
            word_from(v@, 0) == word_from(v@, start as int),
        decreases v@.len() - start,
    {
        start = start + 1;
    }
    if start >= v.len() {
        return None;
    }
    let tail = string_of_range(v.as_slice(), start, v.len());
    assert(tail@ == s@.skip(start as int));
    let pairs = url_decode(tail.as_str());
    let ghost pv = pairs_view(pairs@);
    let mut members: Vec<(String, Json)> = Vec::new();
    let mut pairs = pairs;
    let mut i: usize = 0;
    let n = pairs.len();
    assert(members_ok(members@, query_entries(pv.take(0))));
    while i < n
        invariant
            n == pairs@.len(),
            i <= n,
            pv == pairs_view(pairs@),
            members_ok(members@, query_entries(pv.take(i as int))),
        decreases n - i,
    {
        proof {
            assert(pv.take(i + 1).drop_last() == pv.take(i as int));
            assert(pv.take(i + 1).last() == pv[i as int]);
        }
        let key = copy_str(pairs[i].0.as_str());
        let val = copy_str(pairs[i].1.as_str());
        assert(key@ == pv[i as int].0 && val@ == pv[i as int].1);
        if !key.as_str().is_empty() {
            let ghost es = query_entries(pv.take(i as int));
            let value = query_value(val);
            proof {
                lemma_entry_at_keys(es, members@, key@, 0);
                assert(members@.skip(0) == members@);
            }
            match find_key(&members, key.as_str()) {
                Some(at) => {
                    let ghost was = members@;
                    members.set(at, (key, value));
                    assert(members_ok(members@, es.update(at as int, (pv[i as int].0, pv[i as int].1)))) by {
                        assert forall|j: int| 0 <= j < members@.len() implies (#[trigger] members@[j]).0@
                            == es.update(at as int, (pv[i as int].0, pv[i as int].1))[j].0 && query_value_ok(
                            members@[j].1,
                            es.update(at as int, (pv[i as int].0, pv[i as int].1))[j].1,
                        ) by {
                            if j != at {
                                assert(members@[j] == was[j]);
                            }
                        }
                    }
                },
                None => {
                    let ghost was = members@;
                    members.push((key, value));
                    assert(members_ok(members@, es.push((pv[i as int].0, pv[i as int].1)))) by {
                        assert forall|j: int| 0 <= j < members@.len() implies (#[trigger] members@[j]).0@
                            == es.push((pv[i as int].0, pv[i as int].1))[j].0 && query_value_ok(
                            members@[j].1,
                            es.push((pv[i as int].0, pv[i as int].1))[j].1,
                        ) by {
                            if j < was.len() {
                                assert(members@[j] == was[j]);
                            }
                        }
                    }
                },
            }
        }
        i = i + 1;
    }
    assert(pv.take(n as int) == pv);
    if members.len() == 0 {
        return None;
    }
    Some(Json::Object(members))
}

// ---------------------------------------------------------------------------
// Segments
// ---------------------------------------------------------------------------

/// A control byte: what frames the text segments of a capture.
pub open spec fn is_frame_byte(c: u8) -> bool {
    c < 0x20 || c == 0x7f
}

pub open spec fn has_byte(b: Seq<u8>, c: u8) -> bool {
    exists|i: int| 0 <= i < b.len() && b[i] == c
}

/// What one segment gives: a message that decodes to exactly this value, or
/// the message of a query string, which `query_ok` pins down.
pub enum Slot {
    Exact(Json),
    Query(Seq<char>),
}

pub open spec fn slot_ok(j: Json, slot: Slot) -> bool {
    match slot {
        Slot::Exact(x) => j == x,
        Slot::Query(text) => query_ok(j, text),
    }
}

pub open spec fn slots_ok(js: Seq<Json>, ss: Seq<Slot>) -> bool {
    &&& js.len() == ss.len()
    &&& forall|i: int| 0 <= i < js.len() ==> slot_ok(#[trigger] js[i], ss[i])
}

/// One segment's messages: a blob longer than a hundred bytes is read as
/// base64, and a segment with both `=` and `&` as a query string.
pub open spec fn segment_slots(seg: Seq<u8>) -> Seq<Slot> {
    let text = lossy_text(seg);
    let blob = if seg.len() > 100 {
        match base64_payload(text) {
            Some(j) => seq![Slot::Exact(j)],
            None => Seq::empty(),
        }
    } else {
        Seq::empty()
    };
    let query = if has_byte(seg, 0x3d) && has_byte(seg, 0x26) && query_fields(text) is Some {
        seq![Slot::Query(text)]
    } else {
        Seq::empty()
    };
    blob + query
}

/// The segments' messages from byte `i` on, the current segment having
/// started at `lo`.
pub open spec fn slots_from(b: Seq<u8>, lo: int, i: int) -> Seq<Slot>
    decreases b.len() - i,
{
    if i < 0 || lo < 0 || lo > i || i >= b.len() {
        if 0 <= lo <= b.len() {
            segment_slots(b.subrange(lo, b.len() as int))
        } else {
            Seq::empty()
        }
    } else if is_frame_byte(b[i]) {
        segment_slots(b.subrange(lo, i)) + slots_from(b, i + 1, i + 1)
    } else {
        slots_from(b, lo, i + 1)
    }
}

fn contains_byte(b: &[u8], c: u8) -> (r: bool)
    ensures
        r == has_byte(b@, c),
{
    let mut i: usize = 0;
    while i < b.len()
        invariant
            i <= b@.len(),
            forall|j: int| 0 <= j < i ==> b@[j] != c,
        decreases b@.len() - i,
    {
        if b[i] == c {
            return true;
        }
        i = i + 1;
    }
    false
}

/// One segment's messages, pushed onto `out`.
fn read_segment(seg: &[u8], out: &mut Vec<Json>)
    ensures
        final(out)@.len() == old(out)@.len() + segment_slots(seg@).len(),
        final(out)@.take(old(out)@.len() as int) == old(out)@,
        slots_ok(final(out)@.skip(old(out)@.len() as int), segment_slots(seg@)),
{
    let ghost before = out@;
    let blob = seg.len() > 100;
    let query = contains_byte(seg, 0x3d) && contains_byte(seg, 0x26);
    let ghost slots = segment_slots(seg@);
    if !blob && !query {
        assert(out@.skip(before.len() as int) =~= Seq::<Json>::empty());
        assert(out@.take(before.len() as int) =~= before);
        return;
    }
    let text = utf8_lossy(seg);
    if blob {
        if let Some(j) = blob_payload(text.as_str()) {
            out.push(j);
        }
    }
    let ghost mid = out@;
    if query {
        if let Some(j) = query_payload(text.as_str()) {
            out.push(j);
        }
    }
    proof {
        assert(out@.take(before.len() as int) =~= before);
        let got = out@.skip(before.len() as int);
        assert(got.len() == slots.len());
        assert forall|i: int| 0 <= i < got.len() implies slot_ok(#[trigger] got[i], slots[i]) by {
            if mid.len() > before.len() && i == 0 {
                assert(got[0] == mid[before.len() as int]);
            } else {
                assert(got[i] == out@[before.len() + i]);
            }
        }
    }
}

/// Every message in a stretch of captured bytes: first each JSON value that
/// closes in it, then, segment by segment, what a base64 blob or a query
/// string holds.
pub fn extract_messages(buf: &[u8]) -> (r: Vec<Json>)
    ensures
        ({
            let values = values_from(buf@, 0, first_budget(buf@.len() as int));
            &&& r@.take(values.len() as int) == values
            &&& slots_ok(r@.skip(values.len() as int), slots_from(buf@, 0, 0))
        }),
{
    let mut out = extract_json_values(buf);
    let ghost values = out@;
    let mut lo: usize = 0;
    let mut i: usize = 0;
    let ghost all = slots_from(buf@, 0, 0);
    assert(out@.skip(values.len() as int) =~= Seq::<Json>::empty());
    assert(all == Seq::<Slot>::empty() + slots_from(buf@, lo as int, i as int));
    assert(slots_ok(out@.skip(values.len() as int), Seq::<Slot>::empty()));
    while i < buf.len()
        invariant
            lo <= i <= buf@.len(),
            values.len() <= out@.len(),
            out@.take(values.len() as int) == values,
            ({
                let done = out@.skip(values.len() as int);
                exists|ds: Seq<Slot>| slots_ok(done, ds) && all == ds + slots_from(buf@, lo as int, i as int)
            }),
        decreases buf@.len() - i,
    {
        if buf[i] < 0x20 || buf[i] == 0x7f {
            let ghost ds = choose|ds: Seq<Slot>| slots_ok(out@.skip(values.len() as int), ds) && all == ds
                + slots_from(buf@, lo as int, i as int);
            let ghost was = out@;
            let seg = bytes_range(buf, lo, i);
            read_segment(seg.as_slice(), &mut out);
            proof {
                let added = segment_slots(buf@.subrange(lo as int, i as int));
                let nds = ds + added;
                assert(all == nds + slots_from(buf@, i + 1, i + 1));
                let done = out@.skip(values.len() as int);
                assert(out@.take(values.len() as int) =~= values) by {
                    assert(out@.take(was.len() as int) == was);
                    assert forall|k: int| 0 <= k < values.len() implies out@[k] == values[k] by {
                        assert(out@.take(was.len() as int)[k] == out@[k]);
                        assert(was.take(values.len() as int)[k] == was[k]);
                    }
                }
                assert(slots_ok(done, nds)) by {
                    let old_done = was.skip(values.len() as int);
                    let new_part = out@.skip(was.len() as int);
                    assert(done.len() == nds.len());
                    assert forall|k: int| 0 <= k < done.len() implies slot_ok(#[trigger] done[k], nds[k]) by {
                        if k < ds.len() {
                            assert(out@.take(was.len() as int)[values.len() + k] == out@[values.len() + k]);
                            assert(done[k] == old_done[k]);
                        } else {
                            assert(done[k] == new_part[k - ds.len()]);
                        }
                    }
                }
            }
            lo = i + 1;
        }
        i = i + 1;
    }
    let ghost ds = choose|ds: Seq<Slot>| slots_ok(out@.skip(values.len() as int), ds) && all == ds
        + slots_from(buf@, lo as int, i as int);
    let ghost was = out@;
    let seg = bytes_range(buf, lo, buf.len());
    read_segment(seg.as_slice(), &mut out);
    proof {
        let added = segment_slots(buf@.subrange(lo as int, buf@.len() as int));
        let nds = ds + added;
        assert(all == nds);
        let done = out@.skip(values.len() as int);
        assert(out@.take(values.len() as int) =~= values) by {
            assert forall|k: int| 0 <= k < values.len() implies out@[k] == values[k] by {
                assert(out@.take(was.len() as int)[k] == out@[k]);
                assert(was.take(values.len() as int)[k] == was[k]);
            }
        }
        assert(slots_ok(done, nds)) by {
            let old_done = was.skip(values.len() as int);
            let new_part = out@.skip(was.len() as int);
            assert(done.len() == nds.len());
            assert forall|k: int| 0 <= k < done.len() implies slot_ok(#[trigger] done[k], nds[k]) by {
                if k < ds.len() {
                    assert(out@.take(was.len() as int)[values.len() + k] == out@[values.len() + k]);
                    assert(done[k] == old_done[k]);
                } else {
                    assert(done[k] == new_part[k - ds.len()]);
                }
            }
        }
    }
    out
}

} // verus!

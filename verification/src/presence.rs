//! What the run looks like from the outside: the lines of the status another
//! program shows for the session.

use vstd::prelude::*;
use crate::catalog::Catalog;
use crate::finds::opt_view;
use crate::sets::{find_key, lookup};
use crate::stats::{CharacterInfo, ItemStats, Snapshot};
use crate::text::{decimal, decimal_text};
use crate::text::{
    chars_of, copy_str, decimal_u64, digits_of, eq_ascii_ci, eq_ignore_ascii_case, parse_int_in, parse_u32,
    push_char, string_of,
};

verus! {

/// The first `_` at or after `from`.
pub open spec fn under_from(s: Seq<char>, from: int) -> Option<int>
    decreases s.len() - from,
{
    if from < 0 || from >= s.len() {
        None
    } else if s[from] == '_' {
        Some(from)
    } else {
        under_from(s, from + 1)
    }
}

fn find_under(v: &[char], from: usize) -> (r: Option<usize>)
    requires
        from <= v@.len(),
    ensures
        match r {
            Some(i) => under_from(v@, from as int) == Some(i as int) && from <= i < v@.len(),
            None => under_from(v@, from as int) is None,
        },
    decreases v@.len() - from,
{
    if from >= v.len() {
        return None;
    }
    if v[from] == '_' {
        return Some(from);
    }
    find_under(v, from + 1)
}

pub open spec fn as_u32(s: Seq<char>) -> Option<int> {
    parse_int_in(s, false, 0, u32::MAX as int)
}

/// The act and zone out of a room ("Act_08_02") or a satanic zone ("SZ_8_2"):
/// the second and third `_`-separated fields, as numbers.
pub open spec fn zone_numbers(s: Seq<char>) -> Option<(int, int)> {
    match under_from(s, 0) {
        Some(i) => match under_from(s, i + 1) {
            Some(j) => {
                let k = match under_from(s, j + 1) {
                    Some(k) => k,
                    None => s.len() as int,
                };
                match (as_u32(s.subrange(i + 1, j)), as_u32(s.subrange(j + 1, k))) {
                    (Some(a), Some(z)) => Some((a, z)),
                    _ => None,
                }
            },
            None => None,
        },
        None => None,
    }
}

fn range_of(v: &[char], lo: usize, hi: usize) -> (r: Vec<char>)
    requires
        lo <= hi <= v@.len(),
    ensures
        r@ == v@.subrange(lo as int, hi as int),
{
    let mut r: Vec<char> = Vec::new();
    let mut k: usize = lo;
    while k < hi
        invariant
            lo <= k <= hi <= v@.len(),
            r@ == v@.subrange(lo as int, k as int),
        decreases hi - k,
    {
        r.push(v[k]);
        k = k + 1;
    }
    r
}

/// The act and zone a room or a satanic zone names, which are the same place
/// written two ways.
pub fn zone_pair(name: &str) -> (r: Option<(u32, u32)>)
    ensures
        match zone_numbers(name@) {
            Some((a, z)) => r == Some((a as u32, z as u32)),
            None => r is None,
        },
{
    let v = chars_of(name);
    let i = match find_under(v.as_slice(), 0) {
        Some(i) => i,
        None => return None,
    };
    let j = match find_under(v.as_slice(), i + 1) {
        Some(j) => j,
        None => return None,
    };
    let k = match find_under(v.as_slice(), j + 1) {
        Some(k) => k,
        None => v.len(),
    };
    let act = range_of(v.as_slice(), i + 1, j);
    let zone = range_of(v.as_slice(), j + 1, k);
    match (parse_u32(act.as_slice()), parse_u32(zone.as_slice())) {
        (Some(a), Some(z)) => Some((a, z)),
        _ => None,
    }
}

/// A line cut to `limit` characters: one place kept for the ellipsis.
pub open spec fn clipped(text: Seq<char>, limit: usize) -> Seq<char> {
    if text.len() <= limit {
        text
    } else {
        text.take(if limit >= 1 { limit - 1 } else { 0 }).push('…')
    }
}

/// A line cut where we choose, on a character boundary.
pub fn clip(text: String, limit: usize) -> (r: String)
    ensures
        r@ == clipped(text@, limit),
        limit >= 1 ==> r@.len() <= limit,
{
    let v = chars_of(text.as_str());
    if v.len() <= limit {
        return text;
    }
    let keep = if limit >= 1 {
        limit - 1
    } else {
        0
    };
    let mut out = string_of(range_of(v.as_slice(), 0, keep).as_slice());
    assert(v@.subrange(0, keep as int) == v@.take(keep as int));
    push_char(&mut out, '…');
    out
}

/// `s` with every trailing `_rm` taken off and the underscores read as spaces.
pub open spec fn plain_room(s: Seq<char>) -> Seq<char> {
    no_rm(s).map_values(|c: char| if c == '_' { ' ' } else { c })
}

pub open spec fn no_rm(s: Seq<char>) -> Seq<char>
    decreases s.len(),
{
    if s.len() >= 3 && s.skip(s.len() - 3) == "_rm"@ {
        no_rm(s.take(s.len() - 3))
    } else {
        s
    }
}

fn strip_rm(v: &Vec<char>) -> (r: Vec<char>)
    ensures
        r@ == no_rm(v@),
{
    let mut w: Vec<char> = Vec::new();
    let mut i: usize = 0;
    while i < v.len()
        invariant
            i <= v@.len(),
            w@ == v@.take(i as int),
        decreases v@.len() - i,
    {
        w.push(v[i]);
        i = i + 1;
        assert(w@ =~= v@.take(i as int));
    }
    assert(v@.take(v@.len() as int) == v@);
    proof {
        reveal_strlit("_rm");
        assert("_rm"@ =~= seq!['_', 'r', 'm']);
    }
    loop
        invariant
            no_rm(w@) == no_rm(v@),
            "_rm"@ == seq!['_', 'r', 'm'],
        decreases w@.len(),
    {
        let n = w.len();
        if n < 3 || !(w[n - 3] == '_' && w[n - 2] == 'r' && w[n - 1] == 'm') {
            proof {
                if n >= 3 {
                    if w@.skip(n - 3) == "_rm"@ {
                        assert(w@.skip(n - 3)[0] == '_' && w@.skip(n - 3)[1] == 'r' && w@.skip(n - 3)[2] == 'm');
                    }
                }
            }
            return w;
        }
        let ghost before = w@;
        proof {
            assert(before.skip(n - 3) =~= "_rm"@);
        }
        w.truncate(n - 3);
        assert(w@ == before.take(n - 3));
    }
}

/// What to call a room: the tables' name for it, `Town` for a town the
/// tables do not know, the act and zone its name carries, or the name itself
/// without its `_rm` and with spaces for underscores.
pub open spec fn room_label(rooms: Seq<(String, String)>, room: Seq<char>) -> Seq<char> {
    match crate::sets::lookup(rooms, room) {
        Some(n) => n@,
        None => if room.len() >= 4 && eq_ascii_ci(room.take(4), "town"@) {
            "Town"@
        } else {
            match zone_numbers(room) {
                Some((a, z)) => "Act "@ + digits_of(a as nat) + " · Zone "@ + digits_of(z as nat),
                None => plain_room(room),
            }
        },
    }
}

pub fn zone_label(catalog: &Catalog, room: &str) -> (r: String)
    ensures
        r@ == room_label(catalog.rooms@, room@),
{
    if let Some(name) = catalog.room_name(room) {
        return name;
    }
    let v = chars_of(room);
    let town = ['t', 'o', 'w', 'n'];
    proof {
        reveal_strlit("town");
        assert(town@ == "town"@);
    }
    if v.len() >= 4 {
        let head = range_of(v.as_slice(), 0, 4);
        assert(v@.subrange(0, 4) == v@.take(4));
        if eq_ignore_ascii_case(head.as_slice(), town.as_slice()) {
            return copy_str("Town");
        }
    }
    match zone_pair(room) {
        Some((a, z)) => {
            let mut s = copy_str("Act ");
            s.append(decimal_u64(a as u64).as_str());
            s.append(" · Zone ");
            s.append(decimal_u64(z as u64).as_str());
            proof {
                assert(crate::text::decimal_text(a as int) == digits_of(a as nat));
                assert(crate::text::decimal_text(z as int) == digits_of(z as nat));
            }
            s
        },
        None => {
            let bare = strip_rm(&v);
            let mut out: Vec<char> = Vec::new();
            let mut i: usize = 0;
            while i < bare.len()
                invariant
                    i <= bare@.len(),
                    out@ == bare@.take(i as int).map_values(|c: char| if c == '_' { ' ' } else { c }),
                decreases bare@.len() - i,
            {
                let c = bare[i];
                out.push(if c == '_' {
                    ' '
                } else {
                    c
                });
                i = i + 1;
                assert(out@ =~= bare@.take(i as int).map_values(|c: char| if c == '_' { ' ' } else { c }));
            }
            assert(bare@.take(bare@.len() as int) == bare@);
            string_of(out.as_slice())
        },
    }
}

/// The badge, and the zone it names: only where the game says the character
/// is in the satanic zone, and only while the save's act agrees.
pub open spec fn badge(rooms: Seq<(String, String)>, here: bool, zone: Option<Seq<char>>, act: i64) -> Option<Seq<char>> {
    match zone {
        Some(z) => if here && (zone_numbers(z) matches Some((a, _)) && a == act) {
            Some(room_label(rooms, z))
        } else {
            None
        },
        None => None,
    }
}

pub fn satanic_badge(catalog: &Catalog, here: bool, zone: Option<&str>, act: i64) -> (r: Option<String>)
    ensures
        crate::finds::opt_view(r) == badge(
            catalog.rooms@,
            here,
            match zone {
                Some(z) => Some(z@),
                None => None,
            },
            act,
        ),
{
    let z = match zone {
        Some(z) => z,
        None => return None,
    };
    if !here {
        return None;
    }
    match zone_pair(z) {
        Some((zone_act, _)) => {
            if zone_act as i64 == act {
                Some(zone_label(catalog, z))
            } else {
                None
            }
        },
        None => None,
    }
}


// ---------------------------------------------------------------------------
// The status card
// ---------------------------------------------------------------------------

/// How long a line of the status may run.
pub const LINE: usize = 120;

/// Everything the status is made of. Comparing one against the last one sent
/// is what keeps a caller off the rate limit while the player stands still.
#[derive(Clone, Debug, PartialEq, Eq)]
pub struct Card {
    pub details: String,
    pub state: String,
    pub hover: String,
    /// unix milliseconds
    pub start: i64,
    /// the zone that is currently satanic, when the character stands in it
    pub satanic: Option<String>,
}

/// The name the panels give a difficulty.
pub open spec fn difficulty_name(d: int) -> Option<Seq<char>> {
    if d == 0 {
        Some("Normal"@)
    } else if d == 1 {
        Some("Nightmare"@)
    } else if d == 2 {
        Some("Hell"@)
    } else if d == 3 {
        Some("Inferno"@)
    } else {
        None
    }
}

/// Where the character is, as coarsely as the game states it: the act, its
/// difficulty, and whether it is hardcore.
pub open spec fn where_line(act: i64, character: Option<CharacterInfo>) -> Seq<char> {
    let base = if act > 0 {
        "Act "@ + decimal_text(act as int)
    } else {
        "Somewhere in Hero Siege"@
    };
    match character {
        Some(c) => base + match difficulty_name(c.difficulty as int) {
            Some(m) => " · "@ + m,
            None => Seq::empty(),
        } + if c.hardcore {
            " HC"@
        } else {
            Seq::empty()
        },
        None => base,
    }
}

/// How many items of a rarity the panels count.
pub open spec fn named_count(items: Seq<(String, ItemStats)>, rarity: Seq<char>) -> int {
    match lookup(items, rarity) {
        Some(s) => s.total as int,
        None => 0,
    }
}

/// The SS drops that are neither Unholy nor Angelic, which are named instead.
pub open spec fn chase_count(ss: i64, items: Seq<(String, ItemStats)>) -> int {
    let d = ss - (named_count(items, "Unholy"@) + named_count(items, "Angelic"@));
    if d > 0 {
        d
    } else {
        0
    }
}

/// What the run has produced, drops first, then the gold, in the words given
/// for it.
pub open spec fn haul(ss: i64, items: Seq<(String, ItemStats)>, gold_earned: i64, gold: Seq<char>) -> Seq<Seq<char>> {
    let u = named_count(items, "Unholy"@);
    let a = named_count(items, "Angelic"@);
    let chase = chase_count(ss, items);
    (if chase > 0 {
        seq![decimal_text(chase) + " SS"@]
    } else {
        Seq::empty()
    }) + (if u > 0 {
        seq![decimal_text(u) + " Unholy"@]
    } else {
        Seq::empty()
    }) + (if a > 0 {
        seq![decimal_text(a) + " Angelic"@]
    } else {
        Seq::empty()
    }) + (if gold_earned > 0 {
        seq![gold + " gold"@]
    } else {
        Seq::empty()
    })
}

/// Parts written one after another with `sep` between them.
pub open spec fn joined(parts: Seq<Seq<char>>, sep: Seq<char>) -> Seq<char>
    decreases parts.len(),
{
    if parts.len() == 0 {
        Seq::empty()
    } else if parts.len() == 1 {
        parts[0]
    } else {
        joined(parts.drop_last(), sep) + sep + parts.last()
    }
}

pub open spec fn state_line(ss: i64, items: Seq<(String, ItemStats)>, gold_earned: i64, gold: Seq<char>) -> Seq<char> {
    let h = haul(ss, items, gold_earned, gold);
    if h.len() == 0 {
        "just started"@
    } else {
        joined(h, " · "@)
    }
}

/// The character's own progress, for the tooltip.
pub open spec fn hover_line(character: Option<CharacterInfo>, mf: i64) -> Seq<char> {
    match character {
        Some(c) => "HS Tracker · level "@ + decimal_text(c.level as int) + " · hero level "@ + decimal_text(
            c.herolevel as int,
        ) + if mf > 0 {
            " · MF "@ + decimal_text(mf as int)
        } else {
            Seq::empty()
        },
        None => "HS Tracker"@,
    }
}

fn count_named(items: &Vec<(String, ItemStats)>, rarity: &str) -> (r: i64)
    ensures
        r == named_count(items@, rarity@),
{
    match find_key(items, rarity) {
        Some(i) => items[i].1.total,
        None => 0,
    }
}

fn push_part(parts: &mut Vec<String>, count: i64, label: &str)
    ensures
        final(parts)@.map_values(|s: String| s@) == old(parts)@.map_values(|s: String| s@).push(
            decimal_text(count as int) + label@,
        ),
{
    let mut t = decimal(count);
    t.append(label);
    let ghost was = parts@;
    parts.push(t);
    assert(parts@.map_values(|s: String| s@) =~= was.map_values(|s: String| s@).push(decimal_text(count as int) + label@));
}

fn join_parts(parts: &Vec<String>, sep: &str) -> (r: String)
    ensures
        r@ == joined(parts@.map_values(|s: String| s@), sep@),
{
    let ghost pv = parts@.map_values(|s: String| s@);
    let mut out = String::new();
    let mut i: usize = 0;
    assert(out@ =~= joined(pv.take(0), sep@));
    while i < parts.len()
        invariant
            i <= parts@.len(),
            pv == parts@.map_values(|s: String| s@),
            out@ == joined(pv.take(i as int), sep@),
        decreases parts@.len() - i,
    {
        let ghost prev = pv.take(i as int);
        if i > 0 {
            out.append(sep);
        }
        out.append(parts[i].as_str());
        i = i + 1;
        proof {
            let now = pv.take(i as int);
            assert(now.drop_last() =~= prev);
            assert(now.last() == pv[i - 1]);
            if i == 1 {
                assert(prev.len() == 0);
                assert(out@ =~= now[0]);
            }
        }
    }
    assert(pv.take(parts@.len() as int) =~= pv);
    out
}

fn where_text(act: i64, character: &Option<CharacterInfo>) -> (r: String)
    ensures
        r@ == where_line(act, *character),
{
    let mut out = String::new();
    if act > 0 {
        out.append("Act ");
        let n = decimal(act);
        out.append(n.as_str());
    } else {
        out.append("Somewhere in Hero Siege");
    }
    let ghost base = out@;
    if let Some(c) = character {
        let mode: Option<&str> = if c.difficulty == 0 {
            Some("Normal")
        } else if c.difficulty == 1 {
            Some("Nightmare")
        } else if c.difficulty == 2 {
            Some("Hell")
        } else if c.difficulty == 3 {
            Some("Inferno")
        } else {
            None
        };
        if let Some(m) = mode {
            out.append(" · ");
            out.append(m);
        }
        let ghost mid = out@;
        if c.hardcore {
            out.append(" HC");
        }
        assert(out@ =~= where_line(act, *character));
    } else {
        assert(out@ =~= base);
    }
    out
}

fn hover_text(character: &Option<CharacterInfo>, mf: i64) -> (r: String)
    ensures
        r@ == hover_line(*character, mf),
{
    let mut out = String::new();
    match character {
        Some(c) => {
            out.append("HS Tracker · level ");
            let l = decimal(c.level);
            out.append(l.as_str());
            out.append(" · hero level ");
            let h = decimal(c.herolevel);
            out.append(h.as_str());
            let ghost head = out@;
            if mf > 0 {
                out.append(" · MF ");
                let m = decimal(mf);
                out.append(m.as_str());
            }
            assert(out@ =~= hover_line(*character, mf));
        },
        None => {
            out.append("HS Tracker");
            assert(out@ =~= hover_line(*character, mf));
        },
    }
    out
}

#[verifier::rlimit(50)]
fn state_text(ss: i64, items: &Vec<(String, ItemStats)>, earned: i64, gold: &str) -> (r: String)
    requires
        i64::MIN <= named_count(items@, "Unholy"@) + named_count(items@, "Angelic"@) <= i64::MAX,
        i64::MIN <= ss - (named_count(items@, "Unholy"@) + named_count(items@, "Angelic"@)) <= i64::MAX,
    ensures
        r@ == state_line(ss, items@, earned, gold@),
{
    let u = count_named(items, "Unholy");
    let a = count_named(items, "Angelic");
    let named = u + a;
    let d = ss - named;
    let chase: i64 = if d > 0 {
        d
    } else {
        0
    };
    assert(chase == chase_count(ss, items@));
    let mut parts: Vec<String> = Vec::new();
    if chase > 0 {
        push_part(&mut parts, chase, " SS");
    }
    if u > 0 {
        push_part(&mut parts, u, " Unholy");
    }
    if a > 0 {
        push_part(&mut parts, a, " Angelic");
    }
    if earned > 0 {
        let mut g = copy_str(gold);
        g.append(" gold");
        let ghost was = parts@;
        parts.push(g);
        assert(parts@.map_values(|s: String| s@) =~= was.map_values(|s: String| s@).push(gold@ + " gold"@));
    }
    assert(parts@.map_values(|s: String| s@) =~= haul(ss, items@, earned, gold@));
    if parts.len() == 0 {
        String::from_str("just started")
    } else {
        join_parts(&parts, " · ")
    }
}

/// The status for a snapshot of the session: where the character is, what
/// the run has produced, and the character's progress for the tooltip, each
/// cut to a line; the session's start; and the satanic badge. `gold` is the
/// earned gold as the status writes it, short.
pub fn card(catalog: &Catalog, snap: &Snapshot, start: i64, gold: &str) -> (r: Card)
    requires
        i64::MIN <= named_count(snap.items@, "Unholy"@) + named_count(snap.items@, "Angelic"@) <= i64::MAX,
        i64::MIN <= snap.ss - (named_count(snap.items@, "Unholy"@) + named_count(snap.items@, "Angelic"@))
            <= i64::MAX,
    ensures
        r.details@ == clipped(where_line(snap.act, snap.character), LINE),
        r.state@ == clipped(state_line(snap.ss, snap.items@, snap.gold.earned, gold@), LINE),
        r.hover@ == clipped(hover_line(snap.character, snap.mf), LINE),
        r.start == start,
        opt_view(r.satanic) == badge(
            catalog.rooms@,
            snap.satanic_here,
            match snap.satanic_zone {
                Some(z) => Some(z.zone@),
                None => None,
            },
            snap.act,
        ),
{
    let state = state_text(snap.ss, &snap.items, snap.gold.earned, gold);
    let zone = match &snap.satanic_zone {
        Some(z) => Some(z.zone.as_str()),
        None => None,
    };
    let satanic = satanic_badge(catalog, snap.satanic_here, zone, snap.act);
    Card {
        details: clip(where_text(snap.act, &snap.character), LINE),
        state: clip(state, LINE),
        hover: clip(hover_text(&snap.character, snap.mf), LINE),
        start,
        satanic,
    }
}

} // verus!

//! What the session shows: the panels' snapshot, the heavy extra, the graph's
//! points, and a finished run as it goes into the history.

use vstd::prelude::*;
use crate::session::{active_secs, sub0};
use crate::stats::{bump, bumped, resource_kind, resource_kinds, tally, tally_table, Extra, GameStats, ItemStats, Line, NotableCount, ResourceCount, Run, RunDrop, SeriesPoint, Snapshot, TallyCount, SECOND, SERIES_CAP, TALLY_COUNT};
use crate::text::copy_str;

verus! {

/// `v` an hour at the rate it was made in `secs` seconds, cut towards zero and
/// held at the ends of the range; 0 before a second has passed.
pub open spec fn hourly(v: i64, secs: u64) -> i64 {
    if secs == 0 {
        0
    } else {
        let q = if v >= 0 {
            (v * 3600) / (secs as int)
        } else {
            -((-v * 3600) / (secs as int))
        };
        crate::json::clamp_i64(q) as i64
    }
}

pub fn hourly_rate(v: i64, secs: u64) -> (r: i64)
    ensures
        r == hourly(v, secs),
{
    if secs == 0 {
        return 0;
    }
    let w = v as i128;
    let s = secs as i128;
    let q: i128 = if w >= 0 {
        (w * 3600) / s
    } else {
        0 - ((0 - w) * 3600) / s
    };
    if q > i64::MAX as i128 {
        i64::MAX
    } else if q < i64::MIN as i128 {
        i64::MIN
    } else {
        q as i64
    }
}

/// The bosses and chests a session has to its name, in the table's order and
/// without the ones at zero: the first `n` entries of the table, so judged.
pub open spec fn tallies_upto(earned: Seq<i64>, n: int) -> Seq<(Seq<char>, Seq<char>, i64)>
    decreases n,
{
    if n <= 0 {
        Seq::empty()
    } else {
        let before = tallies_upto(earned, n - 1);
        if earned[n - 1] > 0 {
            before.push((tally_table()[n - 1].1, tally_table()[n - 1].2, earned[n - 1]))
        } else {
            before
        }
    }
}

pub open spec fn tally_views(v: Seq<TallyCount>) -> Seq<(Seq<char>, Seq<char>, i64)> {
    v.map_values(|t: TallyCount| (t.label@, t.group@, t.total))
}

impl GameStats {
    /// How long the session has run, in whole seconds.
    pub fn active_secs_at(&self, now: u64) -> (r: u64)
        ensures
            r == active_secs(self.clock, now),
    {
        self.active_at(now) / SECOND
    }

    /// `value` an hour at the session's pace.
    pub fn per_hour(&self, value: i64, now: u64) -> (r: i64)
        ensures
            r == hourly(value, active_secs(self.clock, now)),
    {
        hourly_rate(value, self.active_secs_at(now))
    }

    /// The bosses and chests this session has to its name.
    pub fn tallies(&self) -> (r: Vec<TallyCount>)
        requires
            self.save.tally_earned@.len() == TALLY_COUNT,
        ensures
            tally_views(r@) == tallies_upto(self.save.tally_earned@, TALLY_COUNT as int),
    {
        let mut out: Vec<TallyCount> = Vec::new();
        let mut i: usize = 0;
        while i < TALLY_COUNT
            invariant
                i <= TALLY_COUNT,
                self.save.tally_earned@.len() == TALLY_COUNT,
                tally_views(out@) == tallies_upto(self.save.tally_earned@, i as int),
            decreases TALLY_COUNT - i,
        {
            let total = self.save.tally_earned[i];
            if total > 0 {
                let (_, label, group) = tally(i);
                let ghost before = out@;
                out.push(TallyCount { label: copy_str(label), group: copy_str(group), total });
                assert(tally_views(out@) == tally_views(before).push((label@, group@, total)));
            }
            i = i + 1;
        }
        out
    }

    /// A point for the graph; a paused run has nothing to plot.
    pub fn sample_at(&mut self, now: u64)
        ensures
            sampled(*old(self), *final(self), now),
    {
        if self.paused() {
            return;
        }
        self.revision = bumped(self.revision);
        if self.series.len() >= SERIES_CAP {
            return;
        }
        self.extra_rev = bumped(self.extra_rev);
        let t = self.active_secs_at(now);
        self.series.push(SeriesPoint { t, gold: self.bank.gold_earned, xp: self.save.xp_earned });
    }

    /// The heavy part of what the panels show: the character, the graph and
    /// the journal, newest first.
    pub fn extra(&self) -> (r: Extra)
        ensures
            r.series@ == self.series@,
            r.drops@.len() == self.finds.drops@.len(),
            forall|i: int|
                0 <= i < r.drops@.len() ==> crate::stats::drop_view(#[trigger] r.drops@[i])
                    == crate::stats::drop_view(self.finds.drops@[self.finds.drops@.len() - 1 - i]),
            r.character is Some == self.character is Some,
            r.character is Some ==> {
                let c = r.character->0;
                let d = self.character->0;
                &&& c.name@ == d.name@
                &&& c.level == d.level && c.herolevel == d.herolevel && c.difficulty == d.difficulty
                &&& c.hell_sub == d.hell_sub && c.hardcore == d.hardcore && c.season == d.season
            },
    {
        let mut series: Vec<SeriesPoint> = Vec::new();
        let mut i: usize = 0;
        while i < self.series.len()
            invariant
                i <= self.series@.len(),
                series@ == self.series@.take(i as int),
            decreases self.series@.len() - i,
        {
            series.push(self.series[i]);
            i = i + 1;
            assert(series@ =~= self.series@.take(i as int));
        }
        assert(self.series@.take(self.series@.len() as int) == self.series@);
        let mut drops: Vec<crate::stats::DropEntry> = Vec::new();
        let n = self.finds.drops.len();
        let mut k: usize = 0;
        while k < n
            invariant
                n == self.finds.drops@.len(),
                k <= n,
                drops@.len() == k,
                forall|i: int|
                    0 <= i < k ==> crate::stats::drop_view(#[trigger] drops@[i])
                        == crate::stats::drop_view(self.finds.drops@[n - 1 - i]),
            decreases n - k,
        {
            drops.push(self.finds.drops[n - 1 - k].copy());
            k = k + 1;
        }
        let character = match &self.character {
            Some(c) => Some(c.copy()),
            None => None,
        };
        Extra { character, series, drops }
    }
}

// ---------------------------------------------------------------------------
// Orders
// ---------------------------------------------------------------------------

/// `a` sorts before `b` character by character, as `str` comparison does.
pub open spec fn text_lt(a: Seq<char>, b: Seq<char>) -> bool
    decreases a.len(),
{
    if b.len() == 0 {
        false
    } else if a.len() == 0 {
        true
    } else if a[0] != b[0] {
        (a[0] as int) < (b[0] as int)
    } else {
        text_lt(a.drop_first(), b.drop_first())
    }
}

proof fn lemma_text_lt_trans(a: Seq<char>, b: Seq<char>, c: Seq<char>)
    requires
        text_lt(a, b),
        text_lt(b, c),
    ensures
        text_lt(a, c),
    decreases a.len(),
{
    if a.len() > 0 && b.len() > 0 && c.len() > 0 && a[0] == b[0] && b[0] == c[0] {
        lemma_text_lt_trans(a.drop_first(), b.drop_first(), c.drop_first());
    }
}

proof fn lemma_text_lt_irrefl(a: Seq<char>)
    ensures
        !text_lt(a, a),
    decreases a.len(),
{
    if a.len() > 0 {
        lemma_text_lt_irrefl(a.drop_first());
    }
}

fn text_less(a: &str, b: &str) -> (r: bool)
    ensures
        r == text_lt(a@, b@),
{
    let x = crate::text::chars_of(a);
    let y = crate::text::chars_of(b);
    let mut i: usize = 0;
    assert(x@.skip(0) == x@);
    assert(y@.skip(0) == y@);
    while i < x.len() && i < y.len() && x[i] == y[i]
        invariant
            i <= x@.len(),
            i <= y@.len(),
            text_lt(x@, y@) == text_lt(x@.skip(i as int), y@.skip(i as int)),
        decreases x@.len() - i,
    {
        proof {
            assert(x@.skip(i as int).drop_first() == x@.skip(i + 1));
            assert(y@.skip(i as int).drop_first() == y@.skip(i + 1));
        }
        i = i + 1;
    }
    proof {
        assert(x@.skip(0) == x@);
        assert(y@.skip(0) == y@);
    }
    if i == y.len() {
        return false;
    }
    if i == x.len() {
        return true;
    }
    x[i] < y[i]
}

/// Where a resource counter sorts: by the name the panel prints for it,
/// `collectibles`, `keys`, `materials`, `socketables`.
pub open spec fn kind_rank(k: usize) -> int {
    if k == 0 {
        1
    } else if k == 1 {
        0
    } else {
        k as int
    }
}

/// A resource sorts before another by its counter, then by the larger total,
/// then by name.
pub open spec fn res_before(a: (String, (usize, i64)), b: (String, (usize, i64))) -> bool {
    ||| kind_rank(a.1.0) < kind_rank(b.1.0)
    ||| (kind_rank(a.1.0) == kind_rank(b.1.0) && a.1.1 > b.1.1)
    ||| (kind_rank(a.1.0) == kind_rank(b.1.0) && a.1.1 == b.1.1 && text_lt(a.0@, b.0@))
}

proof fn lemma_res_before_trans(a: (String, (usize, i64)), b: (String, (usize, i64)), c: (String, (usize, i64)))
    requires
        res_before(a, b),
        res_before(b, c),
    ensures
        res_before(a, c),
{
    if kind_rank(a.1.0) == kind_rank(b.1.0) && kind_rank(b.1.0) == kind_rank(c.1.0) && a.1.1 == b.1.1 && b.1.1
        == c.1.1 {
        lemma_text_lt_trans(a.0@, b.0@, c.0@);
    }
}

proof fn lemma_res_before_irrefl(a: (String, (usize, i64)))
    ensures
        !res_before(a, a),
{
    lemma_text_lt_irrefl(a.0@);
}

pub open spec fn res_sorted(s: Seq<(String, (usize, i64))>) -> bool {
    forall|i: int, j: int| 0 <= i < j < s.len() ==> !res_before(#[trigger] s[j], #[trigger] s[i])
}

fn res_less(a: &(String, (usize, i64)), b: &(String, (usize, i64))) -> (r: bool)
    ensures
        r == res_before(*a, *b),
{
    let ra: usize = if a.1.0 == 0 {
        1
    } else if a.1.0 == 1 {
        0
    } else {
        a.1.0
    };
    let rb: usize = if b.1.0 == 0 {
        1
    } else if b.1.0 == 1 {
        0
    } else {
        b.1.0
    };
    ra < rb || (ra == rb && a.1.1 > b.1.1) || (ra == rb && a.1.1 == b.1.1 && text_less(a.0.as_str(), b.0.as_str()))
}

/// Each resource sorts strictly before the next: no two are alike in the
/// panel's order, so equal counts never trade places.
pub open spec fn res_strict(s: Seq<(String, (usize, i64))>) -> bool {
    forall|i: int, j: int| 0 <= i < j < s.len() ==> res_before(#[trigger] s[i], #[trigger] s[j])
}

proof fn lemma_text_lt_total(a: Seq<char>, b: Seq<char>)
    requires
        a != b,
    ensures
        text_lt(a, b) || text_lt(b, a),
    decreases a.len(),
{
    if b.len() == 0 {
        if a.len() == 0 {
            assert(a =~= b);
        }
    } else if a.len() == 0 {
    } else if a[0] != b[0] {
        assert((a[0] as int) != (b[0] as int));
    } else {
        if a.drop_first() == b.drop_first() {
            assert(a =~= seq![a[0]] + a.drop_first());
            assert(b =~= seq![b[0]] + b.drop_first());
        }
        lemma_text_lt_total(a.drop_first(), b.drop_first());
    }
}

/// Two sequences with the same elements, one of them with no name twice:
/// the other has no name twice either.
proof fn lemma_names_carry(a: Seq<(String, (usize, i64))>, b: Seq<(String, (usize, i64))>)
    requires
        a.to_multiset() == b.to_multiset(),
        crate::sets::keys_distinct(a),
    ensures
        crate::sets::keys_distinct(b),
{
    broadcast use vstd::seq_lib::to_multiset_contains;

    assert forall|i: int, j: int| 0 <= i < j < b.len() implies (#[trigger] b[i]).0@ != (#[trigger] b[j]).0@ by {
        assert(a.no_duplicates()) by {
            assert forall|p: int, q: int| 0 <= p < a.len() && 0 <= q < a.len() && p != q implies a[p] != a[q] by {
                if p < q {
                    assert(a[p].0@ != a[q].0@);
                } else {
                    assert(a[q].0@ != a[p].0@);
                }
            }
        }
        a.lemma_multiset_has_no_duplicates();
        assert forall|x: (String, (usize, i64))| b.to_multiset().contains(x) implies b.to_multiset().count(x) == 1 by {}
        b.lemma_multiset_has_no_duplicates_conv();
        assert(b[i] != b[j]);
        assert(b.contains(b[i]));
        assert(b.contains(b[j]));
        assert(b.to_multiset().count(b[i]) > 0);
        assert(b.to_multiset().count(b[j]) > 0);
        assert(a.to_multiset().count(b[i]) > 0);
        assert(a.to_multiset().count(b[j]) > 0);
        assert(a.contains(b[i]));
        assert(a.contains(b[j]));
        let p = choose|p: int| 0 <= p < a.len() && a[p] == b[i];
        let q = choose|q: int| 0 <= q < a.len() && a[q] == b[j];
        assert(p != q);
        if p < q {
            assert(a[p].0@ != a[q].0@);
        } else {
            assert(a[q].0@ != a[p].0@);
        }
    }
}

/// Sorted with no name twice is sorted strictly.
proof fn lemma_res_strict(s: Seq<(String, (usize, i64))>)
    requires
        res_sorted(s),
        crate::sets::keys_distinct(s),
    ensures
        res_strict(s),
{
    assert forall|i: int, j: int| 0 <= i < j < s.len() implies res_before(#[trigger] s[i], #[trigger] s[j]) by {
        assert(!res_before(s[j], s[i]));
        assert(s[i].0@ != s[j].0@);
        lemma_text_lt_total(s[i].0@, s[j].0@);
    }
}

/// What the panel shows of a resource: its name, its counter's name, and the
/// total.
pub open spec fn shown_resource(e: (String, (usize, i64))) -> (Seq<char>, Seq<char>, i64) {
    (e.0@, crate::stats::kind_name(e.1.0), e.1.1)
}

/// `out` lists `held` in the panel's order: some copy of `held` (the same
/// names, counters and totals, one for one) sorted into `order` is what `out`
/// shows, item for item.
pub open spec fn resources_listed(
    held: Seq<(String, (usize, i64))>,
    copy: Seq<(String, (usize, i64))>,
    order: Seq<(String, (usize, i64))>,
    out: Seq<crate::stats::ResourceCount>,
) -> bool {
    &&& copy.len() == held.len()
    &&& forall|k: int| 0 <= k < held.len() ==> (#[trigger] copy[k]).0@ == held[k].0@ && copy[k].1 == held[k].1
    &&& order.to_multiset() == copy.to_multiset()
    &&& res_sorted(order)
    &&& res_strict(order)
    &&& out.len() == order.len()
    &&& forall|i: int|
        0 <= i < out.len() ==> ((#[trigger] out[i]).name@, out[i].kind@, out[i].total) == shown_resource(order[i])
}

/// The resources in the panel's order, every one of them once.
pub fn sort_resources(v: Vec<(String, (usize, i64))>) -> (r: Vec<(String, (usize, i64))>)
    ensures
        r@.to_multiset() == v@.to_multiset(),
        res_sorted(r@),
{
    broadcast use vstd::seq_lib::to_multiset_insert;

    let mut out: Vec<(String, (usize, i64))> = Vec::new();
    let mut rest = v;
    let ghost all = rest@;
    let mut taken: usize = 0;
    proof {
        assert(out@ =~= all.take(0));
        assert(all.len() == rest.len());
    }
    while rest.len() > 0
        invariant
            taken + rest@.len() == all.len(),
            all.len() <= usize::MAX,
            rest@ == all.skip(taken as int).reverse().reverse(),
            out@.to_multiset() == all.take(taken as int).to_multiset(),
            res_sorted(out@),
        decreases rest@.len(),
    {
        proof {
            assert(all.skip(taken as int).reverse().reverse() =~= all.skip(taken as int));
            assert(rest@[0] == all[taken as int]);
        }
        let e = rest.remove(0);
        let mut p: usize = 0;
        while p < out.len() && !res_less(&e, &out[p])
            invariant
                p <= out@.len(),
                forall|q: int| 0 <= q < p ==> !res_before(e, #[trigger] out@[q]),
            decreases out@.len() - p,
        {
            p = p + 1;
        }
        let ghost before = out@;
        out.insert(p, e);
        proof {
            assert(out@ == before.insert(p as int, e));
            assert forall|i: int, j: int| 0 <= i < j < out@.len() implies !res_before(#[trigger] out@[j], #[trigger] out@[i]) by {
                if i < p && j == p {
                    assert(out@[i] == before[i]);
                } else if i == p && j > p {
                    assert(out@[j] == before[j - 1]);
                    if res_before(before[j - 1], e) {
                        assert(p < before.len());
                        assert(res_before(e, before[p as int]));
                        lemma_res_before_trans(before[j - 1], e, before[p as int]);
                        if j - 1 == p {
                            lemma_res_before_irrefl(before[p as int]);
                        } else {
                            assert(!res_before(before[j - 1], before[p as int]));
                        }
                    }
                } else if j < p {
                    assert(out@[i] == before[i] && out@[j] == before[j]);
                } else if i < p && j > p {
                    assert(out@[i] == before[i] && out@[j] == before[j - 1]);
                } else {
                    assert(out@[i] == before[i - 1] && out@[j] == before[j - 1]);
                }
            }
            assert(all.take(taken + 1) == all.take(taken as int).push(e));
            vstd::seq_lib::to_multiset_build(all.take(taken as int), e);
            vstd::seq_lib::to_multiset_insert(before, p as int, e);
        }
        taken = taken + 1;
        proof {
            assert(all.skip(taken as int).reverse().reverse() =~= all.skip(taken as int));
            assert(rest@ =~= all.skip(taken as int));
        }
    }
    proof {
        assert(all.take(taken as int) == all);
    }
    out
}

pub open spec fn zones_sorted(s: Seq<(String, u64)>) -> bool {
    forall|i: int, j: int| 0 <= i < j < s.len() ==> (#[trigger] s[i]).1 >= (#[trigger] s[j]).1
}

/// A room of `all`, with its time.
pub open spec fn zone_in(all: Seq<(String, u64)>, z: (String, u64)) -> bool {
    exists|k: int| 0 <= k < all.len() && (#[trigger] all[k]).0@ == z.0@ && all[k].1 == z.1
}

/// A room that is among `zones`, or spent no longer than any of them.
pub open spec fn outranked(zones: Seq<(String, u64)>, x: (String, u64)) -> bool {
    ||| exists|i: int| 0 <= i < zones.len() && (#[trigger] zones[i]).0@ == x.0@ && zones[i].1 == x.1
    ||| forall|i: int| 0 <= i < zones.len() ==> x.1 <= (#[trigger] zones[i]).1
}

/// `zones` are rooms of `all` with their times, and a room of `all` left out
/// of them spent no longer in it than in any of them.
pub open spec fn ranked_zones(zones: Seq<(String, u64)>, all: Seq<(String, u64)>) -> bool {
    &&& forall|i: int| 0 <= i < zones.len() ==> zone_in(all, #[trigger] zones[i])
    &&& forall|k: int| 0 <= k < all.len() ==> outranked(zones, #[trigger] all[k])
}

proof fn lemma_ranked(
    sorted: Seq<(String, u64)>,
    copy: Seq<(String, u64)>,
    all: Seq<(String, u64)>,
    zones: Seq<(String, u64)>,
    t: int,
)
    requires
        sorted.to_multiset() == copy.to_multiset(),
        zones_sorted(sorted),
        copy.len() == all.len(),
        forall|j: int| 0 <= j < all.len() ==> (#[trigger] copy[j]).0@ == all[j].0@ && copy[j].1 == all[j].1,
        0 <= t <= sorted.len(),
        zones == sorted.take(t),
    ensures
        ranked_zones(zones, all),
{
    broadcast use vstd::seq_lib::to_multiset_contains;
    assert forall|i: int| 0 <= i < zones.len() implies zone_in(all, #[trigger] zones[i]) by {
        let x = sorted[i];
        assert(zones[i] == x);
        assert(sorted.contains(x));
        assert(sorted.to_multiset().count(x) > 0);
        assert(copy.contains(x));
        let k = choose|k: int| 0 <= k < copy.len() && copy[k] == x;
        assert(all[k].0@ == zones[i].0@ && all[k].1 == zones[i].1);
    }
    assert forall|k: int| 0 <= k < all.len() implies outranked(zones, #[trigger] all[k]) by {
        let x = copy[k];
        assert(copy.contains(x));
        assert(copy.to_multiset().count(x) > 0);
        assert(sorted.contains(x));
        let m = choose|m: int| 0 <= m < sorted.len() && sorted[m] == x;
        if m < t {
            assert(zones[m] == sorted[m]);
            assert(zones[m].0@ == all[k].0@ && zones[m].1 == all[k].1);
        } else {
            assert forall|i: int| 0 <= i < zones.len() implies all[k].1 <= (#[trigger] zones[i]).1 by {
                assert(zones[i] == sorted[i]);
                assert(sorted[i].1 >= sorted[m].1);
            }
        }
    }
}

/// The rooms, longest first; rooms with equal time keep their order.
pub fn sort_zones(v: Vec<(String, u64)>) -> (r: Vec<(String, u64)>)
    ensures
        r@.to_multiset() == v@.to_multiset(),
        zones_sorted(r@),
{
    let mut out: Vec<(String, u64)> = Vec::new();
    let mut rest = v;
    let ghost all = rest@;
    let mut taken: usize = 0;
    proof {
        assert(out@ =~= all.take(0));
        assert(all.len() == rest.len());
    }
    while rest.len() > 0
        invariant
            taken + rest@.len() == all.len(),
            all.len() <= usize::MAX,
            rest@ == all.skip(taken as int),
            out@.to_multiset() == all.take(taken as int).to_multiset(),
            zones_sorted(out@),
        decreases rest@.len(),
    {
        proof {
            assert(rest@[0] == all[taken as int]);
        }
        let e = rest.remove(0);
        let mut p: usize = 0;
        while p < out.len() && out[p].1 >= e.1
            invariant
                p <= out@.len(),
                forall|q: int| 0 <= q < p ==> (#[trigger] out@[q]).1 >= e.1,
            decreases out@.len() - p,
        {
            p = p + 1;
        }
        let ghost before = out@;
        out.insert(p, e);
        proof {
            assert(out@ == before.insert(p as int, e));
            assert forall|i: int, j: int| 0 <= i < j < out@.len() implies (#[trigger] out@[i]).1 >= (#[trigger] out@[j]).1 by {
                if i < p && j == p {
                    assert(out@[i] == before[i]);
                } else if i == p && j > p {
                    assert(out@[j] == before[j - 1]);
                    assert(before[p as int].1 < e.1);
                    assert(before[p as int].1 >= before[j - 1].1 || j - 1 == p);
                } else if j < p {
                    assert(out@[i] == before[i] && out@[j] == before[j]);
                } else if i < p && j > p {
                    assert(out@[i] == before[i] && out@[j] == before[j - 1]);
                } else {
                    assert(out@[i] == before[i - 1] && out@[j] == before[j - 1]);
                }
            }
            assert(all.take(taken + 1) == all.take(taken as int).push(e));
            vstd::seq_lib::to_multiset_build(all.take(taken as int), e);
            vstd::seq_lib::to_multiset_insert(before, p as int, e);
        }
        taken = taken + 1;
        proof {
            assert(rest@ =~= all.skip(taken as int));
        }
    }
    proof {
        assert(all.take(taken as int) == all);
    }
    out
}

/// What a run keeps of a find.
pub open spec fn run_drop_view(d: crate::stats::DropEntry) -> (Seq<char>, Seq<char>, i64, u64) {
    (d.name@, d.rarity@, d.tier, d.ts_ms)
}

/// The named finds among the first `k` of the journal, newest first.
pub open spec fn newest_named(d: Seq<crate::stats::DropEntry>, k: int) -> Seq<(Seq<char>, Seq<char>, i64, u64)>
    decreases k,
{
    if k <= 0 {
        Seq::empty()
    } else {
        (if d[k - 1].name@.len() > 0 {
            seq![run_drop_view(d[k - 1])]
        } else {
            Seq::empty()
        }) + newest_named(d, k - 1)
    }
}

pub open spec fn run_drop_views(v: Seq<RunDrop>) -> Seq<(Seq<char>, Seq<char>, i64, u64)> {
    v.map_values(|r: RunDrop| (r.name@, r.rarity@, r.tier, r.ts_ms))
}

/// The finds a run keeps: the named ones, newest first, at most `RUN_DROPS`.
pub fn run_finds(drops: &Vec<crate::stats::DropEntry>) -> (r: Vec<RunDrop>)
    ensures
        ({
            let all = newest_named(drops@, drops@.len() as int);
            run_drop_views(r@) == all.take(if all.len() < crate::stats::RUN_DROPS { all.len() as int } else { crate::stats::RUN_DROPS as int })
        }),
{
    let ghost d = drops@;
    let ghost all = newest_named(d, d.len() as int);
    let mut out: Vec<RunDrop> = Vec::new();
    let mut i: usize = drops.len();
    proof {
        assert(all == run_drop_views(out@) + newest_named(d, i as int));
    }
    while i > 0 && out.len() < crate::stats::RUN_DROPS
        invariant
            i <= d.len(),
            d == drops@,
            all == newest_named(d, d.len() as int),
            all == run_drop_views(out@) + newest_named(d, i as int),
            out@.len() <= crate::stats::RUN_DROPS,
        decreases i,
    {
        let e = &drops[i - 1];
        let ghost before = run_drop_views(out@);
        if !e.name.as_str().is_empty() {
            out.push(RunDrop { name: copy_str(e.name.as_str()), rarity: copy_str(e.rarity.as_str()), tier: e.tier, ts_ms: e.ts_ms });
            proof {
                assert(run_drop_views(out@) == before.push(run_drop_view(d[i - 1])));
                assert(newest_named(d, i as int) == seq![run_drop_view(d[i - 1])] + newest_named(d, i - 1));
                assert(all =~= run_drop_views(out@) + newest_named(d, i - 1));
            }
        } else {
            proof {
                assert(e.name@.len() == 0);
                assert(newest_named(d, i as int) =~= newest_named(d, i - 1));
            }
        }
        i = i - 1;
    }
    proof {
        let o = run_drop_views(out@);
        if out@.len() < crate::stats::RUN_DROPS {
            assert(i == 0);
            assert(newest_named(d, 0) =~= Seq::<(Seq<char>, Seq<char>, i64, u64)>::empty());
            assert(all =~= o);
        } else {
            assert(all.take(crate::stats::RUN_DROPS as int) =~= o);
        }
    }
    out
}

impl GameStats {
    /// What this run amounted to, or nothing when there is nothing to say: a
    /// minute, and something earned, or it was no run.
    pub fn finish_at(&mut self, now: crate::stats::Now) -> (r: Option<Run>)
        requires
            crate::stats::shaped(*old(self)),
        ensures
            finished_run(*old(self), *final(self), r, now),
    {
        self.bank_room_time_at(now.mono, now.mono);
        let secs = self.active_secs_at(now.mono);
        let nothing = self.bank.gold_earned == 0 && self.save.xp_earned == 0 && self.save.kills_earned == 0;
        if secs < 60 || nothing {
            return None;
        }
        let zt = crate::sets::copy_keyed(&self.place.zone_time);
        let ghost zt_seq = zt@;
        let mut zones = sort_zones(zt);
        proof {
            vstd::seq_lib::to_multiset_len(zones@);
            vstd::seq_lib::to_multiset_len(zt_seq);
        }
        let ghost sorted = zones@;
        zones.truncate(6);
        proof {
            assert(sorted.len() == self.place.zone_time@.len());
            assert(zones@ =~= sorted.take(zones@.len() as int));
            lemma_ranked(sorted, zt_seq, self.place.zone_time@, zones@, zones@.len() as int);
            assert forall|i: int, j: int| 0 <= i < j < zones@.len() implies (#[trigger] zones@[i]).1 >= (
            #[trigger] zones@[j]).1 by {
                assert(zones@[i] == sorted[i] && zones@[j] == sorted[j]);
            }
        }
        let mut items: Vec<(String, i64)> = Vec::new();
        let mut k: usize = 0;
        while k < 10
            invariant
                k <= 10,
                self.finds.items@.len() == 10,
                items@.len() == k,
                forall|i: int| 0 <= i < k ==> (#[trigger] items@[i]).0@ == crate::parser::rarity_names()[i]
                    && items@[i].1 == self.finds.items@[i].total,
            decreases 10 - k,
        {
            items.push((copy_str(crate::parser::rarity_label(k)), self.finds.items[k].total));
            k = k + 1;
        }
        let c = &self.character;
        let notable = run_finds(&self.finds.drops);
        let tallies = self.tallies();
        Some(Run {
            started_ms: self.clock.started_ms,
            ended_ms: now.wall_ms,
            secs,
            character: match c {
                Some(c) => Some(copy_str(c.name.as_str())),
                None => None,
            },
            level: match c {
                Some(c) => c.level,
                None => 0,
            },
            difficulty: match c {
                Some(c) => c.difficulty,
                None => 0,
            },
            hell_sub: match c {
                Some(c) => c.hell_sub,
                None => 0,
            },
            herolevel: match c {
                Some(c) => c.herolevel,
                None => 0,
            },
            mf: self.place.mf,
            hardcore: match c {
                Some(c) => c.hardcore,
                None => false,
            },
            season: match c {
                Some(c) => c.season,
                None => 0,
            },
            gold: self.bank.gold_earned,
            xp: self.save.xp_earned,
            kills: self.save.kills_earned,
            items,
            notable,
            zones,
            tallies,
        })
    }
}

/// How long ago a moment was, in whole seconds.
pub open spec fn age_secs(at: Option<u64>, now: u64) -> Option<u64> {
    match at {
        Some(t) => Some((sub0(now, t) / SECOND) as u64),
        None => None,
    }
}

fn age_of(at: Option<u64>, now: u64) -> (r: Option<u64>)
    ensures
        r == age_secs(at, now),
{
    match at {
        Some(t) => Some(now.saturating_sub(t) / SECOND),
        None => None,
    }
}

impl GameStats {
    /// What the panels show, with `status` as the line at the top.
    #[verifier::rlimit(60)]
    pub fn snapshot_at(&self, status: String, now: u64) -> (r: Snapshot)
        requires
            crate::stats::shaped(*self),
        ensures
            snapshot_of(*self, r, status@, now),
    {
        let secs = self.active_secs_at(now);
        let mut resources: Vec<(String, i64)> = Vec::new();
        let mut i: usize = 0;
        while i < 4
            invariant
                i <= 4,
                self.finds.resources@.len() == 4,
                resources@.len() == i,
                forall|j: int| 0 <= j < i ==> (#[trigger] resources@[j]).0@ == resource_kinds()[j] && resources@[j].1
                    == self.finds.resources@[j],
            decreases 4 - i,
        {
            resources.push((copy_str(resource_kind(i)), self.finds.resources[i]));
            i = i + 1;
        }
        let mut items: Vec<(String, ItemStats)> = Vec::new();
        let mut k: usize = 0;
        while k < 10
            invariant
                k <= 10,
                self.finds.items@.len() == 10,
                secs == active_secs(self.clock, now),
                items@.len() == k,
                forall|j: int|
                    0 <= j < k ==> (#[trigger] items@[j]).0@ == crate::parser::rarity_names()[j] && items@[j].1
                        == (ItemStats {
                        total: self.finds.items@[j].total,
                        mf: self.finds.items@[j].mf,
                        per_hour: hourly(self.finds.items@[j].total, secs),
                    }),
            decreases 10 - k,
        {
            let c = self.finds.items[k];
            items.push((copy_str(crate::parser::rarity_label(k)), ItemStats { total: c.total, mf: c.mf, per_hour: hourly_rate(c.total, secs) }));
            k = k + 1;
        }
        let mut notable: Vec<NotableCount> = Vec::new();
        let mut n: usize = 0;
        while n < self.prefs.notable_defs.len()
            invariant
                n <= self.prefs.notable_defs@.len(),
                notable@.len() == n,
                forall|j: int|
                    0 <= j < n ==> (#[trigger] notable@[j]).label@ == self.prefs.notable_defs@[j].0@ && notable@[j].total
                        == match crate::sets::lookup(self.finds.notable@, self.prefs.notable_defs@[j].0@) {
                        Some(v) => v,
                        None => 0,
                    },
            decreases self.prefs.notable_defs@.len() - n,
        {
            let label = self.prefs.notable_defs[n].0.as_str();
            let total = match crate::sets::get_key(&self.finds.notable, label) {
                Some(v) => v,
                None => 0,
            };
            notable.push(NotableCount { label: copy_str(label), total });
            n = n + 1;
        }
        let mut listed: Vec<(String, (usize, i64))> = Vec::new();
        let mut m: usize = 0;
        while m < self.finds.resource_items.len()
            invariant
                m <= self.finds.resource_items@.len(),
                listed@.len() == m,
                forall|k: int| 0 <= k < m ==> (#[trigger] listed@[k]).0@ == self.finds.resource_items@[k].0@
                    && listed@[k].1 == self.finds.resource_items@[k].1,
            decreases self.finds.resource_items@.len() - m,
        {
            let e = &self.finds.resource_items[m];
            listed.push((copy_str(e.0.as_str()), e.1));
            m = m + 1;
        }
        let ghost listed_seq = listed@;
        let sorted = sort_resources(listed);
        proof {
            vstd::seq_lib::to_multiset_len(sorted@);
            vstd::seq_lib::to_multiset_len(listed_seq);
        }
        let mut resource_items: Vec<ResourceCount> = Vec::new();
        let mut q: usize = 0;
        while q < sorted.len()
            invariant
                q <= sorted@.len(),
                resource_items@.len() == q,
                forall|i: int|
                    0 <= i < q ==> ((#[trigger] resource_items@[i]).name@, resource_items@[i].kind@, resource_items@[i].total)
                        == shown_resource(sorted@[i]),
            decreases sorted@.len() - q,
        {
            let e = &sorted[q];
            resource_items.push(ResourceCount { name: copy_str(e.0.as_str()), kind: copy_str(resource_kind(e.1.0)), total: e.1.1 });
            q = q + 1;
        }
        let satanic_zone = match &self.zone.satanic {
            Some(z) => Some(z.copy()),
            None => None,
        };
        let character = match &self.character {
            Some(c) => Some(c.copy()),
            None => None,
        };
        let r = Snapshot {
            status,
            session_secs: secs,
            paused: self.paused(),
            save_age_secs: age_of(self.save.last_save, now),
            bank_age_secs: age_of(self.bank.last_bank, now),
            carried_bank: self.bank.stale_bank,
            carried_totals: self.save.stale_save,
            has_mail: self.has_mail && self.has_mailbox(),
            gold: Line { total: self.bank.total_gold, earned: self.bank.gold_earned, per_hour: hourly_rate(self.bank.gold_earned, secs) },
            xp: Line { total: self.save.total_xp, earned: self.save.xp_earned, per_hour: hourly_rate(self.save.xp_earned, secs) },
            kills: Line { total: self.save.total_kills, earned: self.save.kills_earned, per_hour: hourly_rate(self.save.kills_earned, secs) },
            resources,
            resource_items,
            finished: self.finished,
            notable,
            items,
            satanic_zone,
            satanic_at: self.zone.satanic_at,
            room: crate::stats::copy_opt(&self.place.room),
            act: self.place.act,
            mf: self.place.mf,
            satanic_here: self.place.satanic_here,
            character,
            tallies: self.tallies(),
            ss: self.graded(crate::stats::SS_TIER),
        };
        proof {
            assert(crate::sets::keys_distinct(listed_seq)) by {
                assert forall|i: int, j: int| 0 <= i < j < listed_seq.len() implies (#[trigger] listed_seq[i]).0@
                    != (#[trigger] listed_seq[j]).0@ by {
                    assert(listed_seq[i].0@ == self.finds.resource_items@[i].0@);
                    assert(listed_seq[j].0@ == self.finds.resource_items@[j].0@);
                }
            }
            lemma_names_carry(listed_seq, sorted@);
            lemma_res_strict(sorted@);
        }
        assert(resources_listed(self.finds.resource_items@, listed_seq, sorted@, r.resource_items@));
        r
    }
}

/// What `sample_at` does.
pub open spec fn sampled(a: GameStats, b: GameStats, now: u64) -> bool {
    &&& a.clock.paused_at is Some ==> b == a
    &&& a.clock.paused_at is Some ==> b.series == a.series && b.revision
        == a.revision && b.extra_rev == a.extra_rev
    &&& a.clock.paused_at is None ==> b.revision == bump(a.revision)
    &&& a.clock.paused_at is None && a.series@.len() < SERIES_CAP ==> b.series@
        == a.series@.push(
        SeriesPoint {
            t: active_secs(a.clock, now),
            gold: a.bank.gold_earned,
            xp: a.save.xp_earned,
        },
    ) && b.extra_rev == bump(a.extra_rev)
    &&& a.clock.paused_at is None && a.series@.len() >= SERIES_CAP ==> b.series
        == a.series && b.extra_rev == a.extra_rev
    &&& b.clock == a.clock
    &&& b.place == a.place
    &&& b.bank == a.bank
    &&& b.save == a.save
    &&& b.finds == a.finds
    &&& b.zone == a.zone
    &&& b.prefs == a.prefs
    &&& b.finished == a.finished
}

/// What `finish_at` does.
pub open spec fn finished_run(a: GameStats, b: GameStats, r: Option<Run>, now: crate::stats::Now) -> bool {
    &&& crate::session::room_banked(a.place, b.place, now.mono, Some(now.mono))
    &&& ({
        let secs = active_secs(b.clock, now.mono);
        let b = b;
        let nothing = b.bank.gold_earned == 0 && b.save.xp_earned == 0 && b.save.kills_earned == 0;
        &&& (secs < 60 || nothing) <==> r is None
        &&& r is Some ==> {
            let run = r->0;
            &&& run.secs == secs
            &&& run.started_ms == b.clock.started_ms
            &&& run.ended_ms == now.wall_ms
            &&& run.gold == b.bank.gold_earned
            &&& run.xp == b.save.xp_earned
            &&& run.kills == b.save.kills_earned
            &&& run.mf == b.place.mf
            &&& (run.character is Some == b.character is Some)
            &&& (b.character is Some ==> run.character->0@ == b.character->0.name@
                && run.level == b.character->0.level && run.herolevel == b.character->0.herolevel
                && run.difficulty == b.character->0.difficulty && run.hell_sub == b.character->0.hell_sub
                && run.hardcore == b.character->0.hardcore && run.season == b.character->0.season)
            &&& (b.character is None ==> run.level == 0 && run.herolevel == 0 && run.difficulty == 0
                && run.hell_sub == 0 && !run.hardcore && run.season == 0)
            &&& run.items@.len() == 10
            &&& forall|i: int| 0 <= i < 10 ==> (#[trigger] run.items@[i]).0@ == crate::parser::rarity_names()[i]
                && run.items@[i].1 == b.finds.items@[i].total
            &&& ({
                let all = newest_named(b.finds.drops@, b.finds.drops@.len() as int);
                run_drop_views(run.notable@) == all.take(if all.len() < crate::stats::RUN_DROPS { all.len() as int } else { crate::stats::RUN_DROPS as int })
            })
            &&& zones_sorted(run.zones@)
            &&& ranked_zones(run.zones@, b.place.zone_time@)
            &&& run.zones@.len() == if b.place.zone_time@.len() < 6 { b.place.zone_time@.len() as int } else { 6 }
            &&& tally_views(run.tallies@) == tallies_upto(b.save.tally_earned@, TALLY_COUNT as int)
        }
    })
    &&& b.clock == a.clock
    &&& b.bank == a.bank
    &&& b.save == a.save
    &&& b.finds == a.finds
    &&& b.character == a.character
}

/// What `snapshot_at` does.
pub open spec fn snapshot_of(a: GameStats, r: Snapshot, status: Seq<char>, now: u64) -> bool {
    &&& r.status@ == status
    &&& r.session_secs == active_secs(a.clock, now)
    &&& r.paused == a.clock.paused_at is Some
    &&& r.has_mail == (a.has_mail && a.season_mode != Some(crate::parser::Purse::Gbp))
    &&& r.gold == (Line {
        total: a.bank.total_gold,
        earned: a.bank.gold_earned,
        per_hour: hourly(a.bank.gold_earned, active_secs(a.clock, now)),
    })
    &&& r.xp == (Line {
        total: a.save.total_xp,
        earned: a.save.xp_earned,
        per_hour: hourly(a.save.xp_earned, active_secs(a.clock, now)),
    })
    &&& r.kills == (Line {
        total: a.save.total_kills,
        earned: a.save.kills_earned,
        per_hour: hourly(a.save.kills_earned, active_secs(a.clock, now)),
    })
    &&& r.save_age_secs == age_secs(a.save.last_save, now)
    &&& r.bank_age_secs == age_secs(a.bank.last_bank, now)
    &&& r.carried_bank == a.bank.stale_bank
    &&& r.carried_totals == a.save.stale_save
    &&& r.finished == a.finished
    &&& r.resources@.len() == 4
    &&& forall|i: int| 0 <= i < 4 ==> (#[trigger] r.resources@[i]).0@ == resource_kinds()[i] && r.resources@[i].1
        == a.finds.resources@[i]
    &&& r.items@.len() == 10
    &&& forall|i: int|
        0 <= i < 10 ==> (#[trigger] r.items@[i]).0@ == crate::parser::rarity_names()[i] && r.items@[i].1
            == (ItemStats {
            total: a.finds.items@[i].total,
            mf: a.finds.items@[i].mf,
            per_hour: hourly(a.finds.items@[i].total, active_secs(a.clock, now)),
        })
    &&& r.notable@.len() == a.prefs.notable_defs@.len()
    &&& forall|i: int|
        0 <= i < r.notable@.len() ==> (#[trigger] r.notable@[i]).label@ == a.prefs.notable_defs@[i].0@
            && r.notable@[i].total == match crate::sets::lookup(a.finds.notable@, a.prefs.notable_defs@[i].0@) {
            Some(v) => v,
            None => 0,
        }
    &&& r.resource_items@.len() == a.finds.resource_items@.len()
    &&& exists|copy: Seq<(String, (usize, i64))>, order: Seq<(String, (usize, i64))>|
        #[trigger] resources_listed(a.finds.resource_items@, copy, order, r.resource_items@)
    &&& r.satanic_zone is Some == a.zone.satanic is Some
    &&& r.satanic_zone is Some ==> r.satanic_zone->0.zone@ == a.zone.satanic->0.zone@
        && r.satanic_zone->0.buffs@ == a.zone.satanic->0.buffs@
        && r.satanic_zone->0.debuffs@ == a.zone.satanic->0.debuffs@
    &&& r.satanic_at == a.zone.satanic_at
    &&& crate::finds::opt_view(r.room) == crate::finds::opt_view(a.place.room)
    &&& r.act == a.place.act
    &&& r.mf == a.place.mf
    &&& r.satanic_here == a.place.satanic_here
    &&& r.character is Some == a.character is Some
    &&& r.character is Some ==> {
        let c = r.character->0;
        let d = a.character->0;
        &&& c.name@ == d.name@
        &&& c.level == d.level && c.herolevel == d.herolevel && c.difficulty == d.difficulty
        &&& c.hell_sub == d.hell_sub && c.hardcore == d.hardcore && c.season == d.season
    }
    &&& tally_views(r.tallies@) == tallies_upto(a.save.tally_earned@, TALLY_COUNT as int)
    &&& r.ss == crate::sets::count_of(a.finds.graded@, crate::stats::SS_TIER)
}

} // verus!

//! Sets of strings and lists keyed by a string, kept in vectors.
//!
//! A set is read through `texts`, the set of the strings' contents; a keyed
//! list through `lookup`, which answers from the first entry with the key.

use vstd::prelude::*;
use crate::text::{copy_str, same_text};

verus! {

pub open spec fn has_text(v: Seq<String>, s: Seq<char>) -> bool {
    exists|k: int| 0 <= k < v.len() && (#[trigger] v[k])@ == s
}

/// The contents of a vector of strings, as a set.
pub open spec fn texts(v: Seq<String>) -> Set<Seq<char>> {
    Set::new(|t: Seq<char>| has_text(v, t))
}

/// Whether `s` is in `v`.
pub fn holds(v: &Vec<String>, s: &str) -> (r: bool)
    ensures
        r == has_text(v@, s@),
        r == texts(v@).contains(s@),
{
    let mut i: usize = 0;
    while i < v.len()
        invariant
            i <= v@.len(),
            forall|k: int| 0 <= k < i ==> (#[trigger] v@[k])@ != s@,
        decreases v@.len() - i,
    {
        if same_text(v[i].as_str(), s) {
            return true;
        }
        i = i + 1;
    }
    false
}

/// Puts `s` in the set; answers whether it was new, as `HashSet::insert` does.
pub fn insert_text(v: &mut Vec<String>, s: &str) -> (fresh: bool)
    ensures
        fresh == !texts(old(v)@).contains(s@),
        texts(final(v)@) == texts(old(v)@).insert(s@),
        final(v)@.len() == old(v)@.len() + if fresh { 1int } else { 0int },
{
    if holds(v, s) {
        assert(texts(v@).insert(s@) =~= texts(v@));
        return false;
    }
    let ghost before = v@;
    v.push(copy_str(s));
    assert forall|t: Seq<char>| #[trigger] texts(v@).contains(t) == texts(before).insert(s@).contains(t) by {
        if has_text(before, t) {
            let k = choose|k: int| 0 <= k < before.len() && (#[trigger] before[k])@ == t;
            assert(v@[k] == before[k]);
        }
        if has_text(v@, t) && t != s@ {
            let k = choose|k: int| 0 <= k < v@.len() && (#[trigger] v@[k])@ == t;
            assert(k < before.len());
            assert(v@[k] == before[k]);
        }
        if t == s@ {
            assert(v@[before.len() as int]@ == s@);
        }
    }
    assert(texts(v@) =~= texts(before).insert(s@));
    true
}

/// Takes `s` out of the set; answers whether it was there.
pub fn remove_text(v: &mut Vec<String>, s: &str) -> (was: bool)
    ensures
        was == texts(old(v)@).contains(s@),
        texts(final(v)@) == texts(old(v)@).remove(s@),
        final(v)@.len() <= old(v)@.len(),
{
    let ghost before = v@;
    let mut kept: Vec<String> = Vec::new();
    let mut was = false;
    let mut i: usize = 0;
    while i < v.len()
        invariant
            v@ == before,
            i <= v@.len(),
            kept@.len() <= i,
            was == has_text(v@.take(i as int), s@),
            forall|t: Seq<char>| #[trigger] has_text(kept@, t) == (t != s@ && has_text(v@.take(i as int), t)),
        decreases v@.len() - i,
    {
        let ghost old_kept = kept@;
        let ghost prefix = v@.take(i as int);
        let ghost next = v@.take(i + 1);
        assert(next == prefix.push(v@[i as int]));
        assert forall|t: Seq<char>| #[trigger] has_text(next, t) == (has_text(prefix, t) || v@[i as int]@ == t) by {
            if has_text(next, t) {
                let k = choose|k: int| 0 <= k < next.len() && (#[trigger] next[k])@ == t;
                if k < prefix.len() {
                    assert(prefix[k] == next[k]);
                }
            }
            if has_text(prefix, t) {
                let k = choose|k: int| 0 <= k < prefix.len() && (#[trigger] prefix[k])@ == t;
                assert(next[k] == prefix[k]);
            }
            if v@[i as int]@ == t {
                assert(next[i as int] == v@[i as int]);
            }
        }
        if same_text(v[i].as_str(), s) {
            was = true;
        } else {
            kept.push(copy_str(v[i].as_str()));
            assert forall|t: Seq<char>| #[trigger] has_text(kept@, t) == (has_text(old_kept, t) || v@[i as int]@ == t) by {
                if has_text(kept@, t) {
                    let k = choose|k: int| 0 <= k < kept@.len() && (#[trigger] kept@[k])@ == t;
                    if k < old_kept.len() {
                        assert(old_kept[k] == kept@[k]);
                    }
                }
                if has_text(old_kept, t) {
                    let k = choose|k: int| 0 <= k < old_kept.len() && (#[trigger] old_kept[k])@ == t;
                    assert(kept@[k] == old_kept[k]);
                }
                if v@[i as int]@ == t {
                    assert(kept@[old_kept.len() as int]@ == t);
                }
            }
        }
        i = i + 1;
    }
    assert(v@.take(v@.len() as int) == v@);
    *v = kept;
    assert(texts(v@) =~= texts(before).remove(s@));
    was
}

/// Empties a set.
pub fn clear_texts(v: &mut Vec<String>)
    ensures
        final(v)@.len() == 0,
        texts(final(v)@) == Set::<Seq<char>>::empty(),
{
    v.clear();
    assert(texts(v@) =~= Set::<Seq<char>>::empty());
}

// ---------------------------------------------------------------------------
// Keyed lists
// ---------------------------------------------------------------------------

/// The first entry of `v` with key `k`.
pub open spec fn first_key<V>(v: Seq<(String, V)>, k: Seq<char>) -> Option<int> {
    if exists|i: int| 0 <= i < v.len() && (#[trigger] v[i]).0@ == k {
        Some(
            choose|i: int|
                0 <= i < v.len() && (#[trigger] v[i]).0@ == k && forall|j: int|
                    0 <= j < i ==> (#[trigger] v[j]).0@ != k,
        )
    } else {
        None
    }
}

/// What `v` holds under `k`.
pub open spec fn lookup<V>(v: Seq<(String, V)>, k: Seq<char>) -> Option<V> {
    match first_key(v, k) {
        Some(i) => Some(v[i].1),
        None => None,
    }
}

proof fn lemma_least_witness<V>(v: Seq<(String, V)>, k: Seq<char>, i: int)
    requires
        0 <= i < v.len(),
        v[i].0@ == k,
    ensures
        exists|m: int|
            0 <= m <= i && (#[trigger] v[m]).0@ == k && forall|j: int| 0 <= j < m ==> (#[trigger] v[j]).0@ != k,
    decreases i,
{
    if exists|j: int| 0 <= j < i && (#[trigger] v[j]).0@ == k {
        let j = choose|j: int| 0 <= j < i && (#[trigger] v[j]).0@ == k;
        lemma_least_witness(v, k, j);
    } else {
        assert(forall|j: int| 0 <= j < i ==> (#[trigger] v[j]).0@ != k);
    }
}

/// What `first_key` answers, spelled out.
pub proof fn lemma_first_key_props<V>(v: Seq<(String, V)>, k: Seq<char>)
    ensures
        match first_key(v, k) {
            Some(f) => 0 <= f < v.len() && v[f].0@ == k && forall|j: int|
                0 <= j < f ==> (#[trigger] v[j]).0@ != k,
            None => forall|j: int| 0 <= j < v.len() ==> (#[trigger] v[j]).0@ != k,
        },
{
    if exists|i: int| 0 <= i < v.len() && (#[trigger] v[i]).0@ == k {
        let i = choose|i: int| 0 <= i < v.len() && (#[trigger] v[i]).0@ == k;
        lemma_least_witness(v, k, i);
    }
}

pub proof fn lemma_first_key<V>(v: Seq<(String, V)>, k: Seq<char>, i: int)
    requires
        0 <= i < v.len(),
        v[i].0@ == k,
        forall|j: int| 0 <= j < i ==> (#[trigger] v[j]).0@ != k,
    ensures
        first_key(v, k) == Some(i),
{
    lemma_first_key_props(v, k);
    let f = first_key(v, k).unwrap();
    if f < i {
        assert(v[f].0@ != k);
    }
    if f > i {
        assert(v[i].0@ != k);
    }
}

/// Two keyed lists whose keys agree everywhere and whose values agree outside
/// `skip` answer alike for every key but the one at `skip`.
proof fn lemma_lookup_agrees<V>(a: Seq<(String, V)>, b: Seq<(String, V)>, k2: Seq<char>)
    requires
        b.len() >= a.len(),
        forall|j: int| 0 <= j < a.len() ==> (#[trigger] b[j]).0@ == a[j].0@,
        forall|j: int| a.len() <= j < b.len() ==> (#[trigger] b[j]).0@ != k2,
        forall|j: int| 0 <= j < a.len() && (#[trigger] a[j]).0@ == k2 ==> b[j].1 == a[j].1,
    ensures
        lookup(b, k2) == lookup(a, k2),
{
    lemma_first_key_props(a, k2);
    lemma_first_key_props(b, k2);
    match first_key(a, k2) {
        Some(f) => {
            assert forall|j: int| 0 <= j < f implies (#[trigger] b[j]).0@ != k2 by {
                assert(b[j].0@ == a[j].0@);
            }
            assert(b[f].0@ == a[f].0@);
            lemma_first_key(b, k2, f);
        },
        None => {
            if first_key(b, k2) is Some {
                let g = first_key(b, k2).unwrap();
                if g < a.len() {
                    assert(b[g].0@ == a[g].0@);
                }
            }
        },
    }
}

/// Where `k` first stands in `v`.
pub fn find_key<V>(v: &Vec<(String, V)>, k: &str) -> (r: Option<usize>)
    ensures
        match r {
            Some(i) => first_key(v@, k@) == Some(i as int) && i < v@.len(),
            None => first_key(v@, k@) is None,
        },
{
    let mut i: usize = 0;
    while i < v.len()
        invariant
            i <= v@.len(),
            forall|j: int| 0 <= j < i ==> (#[trigger] v@[j]).0@ != k@,
        decreases v@.len() - i,
    {
        if same_text(v[i].0.as_str(), k) {
            proof {
                lemma_first_key(v@, k@, i as int);
            }
            return Some(i);
        }
        i = i + 1;
    }
    None
}

/// What `v` holds under `k`.
pub fn get_key<V: Copy>(v: &Vec<(String, V)>, k: &str) -> (r: Option<V>)
    ensures
        r == lookup(v@, k@),
{
    match find_key(v, k) {
        Some(i) => Some(v[i].1),
        None => None,
    }
}

/// No key occurs twice in a keyed list.
pub open spec fn keys_distinct<V>(s: Seq<(String, V)>) -> bool {
    forall|i: int, j: int| 0 <= i < j < s.len() ==> (#[trigger] s[i]).0@ != (#[trigger] s[j]).0@
}

/// Whether no key occurs twice in a keyed list.
pub fn has_distinct_keys<V>(v: &Vec<(String, V)>) -> (r: bool)
    ensures
        r == keys_distinct(v@),
{
    let n = v.len();
    let mut j: usize = 1;
    while j < n
        invariant
            n == v@.len(),
            1 <= j || n == 0,
            j <= n || n == 0,
            forall|a: int, b: int| 0 <= a < b < j && b < n ==> (#[trigger] v@[a]).0@ != (#[trigger] v@[b]).0@,
        decreases n - j,
    {
        let mut i: usize = 0;
        while i < j
            invariant
                n == v@.len(),
                1 <= j < n,
                i <= j,
                forall|a: int, b: int| 0 <= a < b < j ==> (#[trigger] v@[a]).0@ != (#[trigger] v@[b]).0@,
                forall|a: int| 0 <= a < i ==> (#[trigger] v@[a]).0@ != v@[j as int].0@,
            decreases j - i,
        {
            if crate::text::same_text(v[i].0.as_str(), v[j].0.as_str()) {
                return false;
            }
            i = i + 1;
        }
        j = j + 1;
    }
    true
}

/// A keyed list with `k` set to `val`; other keys keep what they had.
pub fn put_key<V: Copy>(v: &mut Vec<(String, V)>, k: &str, val: V)
    ensures
        lookup(final(v)@, k@) == Some(val),
        keys_distinct(old(v)@) ==> keys_distinct(final(v)@),
        forall|k2: Seq<char>| k2 != k@ ==> #[trigger] lookup(final(v)@, k2) == lookup(old(v)@, k2),
        final(v)@.len() <= old(v)@.len() + 1,
{
    let ghost before = v@;
    match find_key(v, k) {
        Some(i) => {
            proof {
                lemma_first_key_props(before, k@);
            }
            let key = copy_str(v[i].0.as_str());
            v.set(i, (key, val));
            proof {
                assert forall|j: int| 0 <= j < before.len() implies (#[trigger] v@[j]).0@ == before[j].0@ by {
                    if j != i {
                        assert(v@[j] == before[j]);
                    }
                }
                assert forall|j: int| 0 <= j < i implies (#[trigger] v@[j]).0@ != k@ by {
                    assert(v@[j].0@ == before[j].0@);
                }
                lemma_first_key(v@, k@, i as int);
                assert forall|k2: Seq<char>| k2 != k@ implies #[trigger] lookup(v@, k2) == lookup(before, k2) by {
                    assert forall|j: int| 0 <= j < before.len() && (#[trigger] before[j]).0@ == k2 implies v@[j].1 == before[j].1 by {
                        assert(j != i);
                        assert(v@[j] == before[j]);
                    }
                    lemma_lookup_agrees(before, v@, k2);
                }
            }
        },
        None => {
            proof {
                lemma_first_key_props(before, k@);
            }
            v.push((copy_str(k), val));
            proof {
                let n = before.len() as int;
                assert forall|j: int| 0 <= j < n implies (#[trigger] v@[j]).0@ == before[j].0@ && v@[j].1 == before[j].1 by {
                    assert(v@[j] == before[j]);
                }
                assert forall|j: int| 0 <= j < n implies (#[trigger] v@[j]).0@ != k@ by {
                    assert(v@[j] == before[j]);
                }
                lemma_first_key(v@, k@, n);
                assert forall|k2: Seq<char>| k2 != k@ implies #[trigger] lookup(v@, k2) == lookup(before, k2) by {
                    lemma_lookup_agrees(before, v@, k2);
                }
            }
        },
    }
}

/// A copy of a keyed list.
pub fn copy_keyed<V: Copy>(v: &Vec<(String, V)>) -> (out: Vec<(String, V)>)
    ensures
        out@.len() == v@.len(),
        forall|j: int| 0 <= j < v@.len() ==> (#[trigger] out@[j]).0@ == v@[j].0@ && out@[j].1 == v@[j].1,
        forall|k: Seq<char>| #[trigger] lookup(out@, k) == lookup(v@, k),
{
    let mut out: Vec<(String, V)> = Vec::new();
    let mut i: usize = 0;
    while i < v.len()
        invariant
            i <= v@.len(),
            out@.len() == i,
            forall|j: int| 0 <= j < i ==> (#[trigger] out@[j]).0@ == v@[j].0@ && out@[j].1 == v@[j].1,
        decreases v@.len() - i,
    {
        out.push((copy_str(v[i].0.as_str()), v[i].1));
        i = i + 1;
    }
    assert forall|k: Seq<char>| #[trigger] lookup(out@, k) == lookup(v@, k) by {
        lemma_lookup_agrees(v@, out@, k);
    }
    out
}

/// A copy of a vector of strings.
pub fn copy_texts(v: &Vec<String>) -> (out: Vec<String>)
    ensures
        out@.len() == v@.len(),
        forall|j: int| 0 <= j < v@.len() ==> (#[trigger] out@[j])@ == v@[j]@,
{
    let mut out: Vec<String> = Vec::new();
    let mut i: usize = 0;
    while i < v.len()
        invariant
            i <= v@.len(),
            out@.len() == i,
            forall|j: int| 0 <= j < i ==> (#[trigger] out@[j])@ == v@[j]@,
        decreases v@.len() - i,
    {
        out.push(copy_str(v[i].as_str()));
        i = i + 1;
    }
    out
}

// ---------------------------------------------------------------------------
// Counts keyed by a number
// ---------------------------------------------------------------------------

/// What `v` counts under `k`: the first entry with the key, or 0.
pub open spec fn count_of(v: Seq<(i64, i64)>, k: i64) -> i64
    decreases v.len(),
{
    if v.len() == 0 {
        0
    } else if v[0].0 == k {
        v[0].1
    } else {
        count_of(v.drop_first(), k)
    }
}

pub fn count_in(v: &Vec<(i64, i64)>, k: i64) -> (r: i64)
    ensures
        r == count_of(v@, k),
{
    let mut i: usize = 0;
    assert(v@.skip(0) == v@);
    while i < v.len()
        invariant
            i <= v@.len(),
            count_of(v@, k) == count_of(v@.skip(i as int), k),
        decreases v@.len() - i,
    {
        proof {
            assert(v@.skip(i as int).drop_first() == v@.skip(i + 1));
        }
        if v[i].0 == k {
            return v[i].1;
        }
        i = i + 1;
    }
    0
}

proof fn lemma_count_set(v: Seq<(i64, i64)>, i: int, k: i64, val: i64, k2: i64)
    requires
        0 <= i < v.len(),
        v[i].0 == k,
        forall|j: int| 0 <= j < i ==> v[j].0 != k,
    ensures
        count_of(v.update(i, (k, val)), k) == val,
        k2 != k ==> count_of(v.update(i, (k, val)), k2) == count_of(v, k2),
    decreases i,
{
    if i > 0 {
        lemma_count_set(v.drop_first(), i - 1, k, val, k2);
        assert(v.update(i, (k, val)).drop_first() == v.drop_first().update(i - 1, (k, val)));
        assert(v.update(i, (k, val))[0] == v[0]);
    } else {
        assert(v.update(0, (k, val)).drop_first() == v.drop_first());
    }
}

proof fn lemma_count_push(v: Seq<(i64, i64)>, k: i64, val: i64, k2: i64)
    requires
        forall|j: int| 0 <= j < v.len() ==> v[j].0 != k,
    ensures
        count_of(v.push((k, val)), k) == val,
        k2 != k ==> count_of(v.push((k, val)), k2) == count_of(v, k2),
    decreases v.len(),
{
    if v.len() > 0 {
        assert forall|j: int| 0 <= j < v.drop_first().len() implies v.drop_first()[j].0 != k by {
            assert(v.drop_first()[j] == v[j + 1]);
        }
        lemma_count_push(v.drop_first(), k, val, k2);
        let w = v.push((k, val));
        assert(w.drop_first() == v.drop_first().push((k, val)));
        assert(w[0] == v[0]);
        if v[0].0 != k2 && k2 != k {
            assert(count_of(w, k2) == count_of(w.drop_first(), k2));
            assert(count_of(v, k2) == count_of(v.drop_first(), k2));
        }
    } else {
        let w = v.push((k, val));
        assert(w.drop_first() == Seq::<(i64, i64)>::empty());
        assert(count_of(w.drop_first(), k2) == 0);
        assert(count_of(v, k2) == 0);
    }
}

/// Adds `n` to what `v` counts under `k`, held at the ends of the range.
pub fn count_add(v: &mut Vec<(i64, i64)>, k: i64, n: i64)
    ensures
        count_of(final(v)@, k) == crate::json::clamp_i64(count_of(old(v)@, k) + n),
        forall|k2: i64| k2 != k ==> #[trigger] count_of(final(v)@, k2) == count_of(old(v)@, k2),
{
    let ghost before = v@;
    let mut i: usize = 0;
    assert(v@.skip(0) == v@);
    while i < v.len()
        invariant
            v@ == before,
            before == old(v)@,
            i <= v@.len(),
            forall|j: int| 0 <= j < i ==> v@[j].0 != k,
            count_of(v@, k) == count_of(v@.skip(i as int), k),
        decreases v@.len() - i,
    {
        proof {
            assert(v@.skip(i as int).drop_first() == v@.skip(i + 1));
        }
        if v[i].0 == k {
            let s = v[i].1 as i128 + n as i128;
            let val: i64 = if s > i64::MAX as i128 {
                i64::MAX
            } else if s < i64::MIN as i128 {
                i64::MIN
            } else {
                s as i64
            };
            proof {
                assert(v@.skip(i as int)[0] == v@[i as int]);
                assert(count_of(before, k) == before[i as int].1);
                assert(val == crate::json::clamp_i64(before[i as int].1 + n));
            }
            v.set(i, (k, val));
            proof {
                assert(v@ == before.update(i as int, (k, val)));
                assert forall|k2: i64| k2 != k implies #[trigger] count_of(v@, k2) == count_of(before, k2) by {
                    lemma_count_set(before, i as int, k, val, k2);
                }
                lemma_count_set(before, i as int, k, val, k);
            }
            return;
        }
        i = i + 1;
    }
    proof {
        assert(v@.skip(v@.len() as int).len() == 0);
    }
    let val: i64 = n;
    v.push((k, val));
    proof {
        assert forall|k2: i64| k2 != k implies #[trigger] count_of(v@, k2) == count_of(before, k2) by {
            lemma_count_push(before, k, val, k2);
        }
        lemma_count_push(before, k, val, k);
    }
}

} // verus!

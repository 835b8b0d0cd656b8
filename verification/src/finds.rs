//! What a drop is worth hearing about: the custom lists, the hunted relics,
//! the alert and flourish rules, and the notable counters.

use vstd::prelude::*;
use crate::catalog::Known;
use crate::sets::{has_text, holds};
use crate::stats::{bump, bumped, sat_add, DropEntry, GameStats, Listed, Now, RELIC, rule_takes};
use crate::sets::texts;
use crate::parser::account_of;

use crate::json::clamp_i64;
use crate::text::decimal_text;
use crate::text::{contains, chars_of, copy_str, lowercase, contains_text, same_text, to_lower};

verus! {

/// `s` with every trailing " rune" taken off, as `trim_end_matches` does.
pub open spec fn bare_name(s: Seq<char>) -> Seq<char>
    decreases s.len(),
{
    if s.len() >= 5 && s.skip(s.len() - 5) == " rune"@ {
        bare_name(s.take(s.len() - 5))
    } else {
        s
    }
}

fn strip_runes(s: &str) -> (r: Vec<char>)
    ensures
        r@ == bare_name(s@),
{
    let mut v = chars_of(s);
    let suffix = [' ', 'r', 'u', 'n', 'e'];
    proof {
        reveal_strlit(" rune");
        assert(suffix@ == " rune"@);
    }
    loop
        invariant
            suffix@ == " rune"@,
            bare_name(v@) == bare_name(s@),
        decreases v@.len(),
    {
        let n = v.len();
        if n < 5 {
            return v;
        }
        let mut tail_matches = true;
        let mut k: usize = 0;
        while k < 5
            invariant
                n == v@.len(),
                n >= 5,
                k <= 5,
                suffix@ == " rune"@,
                tail_matches == forall|j: int| 0 <= j < k ==> v@[n - 5 + j] == suffix@[j],
            decreases 5 - k,
        {
            if v[n - 5 + k] != suffix[k] {
                tail_matches = false;
            }
            k = k + 1;
        }
        proof {
            if tail_matches {
                assert(v@.skip(n - 5) =~= " rune"@);
            } else {
                let j = choose|j: int| 0 <= j < 5 && v@[n - 5 + j] != suffix@[j];
                assert(v@.skip(n - 5)[j] != " rune"@[j]);
            }
        }
        if !tail_matches {
            return v;
        }
        let ghost before = v@;
        v.truncate(n - 5);
        assert(v@ == before.take(n - 5));
    }
}

/// Which notable counter a lowered name belongs to: the first whose names
/// hold it, a rune counting under either spelling.
pub open spec fn name_fits(n: Seq<char>, lower: Seq<char>) -> bool {
    n == lower || bare_name(n) == bare_name(lower)
}

pub open spec fn def_holds(d: (String, Vec<String>), lower: Seq<char>) -> bool {
    exists|j: int| 0 <= j < d.1@.len() && name_fits((#[trigger] d.1@[j])@, lower)
}

pub open spec fn notable_label(defs: Seq<(String, Vec<String>)>, lower: Seq<char>) -> Option<int> {
    if exists|k: int| 0 <= k < defs.len() && def_holds(#[trigger] defs[k], lower) {
        Some(choose|k: int| 0 <= k < defs.len() && def_holds(#[trigger] defs[k], lower) && forall|j: int|
            0 <= j < k ==> !def_holds(#[trigger] defs[j], lower))
    } else {
        None
    }
}

proof fn lemma_notable_label(defs: Seq<(String, Vec<String>)>, lower: Seq<char>, k: int)
    requires
        0 <= k < defs.len(),
        def_holds(defs[k], lower),
        forall|j: int| 0 <= j < k ==> !def_holds(#[trigger] defs[j], lower),
    ensures
        notable_label(defs, lower) == Some(k),
{
    let f = notable_label(defs, lower)->0;
    if f < k {
        assert(!def_holds(defs[f], lower));
    }
    if f > k {
        assert(!def_holds(defs[k], lower));
    }
}

fn def_label_holds(d: &(String, Vec<String>), lower: &str, bare: &Vec<char>) -> (r: bool)
    requires
        bare@ == bare_name(lower@),
    ensures
        r == def_holds(*d, lower@),
{
    let mut j: usize = 0;
    while j < d.1.len()
        invariant
            j <= d.1@.len(),
            bare@ == bare_name(lower@),
            forall|i: int| 0 <= i < j ==> !name_fits((#[trigger] d.1@[i])@, lower@),
        decreases d.1@.len() - j,
    {
        let n = d.1[j].as_str();
        if same_text(n, lower) {
            return true;
        }
        let nb = strip_runes(n);
        if crate::text::same_chars(nb.as_slice(), bare.as_slice()) {
            return true;
        }
        j = j + 1;
    }
    false
}

/// The rarity the tables give a name, where the name alone can say.
pub open spec fn table_rarity(c: crate::catalog::Catalog, name: Seq<char>) -> Option<Seq<char>> {
    if !crate::catalog::muddled_in(c.items@, name) && crate::catalog::claimant(c.items@, name) is Some {
        Some(c.items@[crate::catalog::claimant(c.items@, name)->0].rarity@)
    } else {
        None
    }
}

/// Whether a list takes a drop: by its name, by the name qualified with the
/// item's rarity, or by one of its rules.
pub open spec fn list_hits(
    l: Listed,
    lower: Seq<char>,
    qualified: Option<Seq<char>>,
    rarity: Option<Seq<char>>,
    t: i64,
    w: i64,
) -> bool {
    ||| has_text(l.names@, lower)
    ||| (qualified is Some && has_text(l.names@, qualified->0))
    ||| exists|r: int| 0 <= r < l.rules@.len() && rule_takes(#[trigger] l.rules@[r], rarity, t, w)
}

/// The first list that takes the drop.
pub open spec fn first_hit(
    lists: Seq<Listed>,
    lower: Seq<char>,
    qualified: Option<Seq<char>>,
    rarity: Option<Seq<char>>,
    t: i64,
    w: i64,
) -> Option<int> {
    if exists|k: int| 0 <= k < lists.len() && list_hits(#[trigger] lists[k], lower, qualified, rarity, t, w) {
        Some(choose|k: int|
            0 <= k < lists.len() && list_hits(#[trigger] lists[k], lower, qualified, rarity, t, w) && forall|j: int|
                0 <= j < k ==> !list_hits(#[trigger] lists[j], lower, qualified, rarity, t, w))
    } else {
        None
    }
}

/// The rarity the rules of the lists are asked about: the tables' answer by
/// identity, else by name, lowered; asked only where some list has a rule.
pub open spec fn rule_rarity(s: GameStats, name: Seq<char>, known: Option<(Seq<char>, i64)>) -> Option<Seq<char>> {
    if exists|k: int| 0 <= k < s.prefs.sound_lists@.len() && (#[trigger] s.prefs.sound_lists@[k]).rules@.len() > 0 {
        match known {
            Some(k) => Some(lowercase(k.0)),
            None => match table_rarity(s.catalog, name) {
                Some(r) => Some(lowercase(r)),
                None => None,
            },
        }
    } else {
        None
    }
}

/// The name qualified with the rarity the identity gives it, as a list may
/// spell it: `essence vault (angelic)`.
pub open spec fn qualified_name(name: Seq<char>, known: Option<(Seq<char>, i64)>) -> Option<Seq<char>> {
    match known {
        Some(k) => Some(lowercase(name) + " ("@ + lowercase(k.0) + ")"@),
        None => None,
    }
}

/// Which list the drop is on, by its key.
pub open spec fn listed_key(s: GameStats, name: Seq<char>, known: Option<(Seq<char>, i64)>, t: i64, w: i64) -> Option<Seq<char>> {
    if name.len() == 0 {
        None
    } else {
        match first_hit(
            s.prefs.sound_lists@,
            lowercase(name),
            qualified_name(name, known),
            rule_rarity(s, name, known),
            t,
            w,
        ) {
            Some(k) => Some(s.prefs.sound_lists@[k].key@),
            None => None,
        }
    }
}

/// Whether a drop is a relic the player is hunting.
pub open spec fn hunted(s: GameStats, t: i64, id: i64) -> bool {
    t == RELIC && s.prefs.relics@.len() > 0 && 0 <= id <= 65535 && s.prefs.relics@.contains(id as u16)
}

/// The rules the flourish answers to, which are not the alert's.
pub open spec fn flourish_rule(
    p: crate::stats::Prefs,
    rarity: Seq<char>,
    tier: i64,
    listed: bool,
    relic: bool,
    resource: bool,
    codex: bool,
) -> bool {
    if relic {
        p.fx_relic
    } else if resource && listed {
        true
    } else if resource {
        false
    } else if p.fx_listed && listed {
        true
    } else if codex {
        p.fx_codex
    } else {
        has_text(p.fx_rarities@, rarity) && (tier >= p.fx_tier || p.fx_tier <= 1)
    }
}

/// Containers: matched by name, the seven share it.
pub open spec fn container(name: Seq<char>) -> bool {
    contains_text(lowercase(name), "essence vault"@)
}

pub fn is_container(name: &str) -> (r: bool)
    ensures
        r == container(name@),
{
    let low = to_lower(name);
    let hay = chars_of(low.as_str());
    let needle = chars_of("essence vault");
    contains(hay.as_slice(), needle.as_slice())
}

/// A find counted under the notable label its name belongs to, if any.
pub open spec fn notable_counted(
    defs: Seq<(String, Vec<String>)>,
    a: Vec<(String, i64)>,
    b: Vec<(String, i64)>,
    name: Seq<char>,
    amount: i64,
) -> bool {
    let lower = lowercase(name);
    if name.len() > 0 && notable_label(defs, lower) is Some {
        let label = defs[notable_label(defs, lower)->0].0@;
        &&& crate::sets::lookup(b@, label) == Some(
            crate::json::clamp_i64(
                match crate::sets::lookup(a@, label) {
                    Some(v) => v,
                    None => 0,
                } + amount,
            ) as i64,
        )
        &&& forall|k: Seq<char>| k != label ==> #[trigger] crate::sets::lookup(b@, k) == crate::sets::lookup(a@, k)
    } else {
        b == a
    }
}

impl GameStats {
    /// Adds `amount` to the notable counter the name belongs to, if any.
    pub fn count_notable(&mut self, name: &str, amount: i64)
        ensures
            notable_counted(
                old(self).prefs.notable_defs@,
                old(self).finds.notable,
                final(self).finds.notable,
                name@,
                amount,
            ),
            final(self).finds.items == old(self).finds.items,
            final(self).finds.graded == old(self).finds.graded,
            final(self).finds.resources == old(self).finds.resources,
            final(self).finds.resource_items == old(self).finds.resource_items,
            final(self).finds.seen == old(self).finds.seen,
            final(self).finds.tier_seen == old(self).finds.tier_seen,
            final(self).finds.counted == old(self).finds.counted,
            final(self).finds.told == old(self).finds.told,
            final(self).finds.let_go == old(self).finds.let_go,
            final(self).finds.announced_at == old(self).finds.announced_at,
            final(self).finds.drops == old(self).finds.drops,
            final(self).clock == old(self).clock,
            final(self).place == old(self).place,
            final(self).bank == old(self).bank,
            final(self).save == old(self).save,
            final(self).zone == old(self).zone,
            final(self).prefs == old(self).prefs,
            final(self).catalog == old(self).catalog,
            final(self).account == old(self).account,
            final(self).character == old(self).character,
            final(self).revision == old(self).revision,
            final(self).extra_rev == old(self).extra_rev,
            final(self).series == old(self).series,
            final(self).finished == old(self).finished,
            final(self).has_mail == old(self).has_mail,
            final(self).mail_known == old(self).mail_known,
            final(self).season_mode == old(self).season_mode,
    {
        if name.is_empty() {
            return;
        }
        let lower = to_lower(name);
        let bare = strip_runes(lower.as_str());
        let found = self.notable_index(lower.as_str(), &bare);
        assert(lower@ == lowercase(name@));
        if let Some(k) = found {
            let label = copy_str(self.prefs.notable_defs[k].0.as_str());
            let had = match crate::sets::get_key(&self.finds.notable, label.as_str()) {
                Some(v) => v,
                None => 0,
            };
            let total = crate::stats::sat_add(had, amount);
            crate::sets::put_key(&mut self.finds.notable, label.as_str(), total);
        }
    }

    fn notable_index(&self, lower: &str, bare: &Vec<char>) -> (r: Option<usize>)
        requires
            bare@ == bare_name(lower@),
        ensures
            match r {
                Some(k) => notable_label(self.prefs.notable_defs@, lower@) == Some(k as int) && k
                    < self.prefs.notable_defs@.len(),
                None => notable_label(self.prefs.notable_defs@, lower@) is None,
            },
    {
        let mut k: usize = 0;
        let n = self.prefs.notable_defs.len();
        while k < n
            invariant
                n == self.prefs.notable_defs@.len(),
                k <= n,
                bare@ == bare_name(lower@),
                forall|j: int| 0 <= j < k ==> !def_holds(#[trigger] self.prefs.notable_defs@[j], lower@),
            decreases n - k,
        {
            if def_label_holds(&self.prefs.notable_defs[k], lower, bare) {
                proof {
                    lemma_notable_label(self.prefs.notable_defs@, lower@, k as int);
                }
                return Some(k);
            }
            k = k + 1;
        }
        None
    }

    /// A minimum tier is a promise to stay quiet about anything lesser.
    pub fn passes_filter(&self, rarity: &str, tier: i64) -> (r: bool)
        ensures
            r == (has_text(self.prefs.alerts@, rarity@) && tier >= self.prefs.min_tier),
    {
        holds(&self.prefs.alerts, rarity) && tier >= self.prefs.min_tier
    }

    /// The flourish's own question: D means any grade, a list is enough when
    /// the flourish follows the lists, and relics, codexes and resources have
    /// switches of their own.
    pub fn worth_a_flourish(
        &self,
        rarity: &str,
        tier: i64,
        listed: bool,
        relic: bool,
        resource: bool,
        codex: bool,
    ) -> (r: bool)
        ensures
            r == flourish_rule(self.prefs, rarity@, tier, listed, relic, resource, codex),
    {
        if relic {
            return self.prefs.fx_relic;
        }
        if resource && listed {
            return true;
        }
        if resource {
            return false;
        }
        if self.prefs.fx_listed && listed {
            return true;
        }
        if codex {
            return self.prefs.fx_codex;
        }
        let graded = tier >= self.prefs.fx_tier || self.prefs.fx_tier <= 1;
        holds(&self.prefs.fx_rarities, rarity) && graded
    }

    /// Whether this drop is a relic the player is hunting, answered into the
    /// same slot as a list.
    pub fn hunted_relic(&self, item_type: i64, item_id: i64) -> (r: Option<String>)
        ensures
            hunted(*self, item_type, item_id) ==> r is Some && r->0@ == "relic"@,
            !hunted(*self, item_type, item_id) ==> r is None,
    {
        if item_type != RELIC || self.prefs.relics.len() == 0 {
            return None;
        }
        if item_id < 0 || item_id > 65535 {
            return None;
        }
        let id = item_id as u16;
        let mut i: usize = 0;
        while i < self.prefs.relics.len()
            invariant
                i <= self.prefs.relics@.len(),
                item_type == RELIC,
                self.prefs.relics@.len() > 0,
                0 <= item_id <= 65535,
                id == item_id as u16,
                forall|j: int| 0 <= j < i ==> self.prefs.relics@[j] != id,
            decreases self.prefs.relics@.len() - i,
        {
            if self.prefs.relics[i] == id {
                assert(self.prefs.relics@.contains(id));
                return Some(copy_str("relic"));
            }
            i = i + 1;
        }
        None
    }

    /// Which list this drop is on, if any: the first that takes it.
    pub fn listed_sound(&self, name: &str, known: Option<&Known>, item_type: i64, weapon_type: i64) -> (r: Option<String>)
        ensures
            match listed_key(*self, name@, known_view(known), item_type, weapon_type) {
                Some(key) => r is Some && r->0@ == key,
                None => r is None,
            },
    {
        if name.is_empty() {
            return None;
        }
        let lower = to_lower(name);
        let qualified: Option<String> = match known {
            Some(k) => {
                let mut q = copy_str(lower.as_str());
                q.append(" (");
                let kr = to_lower(k.rarity.as_str());
                q.append(kr.as_str());
                q.append(")");
                Some(q)
            },
            None => None,
        };
        let ghost kn = known_view(known);
        assert(opt_view(qualified) == qualified_name(name@, kn));
        let mut any_rules = false;
        let mut i: usize = 0;
        while i < self.prefs.sound_lists.len()
            invariant
                i <= self.prefs.sound_lists@.len(),
                any_rules == exists|k: int| 0 <= k < i && (#[trigger] self.prefs.sound_lists@[k]).rules@.len() > 0,
            decreases self.prefs.sound_lists@.len() - i,
        {
            if self.prefs.sound_lists[i].rules.len() > 0 {
                any_rules = true;
            }
            i = i + 1;
        }
        let rarity: Option<String> = if any_rules {
            match known {
                Some(k) => Some(to_lower(k.rarity.as_str())),
                None => match self.catalog.rarity_by_name(name) {
                    Some(r) => Some(to_lower(r.as_str())),
                    None => None,
                },
            }
        } else {
            None
        };
        assert(opt_view(rarity) == rule_rarity(*self, name@, kn));
        match first_list(&self.prefs.sound_lists, lower.as_str(), &qualified, &rarity, item_type, weapon_type) {
            Some(k) => Some(copy_str(self.prefs.sound_lists[k].key.as_str())),
            None => None,
        }
    }
}

/// What the tables' answer about an item comes to: its rarity and its grade.
pub open spec fn known_view(k: Option<&Known>) -> Option<(Seq<char>, i64)> {
    match k {
        Some(k) => Some((k.rarity@, k.tier)),
        None => None,
    }
}

/// What an optional string says.
pub open spec fn opt_view(o: Option<String>) -> Option<Seq<char>> {
    match o {
        Some(s) => Some(s@),
        None => None,
    }
}

/// Whether one list takes the drop.
fn list_takes(
    l: &Listed,
    lower: &str,
    qualified: &Option<String>,
    rarity: &Option<String>,
    t: i64,
    w: i64,
) -> (r: bool)
    ensures
        r == list_hits(*l, lower@, opt_view(*qualified), opt_view(*rarity), t, w),
{
    if holds(&l.names, lower) {
        return true;
    }
    if let Some(q) = qualified {
        if holds(&l.names, q.as_str()) {
            return true;
        }
    }
    let mut r: usize = 0;
    while r < l.rules.len()
        invariant
            r <= l.rules@.len(),
            forall|j: int| 0 <= j < r ==> !rule_takes(#[trigger] l.rules@[j], opt_view(*rarity), t, w),
        decreases l.rules@.len() - r,
    {
        let hit = match rarity {
            Some(x) => l.rules[r].matches(Some(x.as_str()), t, w),
            None => l.rules[r].matches(None, t, w),
        };
        if hit {
            return true;
        }
        r = r + 1;
    }
    false
}

/// The first list that takes the drop.
fn first_list(
    lists: &Vec<Listed>,
    lower: &str,
    qualified: &Option<String>,
    rarity: &Option<String>,
    t: i64,
    w: i64,
) -> (r: Option<usize>)
    ensures
        match r {
            Some(k) => first_hit(lists@, lower@, opt_view(*qualified), opt_view(*rarity), t, w) == Some(k as int)
                && k < lists@.len(),
            None => first_hit(lists@, lower@, opt_view(*qualified), opt_view(*rarity), t, w) is None,
        },
{
    let ghost (lw, q, ra) = (lower@, opt_view(*qualified), opt_view(*rarity));
    let mut k: usize = 0;
    while k < lists.len()
        invariant
            k <= lists@.len(),
            lw == lower@,
            q == opt_view(*qualified),
            ra == opt_view(*rarity),
            forall|j: int| 0 <= j < k ==> !list_hits(#[trigger] lists@[j], lw, q, ra, t, w),
        decreases lists@.len() - k,
    {
        if list_takes(&lists[k], lower, qualified, rarity, t, w) {
            proof {
                let f = first_hit(lists@, lw, q, ra, t, w)->0;
                if f < k {
                    assert(!list_hits(lists@[f], lw, q, ra, t, w));
                }
                if f > k {
                    assert(!list_hits(lists@[k as int], lw, q, ra, t, w));
                }
            }
            return Some(k);
        }
        k = k + 1;
    }
    None
}

// ---------------------------------------------------------------------------
// A drop, seen
// ---------------------------------------------------------------------------

/// What one item is known by across its sightings: its hash, else its
/// fingerprint, else its roll; a pickup with none of these has no identity.
pub open spec fn identity_of(hash: Seq<char>, fp: Seq<char>, ground: bool, seed: i64, t: i64, id: i64) -> Seq<char> {
    if hash.len() > 0 {
        "h:"@ + hash
    } else if fp.len() > 0 {
        fp
    } else if ground || seed != 0 {
        "g:"@ + decimal_text(seed as int) + ":"@ + decimal_text(t as int) + ":"@ + decimal_text(id as int)
    } else {
        Seq::empty()
    }
}

pub fn identity(hash: &str, fp: &str, ground: bool, seed: i64, t: i64, id: i64) -> (r: String)
    ensures
        r@ == identity_of(hash@, fp@, ground, seed, t, id),
{
    if !hash.is_empty() {
        let mut r = copy_str("h:");
        r.append(hash);
        return r;
    }
    if !fp.is_empty() {
        return copy_str(fp);
    }
    if ground || seed != 0 {
        let mut r = copy_str("g:");
        r.append(crate::text::decimal(seed).as_str());
        r.append(":");
        r.append(crate::text::decimal(t).as_str());
        r.append(":");
        r.append(crate::text::decimal(id).as_str());
        return r;
    }
    String::new()
}

/// The sighting of an identity: on the ground or in the bag.
pub open spec fn sighting_of(ground: bool, ident: Seq<char>) -> Seq<char> {
    (if ground {
        "d:"@
    } else {
        "p:"@
    }) + ident
}

/// Whether a fingerprint was made for another account than ours.
pub open spec fn foreign(account: Option<String>, fp: Seq<char>) -> bool {
    account is Some && account_of(fp) is Some && account->0@ != account_of(fp)->0
}

/// The sets a drop passes through before it counts: a return of something
/// let go, somebody else's item, and a repeated sighting stop it there.
pub open spec fn passes_screen(a: crate::stats::Finds, account: Option<String>, fp: Seq<char>, ident: Seq<char>, ground: bool) -> bool {
    &&& !(fp.len() > 0 && texts(a.let_go@).contains(fp))
    &&& !foreign(account, fp)
    &&& (ident.len() > 0 ==> !texts(a.seen@).contains(sighting_of(ground, ident)))
}

/// The bookkeeping half of the screen.
pub open spec fn screen_post(
    a: crate::stats::Finds,
    b: crate::stats::Finds,
    account: Option<String>,
    fp: Seq<char>,
    ident: Seq<char>,
    ground: bool,
    go_on: bool,
    first: bool,
) -> bool {
    &&& go_on == passes_screen(a, account, fp, ident, ground)
    &&& (fp.len() > 0 ==> texts(b.let_go@) == texts(a.let_go@).remove(fp))
    &&& (fp.len() == 0 ==> b.let_go == a.let_go)
    &&& (go_on && ident.len() > 0 ==> texts(b.seen@).contains(sighting_of(ground, ident)) || b.seen@.len() == 0)
    &&& (go_on ==> first == (ident.len() == 0 || !texts(a.counted@).contains(ident)) || a.seen@.len() >= 20000)
    &&& (go_on ==> (ident.len() > 0 ==> texts(b.counted@).contains(ident)))
    &&& (!go_on || ident.len() == 0) ==> texts(b.seen@) == texts(a.seen@) && b.counted == a.counted && b.told == a.told
    &&& (go_on && ident.len() == 0) ==> first
    &&& (go_on && ident.len() > 0) ==> if a.seen@.len() + 1 > 20000 {
        &&& b.seen@.len() == 0
        &&& b.told@.len() == 0
        &&& texts(b.counted@) == Set::<Seq<char>>::empty().insert(ident)
        &&& first
    } else {
        &&& texts(b.seen@) == texts(a.seen@).insert(sighting_of(ground, ident))
        &&& b.told == a.told
        &&& texts(b.counted@) == texts(a.counted@).insert(ident)
        &&& first == !texts(a.counted@).contains(ident)
    }
    &&& b.items == a.items
    &&& b.graded == a.graded
    &&& b.resources == a.resources
    &&& b.resource_items == a.resource_items
    &&& b.notable == a.notable
    &&& b.tier_seen == a.tier_seen
    &&& b.announced_at == a.announced_at
    &&& b.drops == a.drops
}

impl GameStats {
    /// Whether a drop reaches the counters at all, and whether this is the
    /// first sighting of its identity to count.
    pub fn screen(&mut self, fp: &str, ident: &str, ground: bool) -> (r: (bool, bool))
        ensures
            screened(*old(self), *final(self), r.0, r.1, fp@, ident@, ground),
    {
        if !fp.is_empty() && crate::sets::remove_text(&mut self.finds.let_go, fp) {
            return (false, false);
        }
        let theirs = crate::parser::fingerprint_account(fp);
        if let (Some(mine), Some(theirs)) = (&self.account, &theirs) {
            if !same_text(mine.as_str(), theirs.as_str()) {
                return (false, false);
            }
        }
        let ghost seen_before = self.finds.seen@;
        let ghost counted_before = self.finds.counted@;
        if !ident.is_empty() {
            let mut sighting = copy_str(if ground {
                "d:"
            } else {
                "p:"
            });
            sighting.append(ident);
            if !crate::sets::insert_text(&mut self.finds.seen, sighting.as_str()) {
                assert(texts(self.finds.seen@) =~= texts(seen_before));
                return (false, false);
            }
            if self.finds.seen.len() > 20_000 {
                crate::sets::clear_texts(&mut self.finds.seen);
                crate::sets::clear_texts(&mut self.finds.counted);
                crate::sets::clear_texts(&mut self.finds.told);
            }
        }
        let first = ident.is_empty() || crate::sets::insert_text(&mut self.finds.counted, ident);
        (true, first)
    }
}

/// The grade a drop counts at before the hash is asked: the packet's, else
/// the tables' for a named item, by identity first.
pub open spec fn table_tier(c: crate::catalog::Catalog, name: Seq<char>, known: Option<(Seq<char>, i64)>, tier: i64) -> i64 {
    if tier == 0 && name.len() > 0 {
        match known {
            Some(k) => k.1,
            None => crate::catalog::name_tier(c.items@, name),
        }
    } else {
        tier
    }
}

/// The grade a drop counts at: a pickup that carries none inherits what the
/// roll of the same hash reported.
pub open spec fn drop_tier(s: GameStats, name: Seq<char>, known: Option<(Seq<char>, i64)>, tier: i64, hash: Seq<char>) -> i64 {
    let t1 = table_tier(s.catalog, name, known, tier);
    if hash.len() > 0 && t1 <= 0 && crate::sets::lookup(s.finds.tier_seen@, hash) is Some {
        crate::sets::lookup(s.finds.tier_seen@, hash)->0
    } else {
        t1
    }
}

/// The rarity column a rarity counts in.
pub fn rarity_index(r: &str) -> (i: Option<usize>)
    ensures
        match i {
            Some(k) => k < 10 && crate::parser::rarity_names()[k as int] == r@,
            None => !crate::parser::rarity_names().contains(r@),
        },
{
    let mut k: usize = 0;
    while k < 10
        invariant
            k <= 10,
            forall|j: int| 0 <= j < k ==> crate::parser::rarity_names()[j] != r@,
        decreases 10 - k,
    {
        if same_text(r, crate::parser::rarity_label(k)) {
            return Some(k);
        }
        k = k + 1;
    }
    proof {
        if crate::parser::rarity_names().contains(r@) {
            let j = choose|j: int| 0 <= j < crate::parser::rarity_names().len() && crate::parser::rarity_names()[j] == r@;
            assert(crate::parser::rarity_names()[j] != r@);
        }
    }
    None
}

/// Keys that drop by the handful and open nothing worth counting.
pub open spec fn dull_key(name: Seq<char>) -> bool {
    lowercase(name) == "basic key"@ || lowercase(name) == "crystal key"@
}

/// A resource counted under its own name: which counter, and how many.
pub open spec fn resource_named(
    before: Seq<(String, (usize, i64))>,
    after: Seq<(String, (usize, i64))>,
    name: Seq<char>,
    kind: usize,
    n: i64,
) -> bool {
    &&& crate::sets::lookup(after, name) == Some(
        match crate::sets::lookup(before, name) {
            Some(e) => (e.0, clamp_i64(e.1 + n) as i64),
            None => (kind, n),
        },
    )
    &&& forall|k: Seq<char>| k != name ==> #[trigger] crate::sets::lookup(after, k) == crate::sets::lookup(before, k)
}

/// What counting a first sighting does to the finds.
pub open spec fn find_counted(
    a: crate::stats::Finds,
    b: crate::stats::Finds,
    item_type: i64,
    name: Seq<char>,
    rarity: Seq<char>,
    is_resource: bool,
    tier: i64,
    mf: bool,
    amount: i64,
) -> bool {

    let n: i64 = if amount > 1 { amount } else { 1 };
                &&& (tier > 0 && crate::stats::is_gear(item_type)) ==> crate::sets::count_of(b.graded@, tier)
                    == clamp_i64(crate::sets::count_of(a.graded@, tier) + n) && forall|k: i64|
                    k != tier ==> #[trigger] crate::sets::count_of(b.graded@, k) == crate::sets::count_of(a.graded@, k)
                &&& !(tier > 0 && crate::stats::is_gear(item_type)) ==> b.graded == a.graded
                &&& forall|i: int|
                    0 <= i < 10 ==> (#[trigger] b.items@[i]) == if !is_resource && crate::parser::rarity_names()[i]
                        == rarity {
                        crate::stats::ItemCount {
                            total: clamp_i64(a.items@[i].total + n) as i64,
                            mf: if mf {
                                clamp_i64(a.items@[i].mf + n) as i64
                            } else {
                                a.items@[i].mf
                            },
                        }
                    } else {
                        a.items@[i]
                    }
                &&& forall|i: int|
                    0 <= i < 4 ==> #[trigger] b.resources@[i] == if crate::stats::is_resource_type(item_type) && i
                        == item_type - 12 && !dull_key(name) {
                        clamp_i64(a.resources@[i] + n) as i64
                    } else {
                        a.resources@[i]
                    }
                &&& (crate::stats::is_resource_type(item_type) && !dull_key(name) && name.len() > 0) ==> resource_named(
                    a.resource_items@,
                    b.resource_items@,
                    name,
                    (item_type - 12) as usize,
                    n,
                )
                &&& !(crate::stats::is_resource_type(item_type) && !dull_key(name) && name.len() > 0)
                    ==> b.resource_items == a.resource_items
            
}

impl GameStats {
    /// The grade a drop counts at, remembered by hash for the pickup.
    pub fn grade(&mut self, name: &str, known: Option<&Known>, tier: i64, hash: &str) -> (r: i64)
        ensures
            graded_post(*old(self), *final(self), r, name@, known_view(known), tier, hash@),
    {
        let mut t = tier;
        if t == 0 && !name.is_empty() {
            t = match known {
                Some(k) => k.tier,
                None => self.catalog.tier_by_name(name),
            };
        }
        if !hash.is_empty() {
            let ghost t1 = t;
            assert(t1 == table_tier(old(self).catalog, name@, known_view(known), tier));
            if t > 0 {
                crate::sets::put_key(&mut self.finds.tier_seen, hash, t);
            } else if let Some(seen) = crate::sets::get_key(&self.finds.tier_seen, hash) {
                t = seen;
            }
            let ghost m = self.finds.tier_seen@;
            if self.finds.tier_seen.len() > 4000 {
                self.finds.tier_seen.clear();
            }
            assert(noted_tier(old(self).finds.tier_seen@, m, hash@, table_tier(old(self).catalog, name@, known_view(known), tier)));
            assert(self.finds.tier_seen@ == if m.len() > 4000 {
                Seq::<(String, i64)>::empty()
            } else {
                m
            });
        }
        t
    }

    /// A first sighting of a find, counted: by grade for gear, by rarity
    /// outside the resources, by counter and by name for a resource, and
    /// under its notable label.
    #[verifier::rlimit(60)]
    pub fn count_find(
        &mut self,
        item_type: i64,
        name: &str,
        rarity: &str,
        is_resource: bool,
        tier: i64,
        mf: bool,
        amount: i64,
        now: u64,
    )
        requires
            crate::stats::shaped(*old(self)),
        ensures
            counted(*old(self), *final(self), item_type, name@, rarity@, is_resource, tier, mf, amount, now),
    {
        let n: i64 = if amount > 1 {
            amount
        } else {
            1
        };
        if tier > 0 && ((0 <= item_type && item_type <= 8) || item_type == 10 || item_type == 18) {
            crate::sets::count_add(&mut self.finds.graded, tier, n);
        }
        let ghost items0 = self.finds.items@;
        if !is_resource {
            if let Some(i) = rarity_index(rarity) {
                let c = self.finds.items[i];
                let next = crate::stats::ItemCount {
                    total: sat_add(c.total, n),
                    mf: if mf {
                        sat_add(c.mf, n)
                    } else {
                        c.mf
                    },
                };
                self.finds.items.set(i, next);
                proof {
                    assert forall|j: int| 0 <= j < 10 && j != i implies crate::parser::rarity_names()[j] != rarity@ by {
                        lemma_rarity_names_distinct(j, i as int);
                    }
                }
            }
        }
        if 12 <= item_type && item_type <= 15 {
            let k = (item_type - 12) as usize;
            let low = to_lower(name);
            let dull = same_text(low.as_str(), "basic key") || same_text(low.as_str(), "crystal key");
            if !dull {
                let r = self.finds.resources[k];
                self.finds.resources.set(k, sat_add(r, n));
                if !name.is_empty() {
                    let entry = match crate::sets::get_key(&self.finds.resource_items, name) {
                        Some(e) => (e.0, sat_add(e.1, n)),
                        None => (k, n),
                    };
                    crate::sets::put_key(&mut self.finds.resource_items, name, entry);
                }
            }
        }
        self.count_notable(name, n);
        self.progressed_at(now);
    }
}

proof fn lemma_rarity_names_distinct(i: int, j: int)
    requires
        0 <= i < 10,
        0 <= j < 10,
        i != j,
    ensures
        crate::parser::rarity_names()[i] != crate::parser::rarity_names()[j],
{
    reveal_strlit("Common");
    reveal_strlit("Superior");
    reveal_strlit("Rare");
    reveal_strlit("Set");
    reveal_strlit("Mythic");
    reveal_strlit("Satanic");
    reveal_strlit("Angelic");
    reveal_strlit("Blessed");
    reveal_strlit("Heroic");
    reveal_strlit("Unholy");
    let n = crate::parser::rarity_names();
    assert(n[i].len() != n[j].len() || n[i][0] != n[j][0] || n[i][1] != n[j][1]);
}

/// Whether the server announced this name a moment ago, which makes the
/// client's own sighting of it the same find.
pub open spec fn echo_of(marks: Seq<(String, u64)>, lower: Seq<char>, now: u64) -> bool {
    crate::sets::lookup(marks, lower) is Some && crate::session::sub0(now, crate::sets::lookup(marks, lower)->0)
        < crate::stats::ECHO
}

/// `m` is `marks` with `name` announced at `t`.
pub open spec fn marked(marks: Seq<(String, u64)>, m: Seq<(String, u64)>, name: Seq<char>, t: u64) -> bool {
    &&& crate::sets::lookup(m, name) == Some(t)
    &&& forall|k: Seq<char>| k != name ==> #[trigger] crate::sets::lookup(m, k) == crate::sets::lookup(marks, k)
}

/// What a list of announcements says: each name and when.
pub open spec fn mark_views(marks: Seq<(String, u64)>) -> Seq<(Seq<char>, u64)> {
    marks.map_values(|m: (String, u64)| (m.0@, m.1))
}

/// The announcements still worth remembering at `now`.
pub open spec fn recent_marks(marks: Seq<(Seq<char>, u64)>, now: u64) -> Seq<(Seq<char>, u64)> {
    marks.filter(|m: (Seq<char>, u64)| crate::session::sub0(now, m.1) < crate::stats::ECHO_KEPT)
}

fn keep_recent(marks: &Vec<(String, u64)>, now: u64) -> (r: Vec<(String, u64)>)
    ensures
        mark_views(r@) == recent_marks(mark_views(marks@), now),
{
    let mut out: Vec<(String, u64)> = Vec::new();
    let mut i: usize = 0;
    while i < marks.len()
        invariant
            i <= marks@.len(),
            mark_views(out@) == recent_marks(mark_views(marks@.take(i as int)), now),
        decreases marks@.len() - i,
    {
        let ghost before = out@;
        proof {
            let t = mark_views(marks@.take(i + 1));
            assert(t.drop_last() == mark_views(marks@.take(i as int)));
            assert(t.last() == (marks@[i as int].0@, marks@[i as int].1));
            reveal(Seq::filter);
        }
        if now.saturating_sub(marks[i].1) < crate::stats::ECHO_KEPT {
            let kept = (copy_str(marks[i].0.as_str()), marks[i].1);
            out.push(kept);
            proof {
                assert(mark_views(out@) == mark_views(before).push((kept.0@, kept.1)));
            }
        }
        i = i + 1;
    }
    assert(marks@.take(marks@.len() as int) == marks@);
    out
}

/// The alert to play: the list's, else the rarity's own where the alerts name
/// it; nothing for an echo or for a drop the alert rules did not ask for.
pub open spec fn sound_of(
    alerts: Seq<String>,
    rarity: Seq<char>,
    listed: Option<Seq<char>>,
    echo: bool,
    announce: bool,
) -> Option<Seq<char>> {
    if echo || !announce {
        None
    } else {
        match listed {
            Some(k) => Some(k),
            None => if has_text(alerts, rarity) {
                Some(lowercase(rarity))
            } else {
                None
            },
        }
    }
}

/// The journal after an entry is filed: the oldest goes once it is full.
pub open spec fn filed(drops: Seq<DropEntry>, e: DropEntry) -> Seq<DropEntry> {
    if drops.len() >= crate::stats::JOURNAL_CAP {
        drops.remove(0).push(e)
    } else {
        drops.push(e)
    }
}

impl GameStats {
    /// The announcement of a drop that passed the rules: once per identity,
    /// once per chat echo, and into the journal when the alert rules asked.
    #[verifier::rlimit(80)]
    pub fn announce_drop(
        &mut self,
        ident: &str,
        name: &String,
        rarity: &String,
        listed: Option<String>,
        announce: bool,
        flourish: bool,
        announced: bool,
        ground: bool,
        mf: bool,
        tier: i64,
        item_type: i64,
        item_id: i64,
        weapon_type: i64,
        seed: i64,
        now: Now,
    ) -> (r: Option<DropEntry>)
        ensures
            announced_post(*old(self), *final(self), r, ident@, name@, rarity@, opt_view(listed), announce, flourish, announced, ground, mf, tier, item_type, item_id, weapon_type, seed, now),
    {
        let ghost a = *self;
        if !ident.is_empty() && !crate::sets::insert_text(&mut self.finds.told, ident) {
            return None;
        }
        let lower = to_lower(name.as_str());
        let echo = match crate::sets::get_key(&self.finds.announced_at, lower.as_str()) {
            Some(t) => now.mono.saturating_sub(t) < crate::stats::ECHO,
            None => false,
        };
        if announced {
            crate::sets::put_key(&mut self.finds.announced_at, lower.as_str(), now.mono);
            let ghost m = self.finds.announced_at@;
            let kept = keep_recent(&self.finds.announced_at, now.mono);
            self.finds.announced_at = kept;
            assert(marked(a.finds.announced_at@, m, lowercase(name@), now.mono));
        } else if echo {
            return None;
        }
        let sound: Option<String> = if echo || !announce {
            None
        } else {
            match listed {
                Some(k) => Some(k),
                None => if holds(&self.prefs.alerts, rarity.as_str()) {
                    Some(to_lower(rarity.as_str()))
                } else {
                    None
                },
            }
        };
        let zone = match &self.zone.satanic {
            Some(z) => Some(copy_str(z.zone.as_str())),
            None => None,
        };
        let entry = DropEntry {
            ts_ms: now.wall_ms,
            rarity: copy_str(rarity.as_str()),
            mf,
            tier,
            item_type,
            item_id,
            weapon_type,
            seed,
            name: copy_str(name.as_str()),
            announced,
            ground,
            zone,
            room: crate::stats::copy_opt(&self.place.room),
            sound,
            announce,
            flourish,
        };
        if announce {
            let ghost before = self.finds.drops@;
            if self.finds.drops.len() >= crate::stats::JOURNAL_CAP {
                self.finds.drops.remove(0);
            }
            let ghost kept = self.finds.drops@;
            let filed_copy = entry.copy();
            self.finds.drops.push(filed_copy);
            proof {
                assert(self.finds.drops@ == kept.push(filed_copy));
                assert(crate::stats::drops_view(self.finds.drops@) =~= crate::stats::drops_view(filed(before, entry)));
            }
            self.extra_rev = bumped(self.extra_rev);
        }
        Some(entry)
    }
}

/// What `screen` does, from the session before to the session after.
pub open spec fn screened(a: GameStats, b: GameStats, go: bool, first: bool, fp: Seq<char>, ident: Seq<char>, ground: bool) -> bool {
    &&& screen_post(a.finds, b.finds, a.account, fp, ident, ground, go, first)
    &&& b.clock == a.clock
    &&& b.place == a.place
    &&& b.bank == a.bank
    &&& b.save == a.save
    &&& b.zone == a.zone
    &&& b.prefs == a.prefs
    &&& b.catalog == a.catalog
    &&& b.account == a.account
    &&& b.character == a.character
    &&& b.revision == a.revision
    &&& b.extra_rev == a.extra_rev
    &&& b.series == a.series
    &&& crate::events::settings_kept(a, b)
    &&& b.season_mode == a.season_mode
}

/// What `count_find` does, from the session before to the session after.
pub open spec fn counted(a: GameStats, b: GameStats, item_type: i64, name: Seq<char>, rarity: Seq<char>, is_resource: bool, tier: i64, mf: bool, amount: i64, now: u64) -> bool {
    &&& crate::stats::shaped(b)
    &&& find_counted(a.finds, b.finds, item_type, name, rarity, is_resource, tier, mf, amount)
    &&& notable_counted(a.prefs.notable_defs@, a.finds.notable, b.finds.notable, name, if amount > 1 {
        amount
    } else {
        1
    })
    &&& b.clock.last_progress == now
    &&& crate::events::progress_effect(a, b, now, true)
    &&& b.place.room == a.place.room
    &&& b.place.zone_time == a.place.zone_time
    &&& b.place.act == a.place.act
    &&& b.place.mf == a.place.mf
    &&& b.place.satanic_here == a.place.satanic_here
    &&& b.series == a.series
    &&& b.extra_rev == a.extra_rev
    &&& b.finished == a.finished
    &&& b.bank == a.bank
    &&& b.save == a.save
    &&& b.zone == a.zone
    &&& b.prefs == a.prefs
    &&& b.catalog == a.catalog
    &&& b.account == a.account
    &&& b.character == a.character
    &&& b.finds.seen == a.finds.seen
    &&& b.finds.counted == a.finds.counted
    &&& b.finds.told == a.finds.told
    &&& b.finds.let_go == a.finds.let_go
    &&& b.finds.tier_seen == a.finds.tier_seen
    &&& b.finds.announced_at == a.finds.announced_at
    &&& b.finds.drops == a.finds.drops
    &&& crate::events::settings_kept(a, b)
    &&& b.season_mode == a.season_mode
}

/// What `announce_drop` does, from the session before to the session after.
pub open spec fn announced_post(a: GameStats, b: GameStats, r: Option<DropEntry>, ident: Seq<char>, name: Seq<char>, rarity: Seq<char>, listed: Option<Seq<char>>, announce: bool, flourish: bool, announced: bool, ground: bool, mf: bool, tier: i64, item_type: i64, item_id: i64, weapon_type: i64, seed: i64, now: Now) -> bool {
    &&& ({
        let fresh = ident.len() == 0 || !texts(a.finds.told@).contains(ident);
        let echo = echo_of(a.finds.announced_at@, lowercase(name), now.mono);
        let goes = fresh && (announced || !echo);
        &&& goes == r is Some
        &&& goes ==> {
            let e = r->0;
            &&& e.ts_ms == now.wall_ms
            &&& e.rarity@ == rarity
            &&& e.name@ == name
            &&& e.tier == tier
            &&& e.item_type == item_type && e.item_id == item_id && e.weapon_type == weapon_type
            &&& e.seed == seed && e.mf == mf && e.ground == ground && e.announced == announced
            &&& e.announce == announce && e.flourish == flourish
            &&& opt_view(e.sound) == sound_of(a.prefs.alerts@, rarity, listed, echo, announce)
            &&& opt_view(e.room) == opt_view(a.place.room)
            &&& (e.zone is Some == a.zone.satanic is Some)
            &&& (e.zone is Some ==> e.zone->0@ == a.zone.satanic->0.zone@)
            &&& announce ==> crate::stats::drops_view(b.finds.drops@) == crate::stats::drops_view(
                filed(a.finds.drops@, e),
            ) && b.extra_rev == bump(a.extra_rev)
            &&& !announce ==> b.finds.drops == a.finds.drops && b.extra_rev == a.extra_rev
        }
        &&& !goes ==> b.finds.drops == a.finds.drops && b.extra_rev == a.extra_rev
        &&& ident.len() > 0 ==> texts(b.finds.told@) == texts(a.finds.told@).insert(ident)
        &&& ident.len() == 0 ==> b.finds.told == a.finds.told
        &&& !(announced && goes) ==> b.finds.announced_at == a.finds.announced_at
        &&& announced && goes ==> exists|m: Seq<(String, u64)>|
            #[trigger] marked(a.finds.announced_at@, m, lowercase(name), now.mono) && mark_views(b.finds.announced_at@)
                == recent_marks(mark_views(m), now.mono)
    })
    &&& b.finds.items == a.finds.items
    &&& b.finds.graded == a.finds.graded
    &&& b.finds.resources == a.finds.resources
    &&& b.finds.resource_items == a.finds.resource_items
    &&& b.finds.notable == a.finds.notable
    &&& b.finds.seen == a.finds.seen
    &&& b.finds.counted == a.finds.counted
    &&& b.finds.let_go == a.finds.let_go
    &&& b.finds.tier_seen == a.finds.tier_seen
    &&& b.clock == a.clock
    &&& b.place == a.place
    &&& b.bank == a.bank
    &&& b.save == a.save
    &&& b.zone == a.zone
    &&& b.prefs == a.prefs
    &&& b.catalog == a.catalog
    &&& b.account == a.account
    &&& b.character == a.character
    &&& b.revision == a.revision
    &&& b.series == a.series
    &&& crate::events::settings_kept(a, b)
    &&& b.season_mode == a.season_mode
}

/// `m` is `seen` with the grade of `hash` noted as `t`, where there is one.
pub open spec fn noted_tier(seen: Seq<(String, i64)>, m: Seq<(String, i64)>, hash: Seq<char>, t: i64) -> bool {
    if t > 0 {
        &&& crate::sets::lookup(m, hash) == Some(t)
        &&& forall|k: Seq<char>| k != hash ==> #[trigger] crate::sets::lookup(m, k) == crate::sets::lookup(seen, k)
    } else {
        m == seen
    }
}

/// What `grade` does, from the session before to the session after.
pub open spec fn graded_post(a: GameStats, b: GameStats, r: i64, name: Seq<char>, known: Option<(Seq<char>, i64)>, tier: i64, hash: Seq<char>) -> bool {
    &&& r == drop_tier(a, name, known, tier, hash)
    &&& hash.len() > 0 && r > 0 ==> crate::sets::lookup(b.finds.tier_seen@, hash) == Some(r)
        || b.finds.tier_seen@.len() == 0
    &&& hash.len() == 0 ==> b.finds.tier_seen == a.finds.tier_seen
    &&& hash.len() > 0 ==> exists|m: Seq<(String, i64)>|
        #[trigger] noted_tier(a.finds.tier_seen@, m, hash, table_tier(a.catalog, name, known, tier))
            && b.finds.tier_seen@ == if m.len() > 4000 {
            Seq::empty()
        } else {
            m
        }
    &&& b.finds.items == a.finds.items
    &&& b.finds.graded == a.finds.graded
    &&& b.finds.resources == a.finds.resources
    &&& b.finds.resource_items == a.finds.resource_items
    &&& b.finds.notable == a.finds.notable
    &&& b.finds.seen == a.finds.seen
    &&& b.finds.counted == a.finds.counted
    &&& b.finds.told == a.finds.told
    &&& b.finds.let_go == a.finds.let_go
    &&& b.finds.announced_at == a.finds.announced_at
    &&& b.finds.drops == a.finds.drops
    &&& b.clock == a.clock
    &&& b.place == a.place
    &&& b.bank == a.bank
    &&& b.save == a.save
    &&& b.zone == a.zone
    &&& b.prefs == a.prefs
    &&& b.catalog == a.catalog
    &&& b.account == a.account
    &&& b.character == a.character
    &&& b.revision == a.revision
    &&& b.extra_rev == a.extra_rev
    &&& b.series == a.series
    &&& crate::events::settings_kept(a, b)
    &&& b.season_mode == a.season_mode
}

} // verus!

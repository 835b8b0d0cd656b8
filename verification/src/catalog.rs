//! The game's item and room tables, as the counters consult them.
//!
//! An item is known by its identity, the triple of type, id and weapon type a
//! drop packet carries, and it goes by an English name and by whatever the
//! player's client prints for it in other languages. The tables are data:
//! whoever builds a `Catalog` decides what it holds.

use vstd::prelude::*;
use crate::text::{copy_str, same_text};
use crate::sets::{has_text, holds};

verus! {

/// One item of the tables.
pub struct CatalogItem {
    pub item_type: i64,
    pub item_id: i64,
    pub weapon_type: i64,
    /// the English name, which is what lists and counters are keyed by
    pub name: String,
    /// the same item as clients in other languages print it
    pub names: Vec<String>,
    /// the rarity the tables give it, as the interface writes it; may be empty
    pub rarity: String,
    /// its grade, 1..6 for D through SS, or 0 where the tables give none
    pub tier: i64,
}

/// The item and room tables.
pub struct Catalog {
    pub items: Vec<CatalogItem>,
    /// a room as the heartbeat names it, and what the game calls it
    pub rooms: Vec<(String, String)>,
}

/// What the tables say about an item named by its identity.
pub struct Known {
    pub name: String,
    pub rarity: String,
    pub tier: i64,
}

/// The rarities a drop can be announced by, which two items sharing a name
/// must not be confused over.
pub open spec fn journal_rarity(r: Seq<char>) -> bool {
    ||| r == "Satanic"@
    ||| r == "Set"@
    ||| r == "Heroic"@
    ||| r == "Angelic"@
    ||| r == "Unholy"@
}

pub fn is_journal_rarity(r: &str) -> (b: bool)
    ensures
        b == journal_rarity(r@),
{
    let names = ["Satanic", "Set", "Heroic", "Angelic", "Unholy"];
    proof {
        reveal_strlit("Satanic");
        reveal_strlit("Set");
        reveal_strlit("Heroic");
        reveal_strlit("Angelic");
        reveal_strlit("Unholy");
    }
    same_text(r, names[0]) || same_text(r, names[1]) || same_text(r, names[2]) || same_text(
        r,
        names[3],
    ) || same_text(r, names[4])
}

pub open spec fn has_identity(e: CatalogItem, t: i64, i: i64, w: i64) -> bool {
    e.item_type == t && e.item_id == i && e.weapon_type == w
}

/// The first item with the identity.
pub open spec fn by_identity(items: Seq<CatalogItem>, t: i64, i: i64, w: i64) -> Option<int> {
    if exists|k: int| 0 <= k < items.len() && has_identity(#[trigger] items[k], t, i, w) {
        Some(
            choose|k: int|
                0 <= k < items.len() && has_identity(#[trigger] items[k], t, i, w) && forall|j: int|
                    0 <= j < k ==> !has_identity(#[trigger] items[j], t, i, w),
        )
    } else {
        None
    }
}

proof fn lemma_least_identity(items: Seq<CatalogItem>, t: i64, i: i64, w: i64, k: int)
    requires
        0 <= k < items.len(),
        has_identity(items[k], t, i, w),
    ensures
        exists|m: int|
            0 <= m <= k && has_identity(#[trigger] items[m], t, i, w) && forall|j: int|
                0 <= j < m ==> !has_identity(#[trigger] items[j], t, i, w),
    decreases k,
{
    if exists|j: int| 0 <= j < k && has_identity(#[trigger] items[j], t, i, w) {
        let j = choose|j: int| 0 <= j < k && has_identity(#[trigger] items[j], t, i, w);
        lemma_least_identity(items, t, i, w, j);
    }
}

proof fn lemma_by_identity(items: Seq<CatalogItem>, t: i64, i: i64, w: i64, k: int)
    requires
        0 <= k < items.len(),
        has_identity(items[k], t, i, w),
        forall|j: int| 0 <= j < k ==> !has_identity(#[trigger] items[j], t, i, w),
    ensures
        by_identity(items, t, i, w) == Some(k),
{
    lemma_least_identity(items, t, i, w, k);
    let f = by_identity(items, t, i, w).unwrap();
    if f < k {
        assert(!has_identity(items[f], t, i, w));
    }
    if f > k {
        assert(!has_identity(items[k], t, i, w));
    }
}

/// Two items share the name and disagree about which announced rarity it is.
pub open spec fn muddled_in(items: Seq<CatalogItem>, name: Seq<char>) -> bool {
    exists|a: int, b: int|
        0 <= a < items.len() && 0 <= b < items.len() && (#[trigger] items[a]).name@ == name
            && (#[trigger] items[b]).name@ == name && journal_rarity(items[a].rarity@)
            && journal_rarity(items[b].rarity@) && items[a].rarity@ != items[b].rarity@
}

/// The first item with this name that has a rarity at all.
pub open spec fn first_rated(items: Seq<CatalogItem>, name: Seq<char>) -> Option<int> {
    if exists|k: int| 0 <= k < items.len() && (#[trigger] items[k]).name@ == name && items[k].rarity@.len() > 0 {
        Some(
            choose|k: int|
                0 <= k < items.len() && (#[trigger] items[k]).name@ == name && items[k].rarity@.len() > 0
                    && forall|j: int|
                    0 <= j < k ==> !((#[trigger] items[j]).name@ == name && items[j].rarity@.len() > 0),
        )
    } else {
        None
    }
}

/// The first item with this name.
pub open spec fn first_named(items: Seq<CatalogItem>, name: Seq<char>) -> Option<int> {
    if exists|k: int| 0 <= k < items.len() && (#[trigger] items[k]).name@ == name {
        Some(
            choose|k: int|
                0 <= k < items.len() && (#[trigger] items[k]).name@ == name && forall|j: int|
                    0 <= j < k ==> (#[trigger] items[j]).name@ != name,
        )
    } else {
        None
    }
}

/// The first item with this name whose rarity is one a drop is announced by.
pub open spec fn first_journal(items: Seq<CatalogItem>, name: Seq<char>) -> Option<int> {
    if exists|k: int| 0 <= k < items.len() && (#[trigger] items[k]).name@ == name && journal_rarity(items[k].rarity@) {
        Some(
            choose|k: int|
                0 <= k < items.len() && (#[trigger] items[k]).name@ == name && journal_rarity(items[k].rarity@)
                    && forall|j: int|
                    0 <= j < k ==> !((#[trigger] items[j]).name@ == name && journal_rarity(items[j].rarity@)),
        )
    } else {
        None
    }
}

/// The item a name stands for in the tables: the first by that name whose
/// rarity is worth announcing, else the first by that name with a rarity.
pub open spec fn claimant(items: Seq<CatalogItem>, name: Seq<char>) -> Option<int> {
    match first_journal(items, name) {
        Some(k) => Some(k),
        None => first_rated(items, name),
    }
}

/// The grade the tables give a name: its claimant's, else the first item's by
/// that name, else 0.
pub open spec fn name_tier(items: Seq<CatalogItem>, name: Seq<char>) -> i64 {
    match claimant(items, name) {
        Some(k) => items[k].tier,
        None => match first_named(items, name) {
            Some(k) => items[k].tier,
            None => 0,
        },
    }
}

proof fn lemma_least_journal(items: Seq<CatalogItem>, name: Seq<char>, k: int)
    requires
        0 <= k < items.len(),
        items[k].name@ == name,
        journal_rarity(items[k].rarity@),
    ensures
        exists|m: int|
            0 <= m <= k && (#[trigger] items[m]).name@ == name && journal_rarity(items[m].rarity@)
                && forall|j: int|
                0 <= j < m ==> !((#[trigger] items[j]).name@ == name && journal_rarity(items[j].rarity@)),
    decreases k,
{
    if exists|j: int| 0 <= j < k && (#[trigger] items[j]).name@ == name && journal_rarity(items[j].rarity@) {
        let j = choose|j: int| 0 <= j < k && (#[trigger] items[j]).name@ == name && journal_rarity(items[j].rarity@);
        lemma_least_journal(items, name, j);
    }
}

proof fn lemma_least_named(items: Seq<CatalogItem>, name: Seq<char>, rated: bool, k: int)
    requires
        0 <= k < items.len(),
        items[k].name@ == name,
        rated ==> items[k].rarity@.len() > 0,
    ensures
        rated ==> exists|m: int|
            0 <= m <= k && (#[trigger] items[m]).name@ == name && items[m].rarity@.len() > 0
                && forall|j: int|
                0 <= j < m ==> !((#[trigger] items[j]).name@ == name && items[j].rarity@.len() > 0),
        !rated ==> exists|m: int|
            0 <= m <= k && (#[trigger] items[m]).name@ == name && forall|j: int|
                0 <= j < m ==> (#[trigger] items[j]).name@ != name,
    decreases k,
{
    if rated {
        if exists|j: int| 0 <= j < k && (#[trigger] items[j]).name@ == name && items[j].rarity@.len() > 0 {
            let j = choose|j: int|
                0 <= j < k && (#[trigger] items[j]).name@ == name && items[j].rarity@.len() > 0;
            lemma_least_named(items, name, rated, j);
        }
    } else {
        if exists|j: int| 0 <= j < k && (#[trigger] items[j]).name@ == name {
            let j = choose|j: int| 0 <= j < k && (#[trigger] items[j]).name@ == name;
            lemma_least_named(items, name, rated, j);
        }
    }
}

impl Catalog {
    /// Tables with nothing in them.
    pub fn empty() -> (c: Catalog)
        ensures
            c.items@.len() == 0,
            c.rooms@.len() == 0,
    {
        Catalog { items: Vec::new(), rooms: Vec::new() }
    }

    /// Where the item with this identity stands in the tables.
    fn position(&self, t: i64, i: i64, w: i64) -> (r: Option<usize>)
        ensures
            match r {
                Some(k) => by_identity(self.items@, t, i, w) == Some(k as int) && k < self.items@.len(),
                None => by_identity(self.items@, t, i, w) is None,
            },
    {
        let mut k: usize = 0;
        while k < self.items.len()
            invariant
                k <= self.items@.len(),
                forall|j: int| 0 <= j < k ==> !has_identity(#[trigger] self.items@[j], t, i, w),
            decreases self.items@.len() - k,
        {
            let e = &self.items[k];
            if e.item_type == t && e.item_id == i && e.weapon_type == w {
                proof {
                    lemma_by_identity(self.items@, t, i, w, k as int);
                }
                return Some(k);
            }
            k = k + 1;
        }
        None
    }

    /// The English name of the item with this identity.
    pub fn item_name(&self, t: i64, i: i64, w: i64) -> (r: Option<String>)
        ensures
            match by_identity(self.items@, t, i, w) {
                Some(k) => r is Some && r->0@ == self.items@[k].name@,
                None => r is None,
            },
    {
        match self.position(t, i, w) {
            Some(k) => Some(copy_str(self.items[k].name.as_str())),
            None => None,
        }
    }

    /// Everything the tables say about the item with this identity.
    pub fn known_by_identity(&self, t: i64, i: i64, w: i64) -> (r: Option<Known>)
        ensures
            match by_identity(self.items@, t, i, w) {
                Some(k) => r is Some && r->0.name@ == self.items@[k].name@ && r->0.rarity@
                    == self.items@[k].rarity@ && r->0.tier == self.items@[k].tier,
                None => r is None,
            },
    {
        match self.position(t, i, w) {
            Some(k) => {
                let e = &self.items[k];
                Some(Known { name: copy_str(e.name.as_str()), rarity: copy_str(e.rarity.as_str()), tier: e.tier })
            },
            None => None,
        }
    }

    /// Whether `name`, as some client printed it, is the item the tables call
    /// `english` at this identity. An empty name is nobody's.
    pub fn same_item(&self, name: &str, english: &str, t: i64, i: i64, w: i64) -> (r: bool)
        ensures
            r == (name@.len() > 0 && (name@ == english@ || exists|k: int|
                0 <= k < self.items@.len() && (#[trigger] self.items@[k]).name@ == english@
                    && has_identity(self.items@[k], t, i, w) && has_text(self.items@[k].names@, name@))),
    {
        if name.is_empty() {
            return false;
        }
        if same_text(name, english) {
            return true;
        }
        let mut k: usize = 0;
        while k < self.items.len()
            invariant
                k <= self.items@.len(),
                name@.len() > 0,
                name@ != english@,
                forall|j: int|
                    0 <= j < k ==> !((#[trigger] self.items@[j]).name@ == english@ && has_identity(
                        self.items@[j],
                        t,
                        i,
                        w,
                    ) && has_text(self.items@[j].names@, name@)),
            decreases self.items@.len() - k,
        {
            let e = &self.items[k];
            if e.item_type == t && e.item_id == i && e.weapon_type == w && same_text(
                e.name.as_str(),
                english,
            ) && holds(&e.names, name) {
                return true;
            }
            k = k + 1;
        }
        false
    }

    /// Whether two items share this name and disagree about its rarity, so
    /// that the name alone cannot say what was found.
    pub fn muddled(&self, name: &str) -> (r: bool)
        ensures
            r == muddled_in(self.items@, name@),
    {
        let mut a: usize = 0;
        while a < self.items.len()
            invariant
                a <= self.items@.len(),
                forall|x: int, y: int|
                    0 <= x < a && 0 <= y < self.items@.len() ==> !((#[trigger] self.items@[x]).name@
                        == name@ && (#[trigger] self.items@[y]).name@ == name@ && journal_rarity(
                        self.items@[x].rarity@,
                    ) && journal_rarity(self.items@[y].rarity@) && self.items@[x].rarity@
                        != self.items@[y].rarity@),
            decreases self.items@.len() - a,
        {
            let ea = &self.items[a];
            if same_text(ea.name.as_str(), name) && is_journal_rarity(ea.rarity.as_str()) {
                let mut b: usize = 0;
                while b < self.items.len()
                    invariant
                        a < self.items@.len(),
                        b <= self.items@.len(),
                        self.items@[a as int].name@ == name@,
                        journal_rarity(self.items@[a as int].rarity@),
                        forall|y: int|
                            0 <= y < b ==> !((#[trigger] self.items@[y]).name@ == name@ && journal_rarity(
                                self.items@[y].rarity@,
                            ) && self.items@[a as int].rarity@ != self.items@[y].rarity@),
                    decreases self.items@.len() - b,
                {
                    let eb = &self.items[b];
                    if same_text(eb.name.as_str(), name) && is_journal_rarity(eb.rarity.as_str())
                        && !same_text(self.items[a].rarity.as_str(), eb.rarity.as_str()) {
                        proof {
                            let (x, y) = (a as int, b as int);
                            assert(0 <= x < self.items@.len() && 0 <= y < self.items@.len() && (
                            #[trigger] self.items@[x]).name@ == name@ && (
                            #[trigger] self.items@[y]).name@ == name@ && journal_rarity(
                                self.items@[x].rarity@,
                            ) && journal_rarity(self.items@[y].rarity@) && self.items@[x].rarity@
                                != self.items@[y].rarity@);
                        }
                        return true;
                    }
                    b = b + 1;
                }
            }
            a = a + 1;
        }
        false
    }

    /// Where the first item by this name with an announced rarity stands.
    fn journal_at(&self, name: &str) -> (r: Option<usize>)
        ensures
            match r {
                Some(k) => first_journal(self.items@, name@) == Some(k as int) && k < self.items@.len(),
                None => first_journal(self.items@, name@) is None,
            },
    {
        let mut k: usize = 0;
        while k < self.items.len()
            invariant
                k <= self.items@.len(),
                forall|j: int|
                    0 <= j < k ==> !((#[trigger] self.items@[j]).name@ == name@ && journal_rarity(
                        self.items@[j].rarity@,
                    )),
            decreases self.items@.len() - k,
        {
            let e = &self.items[k];
            if same_text(e.name.as_str(), name) && is_journal_rarity(e.rarity.as_str()) {
                proof {
                    lemma_least_journal(self.items@, name@, k as int);
                    let f = first_journal(self.items@, name@).unwrap();
                    if (f as int) < (k as int) {
                        assert(!(self.items@[f].name@ == name@ && journal_rarity(self.items@[f].rarity@)));
                    }
                    if (f as int) > (k as int) {
                        assert(!(self.items@[k as int].name@ == name@ && journal_rarity(
                            self.items@[k as int].rarity@,
                        )));
                    }
                }
                return Some(k);
            }
            k = k + 1;
        }
        None
    }

    /// Where the first item by this name (with a rarity, when `rated`) stands.
    fn named_at(&self, name: &str, rated: bool) -> (r: Option<usize>)
        ensures
            rated ==> match r {
                Some(k) => first_rated(self.items@, name@) == Some(k as int) && k < self.items@.len(),
                None => first_rated(self.items@, name@) is None,
            },
            !rated ==> match r {
                Some(k) => first_named(self.items@, name@) == Some(k as int) && k < self.items@.len(),
                None => first_named(self.items@, name@) is None,
            },
    {
        let mut k: usize = 0;
        while k < self.items.len()
            invariant
                k <= self.items@.len(),
                forall|j: int|
                    0 <= j < k ==> !((#[trigger] self.items@[j]).name@ == name@ && (rated ==> self.items@[j].rarity@.len()
                        > 0)),
            decreases self.items@.len() - k,
        {
            let e = &self.items[k];
            if same_text(e.name.as_str(), name) && (!rated || !e.rarity.as_str().is_empty()) {
                proof {
                    lemma_least_named(self.items@, name@, rated, k as int);
                    if rated {
                        let f = first_rated(self.items@, name@).unwrap();
                        if (f as int) < (k as int) {
                            assert(!(self.items@[f].name@ == name@ && self.items@[f].rarity@.len() > 0));
                        }
                        if (f as int) > (k as int) {
                            assert(!(self.items@[k as int].name@ == name@ && self.items@[k as int].rarity@.len() > 0));
                        }
                    } else {
                        let f = first_named(self.items@, name@).unwrap();
                        if (f as int) < (k as int) {
                            assert(self.items@[f].name@ != name@);
                        }
                        if (f as int) > (k as int) {
                            assert(self.items@[k as int].name@ != name@);
                        }
                    }
                }
                return Some(k);
            }
            k = k + 1;
        }
        None
    }

    /// Where the item a name stands for is.
    fn claimant_at(&self, name: &str) -> (r: Option<usize>)
        ensures
            match r {
                Some(k) => claimant(self.items@, name@) == Some(k as int) && k < self.items@.len(),
                None => claimant(self.items@, name@) is None,
            },
    {
        match self.journal_at(name) {
            Some(k) => Some(k),
            None => self.named_at(name, true),
        }
    }

    /// The rarity the tables give an item by this name: the one worth
    /// announcing where a single such rarity answers to it, else the first
    /// that names one; none where two items answer to the name with different
    /// rarities worth announcing, which the name cannot choose between.
    pub fn rarity_by_name(&self, name: &str) -> (r: Option<String>)
        ensures
            match r {
                Some(x) => !muddled_in(self.items@, name@) && claimant(self.items@, name@) is Some
                    && x@ == self.items@[claimant(self.items@, name@)->0].rarity@,
                None => muddled_in(self.items@, name@) || claimant(self.items@, name@) is None,
            },
    {
        if self.muddled(name) {
            return None;
        }
        match self.claimant_at(name) {
            Some(k) => Some(copy_str(self.items[k].rarity.as_str())),
            None => None,
        }
    }

    /// The grade the tables give a name: that of the item it stands for.
    pub fn tier_by_name(&self, name: &str) -> (r: i64)
        ensures
            r == name_tier(self.items@, name@),
    {
        match self.claimant_at(name) {
            Some(k) => self.items[k].tier,
            None => match self.named_at(name, false) {
                Some(k) => self.items[k].tier,
                None => 0,
            },
        }
    }

    /// What the game calls a room, where the tables know it.
    pub fn room_name(&self, room: &str) -> (r: Option<String>)
        ensures
            match crate::sets::lookup(self.rooms@, room@) {
                Some(n) => r is Some && r->0@ == n@,
                None => r is None,
            },
    {
        match crate::sets::find_key(&self.rooms, room) {
            Some(k) => Some(copy_str(self.rooms[k].1.as_str())),
            None => None,
        }
    }
}

} // verus!

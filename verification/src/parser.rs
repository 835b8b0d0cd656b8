//! What the game's messages say, as events the counters can take: the purses,
//! the item identities and names, and the pieces of text the server writes.

use vstd::prelude::*;
use crate::catalog::{by_identity, claimant, muddled_in, Catalog, Known};
use crate::json::{as_int, int_reading, Json};
use crate::text::{all_digits, chars_of, copy_str, eq_ascii_ci, eq_ignore_ascii_case, lowercase, parse_i64, parse_int_in, same_text, string_of_range, to_lower, trim_bounds, trimmed};

verus! {

/// The five purses a character can bank into.
#[derive(PartialEq, Eq, Structural, Clone, Copy, Debug)]
pub enum Purse {
    /// seasonal softcore
    Gss,
    /// seasonal hardcore
    Gsh,
    /// non-seasonal softcore
    Gns,
    /// non-seasonal hardcore
    Gnh,
    /// blood pact
    Gbp,
}

/// How the packets name a purse.
pub open spec fn purse_code(p: Purse) -> Seq<char> {
    match p {
        Purse::Gss => "GSS"@,
        Purse::Gsh => "GSH"@,
        Purse::Gns => "GNS"@,
        Purse::Gnh => "GNH"@,
        Purse::Gbp => "GBP"@,
    }
}

/// The purse a packet's name stands for.
pub open spec fn purse_named(code: Seq<char>) -> Option<Purse> {
    if code == "GSS"@ {
        Some(Purse::Gss)
    } else if code == "GSH"@ {
        Some(Purse::Gsh)
    } else if code == "GNS"@ {
        Some(Purse::Gns)
    } else if code == "GNH"@ {
        Some(Purse::Gnh)
    } else if code == "GBP"@ {
        Some(Purse::Gbp)
    } else {
        None
    }
}

impl Purse {
    /// The purse's name as the packets write it.
    pub fn code(&self) -> (r: &'static str)
        ensures
            r@ == purse_code(*self),
    {
        match self {
            Purse::Gss => "GSS",
            Purse::Gsh => "GSH",
            Purse::Gns => "GNS",
            Purse::Gnh => "GNH",
            Purse::Gbp => "GBP",
        }
    }

    /// The purse a name stands for, if it stands for one.
    pub fn named(code: &str) -> (r: Option<Purse>)
        ensures
            r == purse_named(code@),
    {
        if same_text(code, "GSS") {
            Some(Purse::Gss)
        } else if same_text(code, "GSH") {
            Some(Purse::Gsh)
        } else if same_text(code, "GNS") {
            Some(Purse::Gns)
        } else if same_text(code, "GNH") {
            Some(Purse::Gnh)
        } else if same_text(code, "GBP") {
            Some(Purse::Gbp)
        } else {
            None
        }
    }
}

/// The balances a currency packet reports, purse by purse, and what it says
/// was just banked.
#[derive(Clone, Copy, Debug)]
pub struct Currency {
    pub gss: i64,
    pub gsh: i64,
    pub gns: i64,
    pub gnh: i64,
    pub gbp: i64,
    /// gold gained reported directly by the packet, when there is no total
    pub delta: i64,
}

impl Default for Currency {
    fn default() -> (c: Self)
        ensures
            c.gss == 0 && c.gsh == 0 && c.gns == 0 && c.gnh == 0 && c.gbp == 0 && c.delta == 0,
    {
        Currency { gss: 0, gsh: 0, gns: 0, gnh: 0, gbp: 0, delta: 0 }
    }
}

/// A purse's balance in a packet.
pub open spec fn balance(c: Currency, p: Purse) -> i64 {
    match p {
        Purse::Gss => c.gss,
        Purse::Gsh => c.gsh,
        Purse::Gns => c.gns,
        Purse::Gnh => c.gnh,
        Purse::Gbp => c.gbp,
    }
}

/// How many purses hold anything.
pub open spec fn funded_count(c: Currency) -> int {
    (if c.gss > 0 { 1int } else { 0 }) + (if c.gsh > 0 { 1int } else { 0 }) + (if c.gns > 0 {
        1int
    } else {
        0
    }) + (if c.gnh > 0 { 1int } else { 0 }) + (if c.gbp > 0 { 1int } else { 0 })
}

/// The one purse with anything in it, when exactly one has.
pub open spec fn sole_purse(c: Currency) -> Option<Purse> {
    if funded_count(c) != 1 {
        None
    } else if c.gss > 0 {
        Some(Purse::Gss)
    } else if c.gsh > 0 {
        Some(Purse::Gsh)
    } else if c.gns > 0 {
        Some(Purse::Gns)
    } else if c.gnh > 0 {
        Some(Purse::Gnh)
    } else {
        Some(Purse::Gbp)
    }
}

impl Currency {
    /// The funded purse, when exactly one is.
    pub fn funded_purse(&self) -> (r: Option<Purse>)
        ensures
            r == sole_purse(*self),
    {
        let mut found: Option<Purse> = None;
        let mut count: u8 = 0;
        if self.gss > 0 {
            found = Some(Purse::Gss);
            count = count + 1;
        }
        if self.gsh > 0 {
            if found.is_none() {
                found = Some(Purse::Gsh);
            }
            count = count + 1;
        }
        if self.gns > 0 {
            if found.is_none() {
                found = Some(Purse::Gns);
            }
            count = count + 1;
        }
        if self.gnh > 0 {
            if found.is_none() {
                found = Some(Purse::Gnh);
            }
            count = count + 1;
        }
        if self.gbp > 0 {
            if found.is_none() {
                found = Some(Purse::Gbp);
            }
            count = count + 1;
        }
        if count == 1 {
            found
        } else {
            None
        }
    }

    /// The one purse with anything in it, when exactly one has.
    ///
    /// The save states which purse a character banks into, but it arrives only
    /// when the game saves. Until then a single funded purse is unambiguous and
    /// several are not, so this answers `None` rather than guess.
    pub fn only_purse(&self) -> (r: Option<&'static str>)
        ensures
            match sole_purse(*self) {
                Some(p) => r is Some && r->0@ == purse_code(p),
                None => r is None,
            },
    {
        match self.funded_purse() {
            Some(p) => Some(p.code()),
            None => None,
        }
    }

    /// The balance of one purse.
    pub fn balance_of(&self, p: Purse) -> (r: i64)
        ensures
            r == balance(*self, p),
    {
        match p {
            Purse::Gss => self.gss,
            Purse::Gsh => self.gsh,
            Purse::Gns => self.gns,
            Purse::Gnh => self.gnh,
            Purse::Gbp => self.gbp,
        }
    }

    /// The balance of the purse a packet names, and 0 for a name that is no
    /// purse.
    pub fn for_mode(&self, mode: &str) -> (r: i64)
        ensures
            r == match purse_named(mode@) {
                Some(p) => balance(*self, p),
                None => 0,
            },
    {
        match Purse::named(mode) {
            Some(p) => self.balance_of(p),
            None => 0,
        }
    }
}

/// What the game reported, one thing at a time.
#[derive(Debug)]
pub enum GameEvent {
    Gold(Currency),
    XpGain(i64),
    /// Inventory fingerprints that just left the player's bags.
    ItemsLetGo(Vec<String>),
    /// The account this client is logged in as.
    WhoseAccount(String),
    Account {
        experience: i64,
        has_experience: bool,
        season: i64,
        hardcore: i64,
        blood_pact: i64,
        name: String,
        level: i64,
        herolevel: i64,
        difficulty: i64,
        /// which grade of Hell, 1..5
        hell_sub: i64,
        /// which act the character is in, or 0
        act: i64,
        kills: i64,
        /// every `statistic…` counter the save carries, by flattened name
        tallies: Vec<(String, i64)>,
    },
    Mail(bool),
    /// the room the character stands in, straight from the client's heartbeat
    Room(String),
    /// what the same heartbeat says about the character
    Vitals { mf: Option<i64>, level: i64, hlevel: i64, satanic_here: Option<bool> },
    /// the client asking the server where the satanic zone is, for a region
    ZoneRegion(String),
    /// a find the server put in chat: "Ragnar just found [Azazel's Despair]"
    Found { finder: String, name: String },
    ItemAdded {
        rarity: Json,
        /// an Odyssey item the game did not flag as named
        unscaled: bool,
        mf: bool,
        tier: i64,
        item_type: i64,
        item_id: i64,
        weapon_type: i64,
        seed: i64,
        name: String,
        announced: bool,
        amount: i64,
        fingerprint: String,
        /// the item's own hash: the same at the drop and at the pickup
        hash: String,
        /// generated on the ground, not picked up
        ground: bool,
    },
    SatanicZone { zone: String, buffs: Vec<u8>, debuffs: Vec<u8> },
}

// ---------------------------------------------------------------------------
// Fingerprints
// ---------------------------------------------------------------------------

/// The first `-` at or after `from`.
pub open spec fn dash_from(s: Seq<char>, from: int) -> Option<int>
    decreases s.len() - from,
{
    if from < 0 || from >= s.len() {
        None
    } else if s[from] == '-' {
        Some(from)
    } else {
        dash_from(s, from + 1)
    }
}

/// The account a fingerprint was made for: its second `-`-separated field,
/// when there is a third after it and the second is a run of digits.
pub open spec fn account_of(s: Seq<char>) -> Option<Seq<char>> {
    match dash_from(s, 0) {
        Some(i) => match dash_from(s, i + 1) {
            Some(j) => {
                let acc = s.subrange(i + 1, j);
                if acc.len() > 0 && all_digits(acc) {
                    Some(acc)
                } else {
                    None
                }
            },
            None => None,
        },
        None => None,
    }
}

fn find_dash(v: &[char], from: usize) -> (r: Option<usize>)
    requires
        from <= v@.len(),
    ensures
        match r {
            Some(i) => dash_from(v@, from as int) == Some(i as int) && from <= i < v@.len(),
            None => dash_from(v@, from as int) is None,
        },
    decreases v@.len() - from,
{
    if from >= v.len() {
        return None;
    }
    if v[from] == '-' {
        return Some(from);
    }
    find_dash(v, from + 1)
}

/// The account a fingerprint was made for — its second field.
///
/// ```text
///   99-4964607-1a03b93f92c-10     ours
///   99-133690701-1a03ba73b5f-10   a friend's, picked up off the floor
/// ```
pub fn fingerprint_account(fingerprint: &str) -> (r: Option<String>)
    ensures
        match account_of(fingerprint@) {
            Some(a) => r is Some && r->0@ == a,
            None => r is None,
        },
{
    let v = chars_of(fingerprint);
    let i = match find_dash(v.as_slice(), 0) {
        Some(i) => i,
        None => return None,
    };
    assert(i < v.len());
    let j = match find_dash(v.as_slice(), i + 1) {
        Some(j) => j,
        None => return None,
    };
    if j == i + 1 {
        return None;
    }
    let mut k: usize = i + 1;
    while k < j
        invariant
            i + 1 <= k <= j < v@.len(),
            v@ == fingerprint@,
            dash_from(v@, 0) == Some(i as int),
            dash_from(v@, i + 1) == Some(j as int),
            forall|m: int| i + 1 <= m < k ==> crate::text::is_digit(#[trigger] v@[m]),
        decreases j - k,
    {
        if !('0' <= v[k] && v[k] <= '9') {
            proof {
                let acc = v@.subrange(i + 1, j as int);
                assert(acc[k - i - 1] == v@[k as int]);
            }
            return None;
        }
        k = k + 1;
    }
    proof {
        let acc = v@.subrange(i + 1, j as int);
        assert forall|m: int| 0 <= m < acc.len() implies crate::text::is_digit(#[trigger] acc[m]) by {
            assert(acc[m] == v@[i + 1 + m]);
        }
    }
    Some(string_of_range(v.as_slice(), i + 1, j))
}

/// The last `-` in `s`, if any.
pub open spec fn last_dash(s: Seq<char>) -> Option<int> {
    if exists|i: int| 0 <= i < s.len() && s[i] == '-' {
        Some(choose|i: int| 0 <= i < s.len() && s[i] == '-' && forall|j: int| i < j < s.len() ==> s[j] != '-')
    } else {
        None
    }
}

/// What follows the last `-`, or the whole text without one.
pub open spec fn last_field(s: Seq<char>) -> Seq<char> {
    match last_dash(s) {
        Some(i) => s.skip(i + 1),
        None => s,
    }
}

/// The inventory fingerprint ends with the item TYPE ("8-4653008-...-1" -> 1).
pub fn fingerprint_type(fingerprint: Option<&str>) -> (r: Option<i64>)
    ensures
        match fingerprint {
            Some(f) => match parse_int_in(last_field(f@), true, i64::MIN as int, i64::MAX as int) {
                Some(x) => r == Some(x as i64),
                None => r is None,
            },
            None => r is None,
        },
{
    let f = match fingerprint {
        Some(f) => f,
        None => return None,
    };
    let v = chars_of(f);
    let mut i: usize = v.len();
    while i > 0 && v[i - 1] != '-'
        invariant
            i <= v@.len(),
            forall|j: int| i <= j < v@.len() ==> v@[j] != '-',
        decreases i,
    {
        i = i - 1;
    }
    proof {
        if i > 0 {
            assert(v@[i - 1] == '-');
            let d = last_dash(v@).unwrap();
            if d < i - 1 {
                assert(v@[i - 1] != '-');
            }
            if d > i - 1 {
                assert(v@[d] != '-');
            }
            assert(last_field(v@) == v@.skip(i as int));
        } else {
            assert(last_dash(v@) is None);
            assert(v@.skip(0) == v@);
        }
    }
    let mut tail: Vec<char> = Vec::new();
    let mut k: usize = i;
    while k < v.len()
        invariant
            i <= k <= v@.len(),
            tail@ == v@.subrange(i as int, k as int),
        decreases v@.len() - k,
    {
        tail.push(v[k]);
        k = k + 1;
    }
    assert(tail@ == v@.skip(i as int));
    parse_i64(tail.as_slice())
}

// ---------------------------------------------------------------------------
// What the item tables say about a drop
// ---------------------------------------------------------------------------

/// Consumables: healing potions, and the two Codexes.
pub const CONSUMABLE: i64 = 11;

/// Whether this drop is an Eternity or Infernal Codex: by identity when the
/// packet has one, and by the English name when it does not.
pub open spec fn entry_codex(item_type: i64, item_id: i64, name: Seq<char>) -> bool {
    ||| item_type == CONSUMABLE && (item_id == 18 || item_id == 23)
    ||| lowercase(trimmed(name)) == "eternity codex"@
    ||| lowercase(trimmed(name)) == "infernal codex"@
}

pub fn is_entry_codex(item_type: i64, item_id: i64, name: &str) -> (r: bool)
    ensures
        r == entry_codex(item_type, item_id, name@),
{
    if item_type == CONSUMABLE && (item_id == 18 || item_id == 23) {
        return true;
    }
    let t = crate::text::trim(name);
    let n = to_lower(t.as_str());
    same_text(n.as_str(), "eternity codex") || same_text(n.as_str(), "infernal codex")
}

/// The item the tables hold at this identity, where the packet's name is that
/// item's in some language; an Odyssey item or a nameless one is none.
pub open spec fn known_in(c: Catalog, name: Seq<char>, unscaled: bool, t: i64, i: i64, w: i64) -> Option<int> {
    if unscaled || name.len() == 0 {
        None
    } else {
        match by_identity(c.items@, t, i, w) {
            Some(k) => {
                let e = c.items@[k];
                if name == e.name@ || exists|m: int|
                    0 <= m < c.items@.len() && (#[trigger] c.items@[m]).name@ == e.name@
                        && crate::catalog::has_identity(c.items@[m], t, i, w)
                        && crate::sets::has_text(c.items@[m].names@, name) {
                    Some(k)
                } else {
                    None
                }
            },
            None => None,
        }
    }
}

/// What the tables know about the item a packet is announcing, resolved by
/// identity rather than by name.
pub fn known_item(catalog: &Catalog, name: &str, unscaled: bool, id: (i64, i64, i64)) -> (r: Option<Known>)
    ensures
        match known_in(*catalog, name@, unscaled, id.0, id.1, id.2) {
            Some(k) => r is Some && r->0.name@ == catalog.items@[k].name@ && r->0.rarity@
                == catalog.items@[k].rarity@ && r->0.tier == catalog.items@[k].tier,
            None => r is None,
        },
{
    if unscaled || name.is_empty() {
        return None;
    }
    match catalog.known_by_identity(id.0, id.1, id.2) {
        Some(k) => {
            if catalog.same_item(name, k.name.as_str(), id.0, id.1, id.2) {
                Some(k)
            } else {
                None
            }
        },
        None => None,
    }
}

/// The ten rarities of the packets' scale, in the order their numbers run.
pub open spec fn rarity_names() -> Seq<Seq<char>> {
    seq![
        "Common"@,
        "Superior"@,
        "Rare"@,
        "Set"@,
        "Mythic"@,
        "Satanic"@,
        "Angelic"@,
        "Blessed"@,
        "Heroic"@,
        "Unholy"@,
    ]
}

/// The name of rarity `i` of the packets' scale (0 is `1`, "Common").
pub fn rarity_label(i: usize) -> (r: &'static str)
    requires
        i < 10,
    ensures
        r@ == rarity_names()[i as int],
{
    match i {
        0 => "Common",
        1 => "Superior",
        2 => "Rare",
        3 => "Set",
        4 => "Mythic",
        5 => "Satanic",
        6 => "Angelic",
        7 => "Blessed",
        8 => "Heroic",
        _ => "Unholy",
    }
}

/// What `char::to_uppercase` makes of a character.
pub uninterp spec fn upper(c: char) -> Seq<char>;

/// `char::to_uppercase`, collected.
#[verifier::external_body]
fn upper_char(c: char) -> (s: String)
    ensures
        s@ == upper(c),
{
    c.to_uppercase().collect::<String>()
}

/// A word with its first letter raised and the rest lowered.
pub open spec fn titled(key: Seq<char>) -> Seq<char> {
    if key.len() == 0 {
        key
    } else {
        upper(key[0]) + lowercase(key.drop_first())
    }
}

/// The rarity the packet claims, if it maps to a known one: a number on the
/// ten-point scale, or the name of one in any case.
pub open spec fn packet_rarity(v: Json) -> Option<Seq<char>> {
    match int_reading(v) {
        Some(n) => if 1 <= n <= 10 {
            Some(rarity_names()[n - 1])
        } else {
            None
        },
        None => match v {
            Json::Str(s) => {
                let key = trimmed(s@);
                if key.len() > 0 && rarity_names().contains(titled(key)) {
                    Some(titled(key))
                } else {
                    None
                }
            },
            _ => None,
        },
    }
}

/// The rarity the packet claims, if it maps to a known one.
pub fn rarity_from_packet(rarity: &Json) -> (r: Option<String>)
    ensures
        match packet_rarity(*rarity) {
            Some(x) => r is Some && r->0@ == x,
            None => r is None,
        },
{
    match as_int(rarity) {
        Some(n) => {
            if 1 <= n && n <= 10 {
                let i = (n - 1) as usize;
                return Some(copy_str(rarity_label(i)));
            }
            return None;
        },
        None => {},
    }
    let s = match rarity {
        Json::Str(s) => s,
        _ => return None,
    };
    let all = chars_of(s.as_str());
    let (a, b) = trim_bounds(all.as_slice());
    if a == b {
        return None;
    }
    let key = string_of_range(all.as_slice(), a, b);
    let rest = string_of_range(all.as_slice(), a + 1, b);
    let mut t = upper_char(all[a]);
    let low = to_lower(rest.as_str());
    proof {
        assert(key@ == trimmed(s@));
        assert(key@[0] == all@[a as int]);
        assert(key@.drop_first() == rest@);
    }
    t.append(low.as_str());
    proof {
        assert(int_reading(*rarity) is None);
        assert(packet_rarity(*rarity) == if rarity_names().contains(t@) {
            Some(t@)
        } else {
            None
        });
    }
    let mut i: usize = 0;
    while i < 10
        invariant
            i <= 10,
            t@ == titled(key@),
            packet_rarity(*rarity) == if rarity_names().contains(t@) {
                Some(t@)
            } else {
                None
            },
            forall|j: int| 0 <= j < i ==> rarity_names()[j] != t@,
        decreases 10 - i,
    {
        if same_text(t.as_str(), rarity_label(i)) {
            return Some(t);
        }
        i = i + 1;
    }
    proof {
        assert(rarity_names().len() == 10);
        if rarity_names().contains(t@) {
            let j = choose|j: int| 0 <= j < rarity_names().len() && rarity_names()[j] == t@;
            assert(rarity_names()[j] != t@);
        }
    }
    None
}

/// What a drop's rarity resolves to: the tables' answer by identity, then by
/// name unless the name is muddled, then the packet's claim, else "Unknown".
pub open spec fn resolved_rarity(c: Catalog, packet: Json, name: Seq<char>, unscaled: bool, t: i64, i: i64, w: i64) -> Seq<char> {
    let by_id = known_in(c, name, unscaled, t, i, w);
    if by_id is Some && c.items@[by_id->0].rarity@.len() > 0 {
        c.items@[by_id->0].rarity@
    } else if name.len() > 0 && !unscaled && !muddled_in(c.items@, name) && claimant(c.items@, name) is Some {
        c.items@[claimant(c.items@, name)->0].rarity@
    } else if muddled_in(c.items@, name) {
        "Unknown"@
    } else {
        match packet_rarity(packet) {
            Some(x) => x,
            None => "Unknown"@,
        }
    }
}

/// The rarity a drop counts under.
pub fn resolve_rarity(catalog: &Catalog, packet: &Json, name: &str, unscaled: bool, id: (i64, i64, i64)) -> (r: String)
    ensures
        r@ == resolved_rarity(*catalog, *packet, name@, unscaled, id.0, id.1, id.2),
{
    if let Some(k) = known_item(catalog, name, unscaled, id) {
        if !k.rarity.as_str().is_empty() {
            return k.rarity;
        }
    }
    let known = if name.is_empty() || unscaled {
        None
    } else {
        catalog.rarity_by_name(name)
    };
    if let Some(k) = known {
        return k;
    }
    if catalog.muddled(name) {
        return copy_str("Unknown");
    }
    match rarity_from_packet(packet) {
        Some(x) => x,
        None => copy_str("Unknown"),
    }
}

// ---------------------------------------------------------------------------
// Chat lines
// ---------------------------------------------------------------------------

/// Where a chat line names a find, case aside.
pub open spec fn marker() -> Seq<char> {
    "just found ["@
}

pub open spec fn marker_at(s: Seq<char>, i: int) -> bool {
    0 <= i && i + marker().len() <= s.len() && eq_ascii_ci(s.subrange(i, i + marker().len()), marker())
}

/// The first place the marker stands.
pub open spec fn first_marker(s: Seq<char>) -> Option<int> {
    if exists|i: int| marker_at(s, i) {
        Some(choose|i: int| marker_at(s, i) && forall|j: int| 0 <= j < i ==> !marker_at(s, j))
    } else {
        None
    }
}

/// The first `]` at or after `from`.
pub open spec fn close_from(s: Seq<char>, from: int) -> Option<int>
    decreases s.len() - from,
{
    if from < 0 || from >= s.len() {
        None
    } else if s[from] == ']' {
        Some(from)
    } else {
        close_from(s, from + 1)
    }
}

pub open spec fn is_sep(c: char) -> bool {
    c == ':' || c == '>' || c == ']'
}

/// What follows the last of `:`, `>` and `]` in `s`, or all of it.
pub open spec fn after_last_sep(s: Seq<char>) -> Seq<char> {
    if exists|i: int| 0 <= i < s.len() && is_sep(s[i]) {
        let i = choose|i: int| 0 <= i < s.len() && is_sep(s[i]) && forall|j: int| i < j < s.len() ==> !is_sep(s[j]);
        s.skip(i + 1)
    } else {
        s
    }
}

/// The finder and the find, out of "Ragnar just found [Azazel's Despair]".
pub open spec fn announcement(s: Seq<char>) -> Option<(Seq<char>, Seq<char>)> {
    match first_marker(s) {
        Some(at) => {
            let start = at + marker().len();
            match close_from(s, start) {
                Some(end) => {
                    let name = trimmed(s.subrange(start, end));
                    let finder = trimmed(after_last_sep(trimmed(s.take(at))));
                    if name.len() > 0 {
                        Some((finder, name))
                    } else {
                        None
                    }
                },
                None => None,
            }
        },
        None => None,
    }
}

fn find_close(v: &[char], from: usize) -> (r: Option<usize>)
    requires
        from <= v@.len(),
    ensures
        match r {
            Some(i) => close_from(v@, from as int) == Some(i as int) && from <= i < v@.len(),
            None => close_from(v@, from as int) is None,
        },
    decreases v@.len() - from,
{
    if from >= v.len() {
        return None;
    }
    if v[from] == ']' {
        return Some(from);
    }
    find_close(v, from + 1)
}

/// The first place the marker stands in `v`, case aside.
fn find_marker(v: &[char]) -> (r: Option<usize>)
    ensures
        match r {
            Some(i) => first_marker(v@) == Some(i as int) && i + marker().len() <= v@.len(),
            None => first_marker(v@) is None,
        },
{
    let m = ['j', 'u', 's', 't', ' ', 'f', 'o', 'u', 'n', 'd', ' ', '['];
    proof {
        reveal_strlit("just found [");
        assert(m@ == marker());
    }
    if v.len() < m.len() {
        assert(forall|i: int| !marker_at(v@, i));
        return None;
    }
    let mut i: usize = 0;
    while i <= v.len() - 12
        invariant
            m@ == marker(),
            m@.len() == 12,
            v@.len() >= 12,
            i <= v@.len() - 12 + 1,
            forall|j: int| 0 <= j < i ==> !marker_at(v@, j),
        decreases v@.len() - i,
    {
        let mut w: Vec<char> = Vec::new();
        let mut k: usize = 0;
        while k < 12
            invariant
                k <= 12,
                i + 12 <= v.len(),
                w@ == v@.subrange(i as int, i + k),
            decreases 12 - k,
        {
            w.push(v[i + k]);
            k = k + 1;
        }
        if eq_ignore_ascii_case(w.as_slice(), m.as_slice()) {
            proof {
                assert(marker_at(v@, i as int));
                let f = first_marker(v@).unwrap();
                if f < i {
                    assert(!marker_at(v@, f));
                }
                if f > i {
                    assert(!marker_at(v@, i as int));
                }
            }
            return Some(i);
        }
        i = i + 1;
    }
    assert(forall|j: int| !marker_at(v@, j)) by {
        assert forall|j: int| !marker_at(v@, j) by {
            if 0 <= j && j < i {
            }
        }
    }
    None
}

/// What follows the last separator in `v`, or all of `v`.
fn after_separator(v: &[char]) -> (r: Vec<char>)
    ensures
        r@ == after_last_sep(v@),
{
    let mut i: usize = v.len();
    while i > 0 && !(v[i - 1] == ':' || v[i - 1] == '>' || v[i - 1] == ']')
        invariant
            i <= v@.len(),
            forall|j: int| i <= j < v@.len() ==> !is_sep(v@[j]),
        decreases i,
    {
        i = i - 1;
    }
    let mut out: Vec<char> = Vec::new();
    let mut k: usize = i;
    while k < v.len()
        invariant
            i <= k <= v@.len(),
            out@ == v@.subrange(i as int, k as int),
        decreases v@.len() - k,
    {
        out.push(v[k]);
        k = k + 1;
    }
    proof {
        if i > 0 {
            assert(is_sep(v@[i - 1]));
            let c = choose|c: int| 0 <= c < v@.len() && is_sep(v@[c]) && forall|j: int| c < j < v@.len() ==> !is_sep(v@[j]);
            if c < i - 1 {
                assert(!is_sep(v@[i - 1]));
            }
            if c > i - 1 {
                assert(!is_sep(v@[c]));
            }
        } else {
            assert(v@.skip(0) == v@);
        }
    }
    out
}

/// The characters `lo..hi` of `v` with the white space at either end gone.
fn trimmed_range(v: &[char], lo: usize, hi: usize) -> (r: Vec<char>)
    requires
        lo <= hi <= v@.len(),
    ensures
        r@ == trimmed(v@.subrange(lo as int, hi as int)),
{
    let mut part: Vec<char> = Vec::new();
    let mut k: usize = lo;
    while k < hi
        invariant
            lo <= k <= hi <= v@.len(),
            part@ == v@.subrange(lo as int, k as int),
        decreases hi - k,
    {
        part.push(v[k]);
        k = k + 1;
    }
    let (a, b) = trim_bounds(part.as_slice());
    let mut out: Vec<char> = Vec::new();
    let mut j: usize = a;
    while j < b
        invariant
            a <= j <= b <= part@.len(),
            out@ == part@.subrange(a as int, j as int),
        decreases b - j,
    {
        out.push(part[j]);
        j = j + 1;
    }
    out
}

/// The finder and what they found, out of "Ragnar just found [Azazel's
/// Despair]". The finder can be empty — some lines are worded without one.
#[verifier::rlimit(40)]
pub fn announced_item_name(message: &str) -> (r: Option<(String, String)>)
    ensures
        match announcement(message@) {
            Some((f, n)) => r matches Some((a, b)) && a@ == f && b@ == n,
            None => r is None,
        },
{
    let v = chars_of(message);
    let at = match find_marker(v.as_slice()) {
        Some(at) => at,
        None => return None,
    };
    assert(marker().len() == 12) by {
        reveal_strlit("just found [");
    }
    assert(at + 12 <= v.len());
    let start = at + 12;
    let end = match find_close(v.as_slice(), start) {
        Some(end) => end,
        None => return None,
    };
    let name = trimmed_range(v.as_slice(), start, end);
    if name.len() == 0 {
        return None;
    }
    let head = trimmed_range(v.as_slice(), 0, at);
    assert(v@.subrange(0, at as int) == v@.take(at as int));
    let last = after_separator(head.as_slice());
    let finder = trimmed_range(last.as_slice(), 0, last.len());
    assert(last@.subrange(0, last@.len() as int) == last@);
    Some((crate::text::string_of(finder.as_slice()), crate::text::string_of(name.as_slice())))
}

// ---------------------------------------------------------------------------
// Guild experience
// ---------------------------------------------------------------------------

/// Guild XP is fifteen percent of the character XP that earned it: the share
/// scaled back up, cut to a whole number towards zero. A share too large for
/// the result to fit is no share the game sent, and reads as 0.
pub open spec fn character_share(guild: int) -> int {
    let q = if guild >= 0 { (guild * 20) / 3 } else { -((-guild * 20) / 3) };
    if q >= 0x8000_0000_0000_0000 {
        0
    } else if q < -0x8000_0000_0000_0000 {
        i64::MIN as int
    } else {
        q
    }
}

pub fn guild_share_to_character(guild: i64) -> (r: i64)
    ensures
        r == character_share(guild as int),
{
    let g = guild as i128;
    let q: i128 = if g >= 0 { (g * 20) / 3 } else { 0 - ((0 - g) * 20) / 3 };
    if q >= 0x8000_0000_0000_0000 {
        0
    } else if q < -0x8000_0000_0000_0000 {
        i64::MIN
    } else {
        q as i64
    }
}

// ---------------------------------------------------------------------------
// Where a JSON value ends in a byte stream
// ---------------------------------------------------------------------------

/// The longest a single JSON value may span.
pub const MAX_SPAN: usize = 262144;

/// The walk over a value's bytes from `i`, with the brackets still open, and
/// whether it is inside a string or just after a backslash: where the value
/// closes, if it does before `stop`, and where the walk stopped.
pub open spec fn scan(b: Seq<u8>, i: int, stop: int, stack: Seq<u8>, in_str: bool, esc: bool) -> (Option<int>, int)
    decreases stop - i,
{
    if i >= stop || i < 0 || i >= b.len() {
        (None, i)
    } else {
        let c = b[i];
        if esc {
            scan(b, i + 1, stop, stack, in_str, false)
        } else if c == 0x5c {
            scan(b, i + 1, stop, stack, in_str, true)
        } else if c == 0x22 {
            scan(b, i + 1, stop, stack, !in_str, false)
        } else if (c == 0x7b || c == 0x5b) && !in_str {
            scan(b, i + 1, stop, stack.push(c), in_str, false)
        } else if (c == 0x7d || c == 0x5d) && !in_str {
            if stack.len() == 0 || ((c == 0x7d) != (stack.last() == 0x7b)) {
                (None, i + 1)
            } else if stack.len() == 1 {
                (Some(i), i + 1)
            } else {
                scan(b, i + 1, stop, stack.drop_last(), in_str, false)
            }
        } else {
            scan(b, i + 1, stop, stack, in_str, false)
        }
    }
}

/// Where the value opened at `start` closes, and how far the walk went.
pub open spec fn value_end(b: Seq<u8>, start: int) -> (Option<int>, int) {
    let stop = if b.len() < start + MAX_SPAN { b.len() as int } else { start + MAX_SPAN };
    scan(b, start + 1, stop, seq![b[start]], false, false)
}

proof fn lemma_scan_bounds(b: Seq<u8>, i: int, stop: int, stack: Seq<u8>, in_str: bool, esc: bool)
    requires
        0 <= i,
        stop <= b.len(),
    ensures
        scan(b, i, stop, stack, in_str, esc).1 >= i,
        scan(b, i, stop, stack, in_str, esc).1 <= if i > stop { i } else { stop },
        scan(b, i, stop, stack, in_str, esc).0 matches Some(e) ==> i <= e < stop,
    decreases stop - i,
{
    if i >= stop || i >= b.len() {
    } else {
        let c = b[i];
        if esc {
            lemma_scan_bounds(b, i + 1, stop, stack, in_str, false);
        } else if c == 0x5c {
            lemma_scan_bounds(b, i + 1, stop, stack, in_str, true);
        } else if c == 0x22 {
            lemma_scan_bounds(b, i + 1, stop, stack, !in_str, false);
        } else if (c == 0x7b || c == 0x5b) && !in_str {
            lemma_scan_bounds(b, i + 1, stop, stack.push(c), in_str, false);
        } else if (c == 0x7d || c == 0x5d) && !in_str {
            if stack.len() == 0 || ((c == 0x7d) != (stack.last() == 0x7b)) {
            } else if stack.len() == 1 {
            } else {
                lemma_scan_bounds(b, i + 1, stop, stack.drop_last(), in_str, false);
            }
        } else {
            lemma_scan_bounds(b, i + 1, stop, stack, in_str, false);
        }
    }
}

/// Where the value opened at `start` closes, and how many bytes were read to
/// find that out. The walk gives up a quarter of a megabyte in.
pub fn json_end(b: &[u8], start: usize, walked: &mut usize) -> (r: Option<usize>)
    requires
        start < b@.len(),
    ensures
        match value_end(b@, start as int).0 {
            Some(e) => r == Some(e as usize),
            None => r is None,
        },
        *final(walked) as int == (if *old(walked) as int + (value_end(b@, start as int).1 - start) > usize::MAX {
            usize::MAX as int
        } else {
            *old(walked) as int + (value_end(b@, start as int).1 - start)
        }),
        r matches Some(e) ==> start < e < b@.len(),
        value_end(b@, start as int).0 matches Some(e) ==> start < e < b@.len(),
{
    let stop: usize = if b.len() - start < MAX_SPAN {
        b.len()
    } else {
        start + MAX_SPAN
    };
    let mut stack: Vec<u8> = Vec::new();
    stack.push(b[start]);
    let mut in_str = false;
    let mut esc = false;
    let mut found: Option<usize> = None;
    let mut i: usize = start + 1;
    let ghost goal = value_end(b@, start as int);
    proof {
        assert(stack@ == seq![b@[start as int]]);
    }
    while i < stop
        invariant_except_break
            start + 1 <= i <= stop,
            stop <= b@.len(),
            stop == (if b@.len() < start + MAX_SPAN { b@.len() as int } else { start + MAX_SPAN }),
            goal == value_end(b@, start as int),
            found is None,
            scan(b@, i as int, stop as int, stack@, in_str, esc) == goal,
            stack@.len() >= 1,
        ensures
            start + 1 <= i <= stop,
            goal == value_end(b@, start as int),
            match goal.0 {
                Some(e) => found == Some(e as usize),
                None => found is None,
            },
            goal.1 == i,
        decreases stop - i,
    {
        let c = b[i];
        i = i + 1;
        if esc {
            esc = false;
            continue;
        }
        if c == 0x5c {
            esc = true;
        } else if c == 0x22 {
            in_str = !in_str;
        } else if (c == 0x7b || c == 0x5b) && !in_str {
            stack.push(c);
        } else if (c == 0x7d || c == 0x5d) && !in_str {
            let n = stack.len();
            let open = stack[n - 1];
            if (c == 0x7d) != (open == 0x7b) {
                break;
            }
            if n == 1 {
                found = Some(i - 1);
                break;
            }
            stack.pop();
        }
    }
    proof {
        lemma_scan_bounds(b@, start + 1, stop as int, seq![b@[start as int]], false, false);
    }
    let step = i - start;
    *walked = walked.saturating_add(step);
    found
}

/// Where the value opened at `start` closes, if it does.
pub fn matching_json_end(b: &[u8], start: usize) -> (r: Option<usize>)
    requires
        start < b@.len(),
    ensures
        match value_end(b@, start as int).0 {
            Some(e) => r == Some(e as usize),
            None => r is None,
        },
        r matches Some(e) ==> start < e < b@.len(),
        value_end(b@, start as int).0 matches Some(e) ==> start < e < b@.len(),
{
    let mut walked: usize = 0;
    json_end(b, start, &mut walked)
}

/// Where the first value that never closes starts, from `i` on; the length
/// when every value closes.
pub open spec fn open_from(b: Seq<u8>, i: int) -> int
    decreases b.len() - i,
{
    if i < 0 || i >= b.len() {
        b.len() as int
    } else if b[i] == 0x7b || b[i] == 0x5b {
        match value_end(b, i).0 {
            Some(e) => if e > i && e < b.len() {
                open_from(b, e + 1)
            } else {
                i
            },
            None => i,
        }
    } else {
        open_from(b, i + 1)
    }
}

/// Index where a JSON value starts that never closes in this buffer, so the
/// caller can keep it for the next chunk; the length when everything closes.
pub fn unterminated_start(buf: &[u8]) -> (r: usize)
    ensures
        r as int == open_from(buf@, 0),
{
    let mut i: usize = 0;
    while i < buf.len()
        invariant
            i <= buf@.len(),
            open_from(buf@, 0) == open_from(buf@, i as int),
        decreases buf@.len() - i,
    {
        if buf[i] == 0x7b || buf[i] == 0x5b {
            match matching_json_end(buf, i) {
                Some(end) => {
                    assert(open_from(buf@, i as int) == open_from(buf@, end + 1));
                    i = end + 1;
                },
                None => {
                    return i;
                },
            }
        } else {
            i = i + 1;
        }
    }
    buf.len()
}

pub open spec fn ascii_ws(c: u8) -> bool {
    c == 0x20 || c == 0x09 || c == 0x0a || c == 0x0c || c == 0x0d
}

/// The first byte after `i` that is not white space, if any.
pub open spec fn past_ws(t: Seq<u8>, i: int) -> int
    decreases t.len() - i,
{
    if i >= t.len() || i < 0 || !ascii_ws(t[i]) {
        i
    } else {
        past_ws(t, i + 1)
    }
}

/// Whether an unterminated opener reads as the beginning of a real value: an
/// object goes on with a quote or its own close, an array with something that
/// can start a value. A tail that ends at the opener is an ordinary
/// truncation.
pub open spec fn opens_value(t: Seq<u8>) -> bool {
    if t.len() == 0 {
        false
    } else {
        let i = past_ws(t, 1);
        if i >= t.len() {
            true
        } else {
            let next = t[i];
            if t[0] == 0x7b {
                next == 0x22 || next == 0x7d
            } else if t[0] == 0x5b {
                next == 0x22 || next == 0x7b || next == 0x5b || next == 0x5d || next == 0x2d || next == 0x74
                    || next == 0x66 || next == 0x6e || (0x30 <= next <= 0x39)
            } else {
                false
            }
        }
    }
}

pub fn opens_a_value(tail: &[u8]) -> (r: bool)
    ensures
        r == opens_value(tail@),
{
    if tail.len() == 0 {
        return false;
    }
    let opener = tail[0];
    let mut i: usize = 1;
    while i < tail.len() && (tail[i] == 0x20 || tail[i] == 0x09 || tail[i] == 0x0a || tail[i] == 0x0c || tail[i] == 0x0d)
        invariant
            1 <= i <= tail@.len(),
            past_ws(tail@, 1) == past_ws(tail@, i as int),
        decreases tail@.len() - i,
    {
        i = i + 1;
    }
    if i >= tail.len() {
        return true;
    }
    let next = tail[i];
    if opener == 0x7b {
        next == 0x22 || next == 0x7d
    } else if opener == 0x5b {
        next == 0x22 || next == 0x7b || next == 0x5b || next == 0x5d || next == 0x2d || next == 0x74 || next == 0x66
            || next == 0x6e || (0x30 <= next && next <= 0x39)
    } else {
        false
    }
}

} // verus!

//! The session: what the run has earned, where it is, and what it has found.
//!
//! Time comes in from outside as a `Now`: a reading of the monotonic clock in
//! nanoseconds, and of the wall clock in unix milliseconds. Every operation
//! that depends on the time has a form that takes the reading, which is the one
//! whose contract says what it does; the form without it reads the clocks and
//! hands the reading on.

use vstd::prelude::*;
use crate::catalog::Catalog;
use crate::json::clamp_i64;
use crate::parser::{Currency, Purse};

use crate::text::{copy_str, same_text};

verus! {

// ---------------------------------------------------------------------------
// Time
// ---------------------------------------------------------------------------

/// A reading of the clocks.
#[derive(Clone, Copy, Debug)]
pub struct Now {
    /// nanoseconds on the monotonic clock, from a fixed origin
    pub mono: u64,
    /// unix milliseconds
    pub wall_ms: u64,
}

pub const SECOND: u64 = 1_000_000_000;

/// How long a bank balance step waits for the deposit packet that explains it.
pub const IN_FLIGHT: u64 = 15_000_000_000;

/// How long a run goes without a sign of life before it stops being a run.
pub const IDLE_AFTER: u64 = 300_000_000_000;

/// How long a chat announcement silences the sightings of the same find.
pub const ECHO: u64 = 60_000_000_000;

/// How long an announcement is remembered at all.
pub const ECHO_KEPT: u64 = 120_000_000_000;

/// The revision counters step on, wrapping rather than stopping.
pub open spec fn bump(r: u64) -> u64 {
    if r == u64::MAX {
        0
    } else {
        (r + 1) as u64
    }
}

pub fn bumped(r: u64) -> (s: u64)
    ensures
        s == bump(r),
{
    if r == u64::MAX {
        0
    } else {
        r + 1
    }
}

/// `a + b`, held at the ends of the `i64` range.
pub fn sat_add(a: i64, b: i64) -> (r: i64)
    ensures
        r == clamp_i64(a + b),
{
    let s = a as i128 + b as i128;
    if s > i64::MAX as i128 {
        i64::MAX
    } else if s < i64::MIN as i128 {
        i64::MIN
    } else {
        s as i64
    }
}

// ---------------------------------------------------------------------------
// Tables
// ---------------------------------------------------------------------------

/// The top grade an item can carry. Grades run 1..6 and the interface writes
/// them D, C, B, A, S, SS.
pub const SS_TIER: i64 = 6;

/// The journal keeps this many drops.
pub const JOURNAL_CAP: usize = 400;

/// The graph keeps this many points.
pub const SERIES_CAP: usize = 4000;

/// A run keeps this many of its finds.
pub const RUN_DROPS: usize = 120;

/// The relic type.
pub const RELIC: i64 = 16;

/// What the save counts besides kills, in the order it is shown: the game's
/// counter name flattened to letters and digits, the label, and which list it
/// belongs under.
pub open spec fn tally_table() -> Seq<(Seq<char>, Seq<char>, Seq<char>)> {
    seq![
        ("statisticsatankills"@, "Satan"@, "boss"@),
        ("statisticdamienkills"@, "Damien"@, "boss"@),
        ("statisticreaperkills"@, "Reaper"@, "boss"@),
        ("statisticanubiskills"@, "Anubis"@, "boss"@),
        ("statisticguragkills"@, "Gurag"@, "boss"@),
        ("statisticmeviuskills"@, "Mevius"@, "boss"@),
        ("statisticodinkills"@, "Odin"@, "boss"@),
        ("statisticcthulhukills"@, "Cthulhu"@, "boss"@),
        ("statistickarpkingkills"@, "Karp King"@, "boss"@),
        ("statisticuberdamienkills"@, "Uber Damien"@, "boss"@),
        ("statisticuberreaperkills"@, "Uber Reaper"@, "boss"@),
        ("statisticuberlunakills"@, "Uber Luna"@, "boss"@),
        ("statisticuberendrixiakills"@, "Uber Endrixia"@, "boss"@),
        ("statisticubergabrielkills"@, "Uber Gabriel"@, "boss"@),
        ("statisticuberkingrakhulkills"@, "Uber King Rakhul"@, "boss"@),
        ("statisticubersheepkingkills"@, "Uber Sheep King"@, "boss"@),
        ("statisticubersungleekills"@, "Uber Sung Lee"@, "boss"@),
        ("statisticuberamunrakills"@, "Uber Amun Ra"@, "boss"@),
        ("statisticuberarchitectkills"@, "Uber Architect"@, "boss"@),
        ("statisticuberpapalegbakills"@, "Uber Papa Legba"@, "boss"@),
        ("statisticubercaptaingrimtidekills"@, "Uber Captain Grimtide"@, "boss"@),
        ("statisticuberbloodmaidenkills"@, "Uber Blood Maiden"@, "boss"@),
        ("statisticuberphantomleviathankills"@, "Uber Phantom Leviathan"@, "boss"@),
        ("statisticuberchaostowerkills"@, "Uber Chaos Tower"@, "boss"@),
        ("statisticchaostowerfloorclears"@, "Chaos Tower floors"@, "clear"@),
        ("statisticwormholeclears"@, "Wormholes"@, "clear"@),
        ("statisticcommonchestsopened"@, "Common"@, "chest"@),
        ("statisticrarechestopened"@, "Rare"@, "chest"@),
        ("statisticcrystalchestopened"@, "Crystal"@, "chest"@),
        ("statisticrubychestsopened"@, "Ruby"@, "chest"@),
        ("statisticdungeonchestsopened"@, "Dungeon"@, "chest"@),
    ]
}

pub const TALLY_COUNT: usize = 31;

/// Entry `i` of the tally table: the counter's key, its label and its group.
pub fn tally(i: usize) -> (r: (&'static str, &'static str, &'static str))
    requires
        i < TALLY_COUNT,
    ensures
        r.0@ == tally_table()[i as int].0,
        r.1@ == tally_table()[i as int].1,
        r.2@ == tally_table()[i as int].2,
{
    match i {
        0 => ("statisticsatankills", "Satan", "boss"),
        1 => ("statisticdamienkills", "Damien", "boss"),
        2 => ("statisticreaperkills", "Reaper", "boss"),
        3 => ("statisticanubiskills", "Anubis", "boss"),
        4 => ("statisticguragkills", "Gurag", "boss"),
        5 => ("statisticmeviuskills", "Mevius", "boss"),
        6 => ("statisticodinkills", "Odin", "boss"),
        7 => ("statisticcthulhukills", "Cthulhu", "boss"),
        8 => ("statistickarpkingkills", "Karp King", "boss"),
        9 => ("statisticuberdamienkills", "Uber Damien", "boss"),
        10 => ("statisticuberreaperkills", "Uber Reaper", "boss"),
        11 => ("statisticuberlunakills", "Uber Luna", "boss"),
        12 => ("statisticuberendrixiakills", "Uber Endrixia", "boss"),
        13 => ("statisticubergabrielkills", "Uber Gabriel", "boss"),
        14 => ("statisticuberkingrakhulkills", "Uber King Rakhul", "boss"),
        15 => ("statisticubersheepkingkills", "Uber Sheep King", "boss"),
        16 => ("statisticubersungleekills", "Uber Sung Lee", "boss"),
        17 => ("statisticuberamunrakills", "Uber Amun Ra", "boss"),
        18 => ("statisticuberarchitectkills", "Uber Architect", "boss"),
        19 => ("statisticuberpapalegbakills", "Uber Papa Legba", "boss"),
        20 => ("statisticubercaptaingrimtidekills", "Uber Captain Grimtide", "boss"),
        21 => ("statisticuberbloodmaidenkills", "Uber Blood Maiden", "boss"),
        22 => ("statisticuberphantomleviathankills", "Uber Phantom Leviathan", "boss"),
        23 => ("statisticuberchaostowerkills", "Uber Chaos Tower", "boss"),
        24 => ("statisticchaostowerfloorclears", "Chaos Tower floors", "clear"),
        25 => ("statisticwormholeclears", "Wormholes", "clear"),
        26 => ("statisticcommonchestsopened", "Common", "chest"),
        27 => ("statisticrarechestopened", "Rare", "chest"),
        28 => ("statisticcrystalchestopened", "Crystal", "chest"),
        29 => ("statisticrubychestsopened", "Ruby", "chest"),
        _ => ("statisticdungeonchestsopened", "Dungeon", "chest"),
    }
}

/// The four resource counters, by item type 12..15.
pub open spec fn resource_kinds() -> Seq<Seq<char>> {
    seq!["keys"@, "collectibles"@, "materials"@, "socketables"@]
}

/// The counter a resource of kind `i` is shown under; the last for any other.
pub open spec fn kind_name(i: usize) -> Seq<char> {
    if i < 4 {
        resource_kinds()[i as int]
    } else {
        "socketables"@
    }
}

pub fn resource_kind(i: usize) -> (r: &'static str)
    ensures
        r@ == kind_name(i),
{
    match i {
        0 => "keys",
        1 => "collectibles",
        2 => "materials",
        _ => "socketables",
    }
}

/// What a character wears and carries: the types the grade counters count.
pub open spec fn is_gear(t: i64) -> bool {
    (0 <= t <= 8) || t == 10 || t == 18
}

/// The types whose drops feed a resource counter.
pub open spec fn is_resource_type(t: i64) -> bool {
    12 <= t <= 15
}

// ---------------------------------------------------------------------------
// Records
// ---------------------------------------------------------------------------

#[derive(Clone, Debug)]
pub struct TallyCount {
    pub label: String,
    /// "boss", "chest" or "clear" — which list it belongs under
    pub group: String,
    pub total: i64,
}

#[derive(Clone, Debug)]
pub struct NotableCount {
    pub label: String,
    pub total: i64,
}

/// One resource, named, and which of the four counters it belongs to.
#[derive(Clone, Debug)]
pub struct ResourceCount {
    pub name: String,
    /// `keys`, `materials`, `socketables` or `collectibles`
    pub kind: String,
    pub total: i64,
}

#[derive(Clone, Copy, Debug)]
pub struct ItemCount {
    pub total: i64,
    pub mf: i64,
}

#[derive(Clone, Debug)]
pub struct SatanicZone {
    pub zone: String,
    pub buffs: Vec<u8>,
    pub debuffs: Vec<u8>,
}

impl SatanicZone {
    pub fn copy(&self) -> (r: SatanicZone)
        ensures
            r.zone@ == self.zone@,
            r.buffs@ == self.buffs@,
            r.debuffs@ == self.debuffs@,
    {
        SatanicZone { zone: copy_str(self.zone.as_str()), buffs: copy_bytes(&self.buffs), debuffs: copy_bytes(&self.debuffs) }
    }
}

pub fn copy_bytes(v: &Vec<u8>) -> (r: Vec<u8>)
    ensures
        r@ == v@,
{
    let mut r: Vec<u8> = Vec::new();
    let mut i: usize = 0;
    while i < v.len()
        invariant
            i <= v@.len(),
            r@ == v@.take(i as int),
        decreases v@.len() - i,
    {
        r.push(v[i]);
        i = i + 1;
        assert(r@ =~= v@.take(i as int));
    }
    assert(v@.take(v@.len() as int) == v@);
    r
}

#[derive(Clone, Debug)]
pub struct CharacterInfo {
    pub name: String,
    pub level: i64,
    pub herolevel: i64,
    pub difficulty: i64,
    /// which grade of Hell, 1..5, and 0 when the character is not on Hell
    pub hell_sub: i64,
    pub hardcore: bool,
    pub season: i64,
}

impl CharacterInfo {
    pub fn copy(&self) -> (r: CharacterInfo)
        ensures
            r.name@ == self.name@,
            r.level == self.level,
            r.herolevel == self.herolevel,
            r.difficulty == self.difficulty,
            r.hell_sub == self.hell_sub,
            r.hardcore == self.hardcore,
            r.season == self.season,
    {
        CharacterInfo {
            name: copy_str(self.name.as_str()),
            level: self.level,
            herolevel: self.herolevel,
            difficulty: self.difficulty,
            hell_sub: self.hell_sub,
            hardcore: self.hardcore,
            season: self.season,
        }
    }
}

#[derive(Clone, Debug)]
pub struct DropEntry {
    pub ts_ms: u64,
    pub rarity: String,
    pub mf: bool,
    pub tier: i64,
    pub item_type: i64,
    pub item_id: i64,
    pub weapon_type: i64,
    pub seed: i64,
    pub name: String,
    pub announced: bool,
    pub ground: bool,
    pub zone: Option<String>,
    /// the room it fell in, e.g. "Act_07_02"
    pub room: Option<String>,
    /// which alert to play, decided here so one item cannot chime three times
    pub sound: Option<String>,
    /// passed the alert rules — the ticker and the journal are for these
    pub announce: bool,
    /// passed the flourish's own rules, which are a different question
    pub flourish: bool,
}

pub fn copy_opt(s: &Option<String>) -> (r: Option<String>)
    ensures
        match *s {
            Some(x) => r is Some && r->0@ == x@,
            None => r is None,
        },
{
    match s {
        Some(x) => Some(copy_str(x.as_str())),
        None => None,
    }
}

/// A journal entry as plain values.
pub struct DropView {
    pub ts_ms: u64,
    pub rarity: Seq<char>,
    pub mf: bool,
    pub tier: i64,
    pub item_type: i64,
    pub item_id: i64,
    pub weapon_type: i64,
    pub seed: i64,
    pub name: Seq<char>,
    pub announced: bool,
    pub ground: bool,
    pub zone: Option<Seq<char>>,
    pub room: Option<Seq<char>>,
    pub sound: Option<Seq<char>>,
    pub announce: bool,
    pub flourish: bool,
}

pub open spec fn text_view(o: Option<String>) -> Option<Seq<char>> {
    match o {
        Some(x) => Some(x@),
        None => None,
    }
}

pub open spec fn drop_view(d: DropEntry) -> DropView {
    DropView {
        ts_ms: d.ts_ms,
        rarity: d.rarity@,
        mf: d.mf,
        tier: d.tier,
        item_type: d.item_type,
        item_id: d.item_id,
        weapon_type: d.weapon_type,
        seed: d.seed,
        name: d.name@,
        announced: d.announced,
        ground: d.ground,
        zone: text_view(d.zone),
        room: text_view(d.room),
        sound: text_view(d.sound),
        announce: d.announce,
        flourish: d.flourish,
    }
}

/// A journal as plain values.
pub open spec fn drops_view(s: Seq<DropEntry>) -> Seq<DropView> {
    s.map_values(|d: DropEntry| drop_view(d))
}

impl DropEntry {
    pub fn copy(&self) -> (r: DropEntry)
        ensures
            drop_view(r) == drop_view(*self),
            r.ts_ms == self.ts_ms && r.rarity@ == self.rarity@ && r.mf == self.mf && r.tier == self.tier
                && r.item_type == self.item_type && r.item_id == self.item_id && r.weapon_type
                == self.weapon_type && r.seed == self.seed && r.name@ == self.name@ && r.announced
                == self.announced && r.ground == self.ground && r.announce == self.announce
                && r.flourish == self.flourish,
            r.zone is Some == self.zone is Some,
            r.zone is Some ==> r.zone->0@ == self.zone->0@,
            r.room is Some == self.room is Some,
            r.room is Some ==> r.room->0@ == self.room->0@,
            r.sound is Some == self.sound is Some,
            r.sound is Some ==> r.sound->0@ == self.sound->0@,
    {
        DropEntry {
            ts_ms: self.ts_ms,
            rarity: copy_str(self.rarity.as_str()),
            mf: self.mf,
            tier: self.tier,
            item_type: self.item_type,
            item_id: self.item_id,
            weapon_type: self.weapon_type,
            seed: self.seed,
            name: copy_str(self.name.as_str()),
            announced: self.announced,
            ground: self.ground,
            zone: copy_opt(&self.zone),
            room: copy_opt(&self.room),
            sound: copy_opt(&self.sound),
            announce: self.announce,
            flourish: self.flourish,
        }
    }
}

/// A finished session, as it goes into the history.
#[derive(Clone, Debug)]
pub struct Run {
    pub started_ms: u64,
    pub ended_ms: u64,
    pub secs: u64,
    pub character: Option<String>,
    pub level: i64,
    pub difficulty: i64,
    pub hell_sub: i64,
    pub herolevel: i64,
    pub mf: i64,
    pub hardcore: bool,
    pub season: i64,
    pub gold: i64,
    pub xp: i64,
    pub kills: i64,
    /// rarity -> how many dropped
    pub items: Vec<(String, i64)>,
    pub notable: Vec<RunDrop>,
    /// room -> seconds spent there, longest first
    pub zones: Vec<(String, u64)>,
    /// bosses put down and chests opened
    pub tallies: Vec<TallyCount>,
}

#[derive(Clone, Debug)]
pub struct RunDrop {
    pub name: String,
    pub rarity: String,
    pub tier: i64,
    pub ts_ms: u64,
}

#[derive(Clone, Copy, Debug)]
pub struct SeriesPoint {
    pub t: u64,
    pub gold: i64,
    pub xp: i64,
}

/// A whole category on a list: every item of a rarity, of a type, or of both.
/// `None` is "any" on every field.
#[derive(Clone, Debug)]
pub struct Rule {
    /// lowercased, against the rarity the TABLES give the item
    pub rarity: Option<String>,
    pub item_type: Option<i64>,
    /// the weapon type inside item type 3; ignored without an item type
    pub weapon: Option<i64>,
}

impl Default for Rule {
    fn default() -> (r: Self)
        ensures
            r.rarity is None && r.item_type is None && r.weapon is None,
    {
        Rule { rarity: None, item_type: None, weapon: None }
    }
}

/// Whether a rule takes a drop of this (table) rarity, type and weapon type.
pub open spec fn rule_takes(r: Rule, rarity: Option<Seq<char>>, item_type: i64, weapon_type: i64) -> bool {
    &&& (r.rarity matches Some(want) ==> rarity == Some(want@))
    &&& (r.item_type matches Some(t) ==> t == item_type && (r.weapon matches Some(w) ==> w == weapon_type))
}

impl Rule {
    pub fn matches(&self, rarity: Option<&str>, item_type: i64, weapon_type: i64) -> (r: bool)
        ensures
            r == rule_takes(
                *self,
                match rarity {
                    Some(s) => Some(s@),
                    None => None,
                },
                item_type,
                weapon_type,
            ),
    {
        if let Some(want) = &self.rarity {
            match rarity {
                Some(have) => {
                    if !same_text(have, want.as_str()) {
                        return false;
                    }
                },
                None => return false,
            }
        }
        if let Some(want) = self.item_type {
            if want != item_type {
                return false;
            }
            if let Some(w) = self.weapon {
                if w != weapon_type {
                    return false;
                }
            }
        }
        true
    }
}

/// One list of the active custom filter, ready to be matched against a drop.
#[derive(Clone, Debug)]
pub struct Listed {
    /// the sound key, `list-<id>`
    pub key: String,
    /// item names, lowercased
    pub names: Vec<String>,
    pub rules: Vec<Rule>,
}

/// Everything the player chose, as against everything the session earned.
#[derive(Clone, Debug)]
pub struct Prefs {
    /// Whether notifications fire when an item hits the ground (true) or when
    /// it is picked up (false).
    pub prefer_ground: bool,
    pub alerts: Vec<String>,
    pub min_tier: i64,
    pub fx_rarities: Vec<String>,
    pub fx_tier: i64,
    /// announce anything the custom filter's lists match, whatever its rarity
    pub fx_listed: bool,
    /// hunted relics take the pillar
    pub fx_relic: bool,
    /// Eternity / Infernal Codex take the pillar
    pub fx_codex: bool,
    pub notable_defs: Vec<(String, Vec<String>)>,
    /// the custom lists, in the order the player put them in; the FIRST that
    /// matches wins
    pub sound_lists: Vec<Listed>,
    /// Satanic zone buffs worth an alert. Empty means every rotation.
    pub zone_buffs: Vec<u8>,
    /// Which relics are hunted, by id-in-type. Empty means NONE.
    pub relics: Vec<u16>,
}

/// The counters a default list of notable drops keeps, and the names each
/// one answers to, lowercased.
pub open spec fn notable_table() -> Seq<(Seq<char>, Seq<Seq<char>>)> {
    seq![
        ("Angelic Key"@, seq!["Angelic Key"@]),
        ("Satanic Dice"@, seq!["Satanic Dice"@]),
        ("Prophet's Wisdom"@, seq!["Prophet's Wisdom"@]),
        ("S runes"@, seq!["Qi"@, "Xo"@, "Sur"@, "Ber"@, "Jah"@, "Drax"@, "Zed"@]),
        ("SS runes"@, seq!["Fawn"@, "Flo"@, "Nju"@, "Jol"@, "Sus"@, "Kek"@, "Jord"@]),
    ]
}

fn lowered_all(names: &[&str]) -> (r: Vec<String>)
    ensures
        r@.len() == names@.len(),
        forall|i: int| 0 <= i < names@.len() ==> (#[trigger] r@[i])@ == crate::text::lowercase(names@[i]@),
{
    let mut r: Vec<String> = Vec::new();
    let mut i: usize = 0;
    while i < names.len()
        invariant
            i <= names@.len(),
            r@.len() == i,
            forall|j: int| 0 <= j < i ==> (#[trigger] r@[j])@ == crate::text::lowercase(names@[j]@),
        decreases names@.len() - i,
    {
        r.push(crate::text::to_lower(names[i]));
        i = i + 1;
    }
    r
}

/// Drops worth their own counter, matched by resolved item name: each label
/// with the names it counts, lowercased.
pub fn default_notable() -> (r: Vec<(String, Vec<String>)>)
    ensures
        r@.len() == notable_table().len(),
        forall|i: int|
            0 <= i < r@.len() ==> (#[trigger] r@[i]).0@ == notable_table()[i].0 && r@[i].1@.len()
                == notable_table()[i].1.len() && forall|j: int|
                0 <= j < r@[i].1@.len() ==> (#[trigger] r@[i].1@[j])@ == crate::text::lowercase(
                    notable_table()[i].1[j],
                ),
{
    let mut r: Vec<(String, Vec<String>)> = Vec::new();
    r.push((copy_str("Angelic Key"), lowered_all(&["Angelic Key"])));
    r.push((copy_str("Satanic Dice"), lowered_all(&["Satanic Dice"])));
    r.push((copy_str("Prophet's Wisdom"), lowered_all(&["Prophet's Wisdom"])));
    r.push((copy_str("S runes"), lowered_all(&["Qi", "Xo", "Sur", "Ber", "Jah", "Drax", "Zed"])));
    r.push((copy_str("SS runes"), lowered_all(&["Fawn", "Flo", "Nju", "Jol", "Sus", "Kek", "Jord"])));
    r
}

/// The rarities an alert sounds for until the player says otherwise.
pub open spec fn journal_rarities() -> Seq<Seq<char>> {
    seq!["Satanic"@, "Set"@, "Heroic"@, "Angelic"@, "Unholy"@]
}

/// The settings a session starts with: drops heard where they hit the ground,
/// the five journal rarities sounding at any tier, no custom filter (its tier
/// bar at 6), the default notable table, and no lists, buff pick or relics.
pub open spec fn default_prefs(p: Prefs) -> bool {
    &&& p.prefer_ground
    &&& p.alerts@.len() == 5
    &&& forall|i: int| 0 <= i < 5 ==> (#[trigger] p.alerts@[i])@ == journal_rarities()[i]
    &&& p.min_tier == 0
    &&& p.fx_rarities@.len() == 0
    &&& p.fx_tier == 6
    &&& !p.fx_listed && !p.fx_relic && !p.fx_codex
    &&& p.notable_defs@.len() == notable_table().len()
    &&& forall|i: int|
        0 <= i < p.notable_defs@.len() ==> (#[trigger] p.notable_defs@[i]).0@ == notable_table()[i].0
            && p.notable_defs@[i].1@.len() == notable_table()[i].1.len() && forall|j: int|
            0 <= j < p.notable_defs@[i].1@.len() ==> (#[trigger] p.notable_defs@[i].1@[j])@ == crate::text::lowercase(
                notable_table()[i].1[j],
            )
    &&& p.sound_lists@.len() == 0
    &&& p.zone_buffs@.len() == 0
    &&& p.relics@.len() == 0
}

impl Default for Prefs {
    fn default() -> (p: Self)
        ensures
            default_prefs(p),
    {
        let mut alerts: Vec<String> = Vec::new();
        alerts.push(copy_str("Satanic"));
        alerts.push(copy_str("Set"));
        alerts.push(copy_str("Heroic"));
        alerts.push(copy_str("Angelic"));
        alerts.push(copy_str("Unholy"));
        Prefs {
            prefer_ground: true,
            alerts,
            min_tier: 0,
            fx_rarities: Vec::new(),
            fx_tier: 6,
            fx_listed: false,
            fx_relic: false,
            fx_codex: false,
            notable_defs: default_notable(),
            sound_lists: Vec::new(),
            zone_buffs: Vec::new(),
            relics: Vec::new(),
        }
    }
}

/// Totals carried from one run to the next.
#[derive(Clone, Debug)]
pub struct Carried {
    pub gold: i64,
    pub mode: Option<String>,
    pub xp: i64,
    pub kills: i64,
}

impl Default for Carried {
    fn default() -> (c: Self)
        ensures
            c.gold == 0 && c.mode is None && c.xp == 0 && c.kills == 0,
    {
        Carried { gold: 0, mode: None, xp: 0, kills: 0 }
    }
}

#[derive(Clone, Copy, Debug)]
pub struct Line {
    pub total: i64,
    pub earned: i64,
    pub per_hour: i64,
}

#[derive(Clone, Copy, Debug)]
pub struct ItemStats {
    pub total: i64,
    pub mf: i64,
    pub per_hour: i64,
}

/// What the panels show.
#[derive(Clone, Debug)]
pub struct Snapshot {
    pub status: String,
    pub session_secs: u64,
    /// the clock is stopped: by hand, or because nothing has happened for a while
    pub paused: bool,
    /// how long ago the game last reported these
    pub save_age_secs: Option<u64>,
    pub bank_age_secs: Option<u64>,
    /// the totals are still the ones the last run left behind
    pub carried_bank: bool,
    pub carried_totals: bool,
    pub has_mail: bool,
    pub gold: Line,
    pub xp: Line,
    pub kills: Line,
    pub resources: Vec<(String, i64)>,
    pub resource_items: Vec<ResourceCount>,
    pub finished: bool,
    pub notable: Vec<NotableCount>,
    pub items: Vec<(String, ItemStats)>,
    pub satanic_zone: Option<SatanicZone>,
    /// unix milliseconds
    pub satanic_at: Option<u64>,
    /// where the character is standing, e.g. "Act_08_02"
    pub room: Option<String>,
    /// which act the character is in, from the save
    pub act: i64,
    pub mf: i64,
    pub satanic_here: bool,
    pub character: Option<CharacterInfo>,
    /// bosses put down and chests opened this session
    pub tallies: Vec<TallyCount>,
    /// SS-graded drops this session
    pub ss: i64,
}

/// The heavy part of what the panels show.
#[derive(Clone, Debug)]
pub struct Extra {
    pub character: Option<CharacterInfo>,
    pub series: Vec<SeriesPoint>,
    pub drops: Vec<DropEntry>,
}

// ---------------------------------------------------------------------------
// The session
// ---------------------------------------------------------------------------

/// The session clock: when it started, and how much of it was paused.
#[derive(Clone, Copy, Debug)]
pub struct Clock {
    /// when the session started, on the monotonic clock
    pub start: u64,
    /// the same moment as wall clock, so a finished run can say when it was
    pub started_ms: u64,
    /// when a pause began — back-dated when the app decided on it
    pub paused_at: Option<u64>,
    pub paused_total: u64,
    /// the pause was the player's, which no activity may lift
    pub by_hand: bool,
    /// the last time the run actually moved
    pub last_progress: u64,
}

/// Where the character is and how long it has stood in each room.
#[derive(Clone, Debug)]
pub struct Place {
    pub room: Option<String>,
    /// since when the current room has been counting
    pub room_since: Option<u64>,
    /// seconds this run has spent in each room
    pub zone_time: Vec<(String, u64)>,
    /// which act the save last said the character is in, or 0
    pub act: i64,
    /// magic find as the heartbeat last stated it
    pub mf: i64,
    /// whether the heartbeat says this room is the satanic one
    pub satanic_here: bool,
}

/// The bank: the balance, what it earned, and the deposits and balance steps
/// still waiting for their other half.
#[derive(Clone, Copy, Debug)]
pub struct Bank {
    pub total_gold: i64,
    pub gold_earned: i64,
    pub gold_mode: Option<Purse>,
    pub last_currency: Option<Currency>,
    /// the balance is the one carried from the last run, unconfirmed
    pub stale_bank: bool,
    /// gold counted from a deposit and not yet seen in a balance
    pub banked: i64,
    /// gold counted from a balance step and not yet seen in a deposit
    pub pending_step: i64,
    pub pending_since: Option<u64>,
    /// the highest the bank has been this session, for the purse it is read on
    pub gold_high: i64,
    pub last_bank: Option<u64>,
}

/// The save: experience, kills and the other counters, and whose they are.
#[derive(Clone, Debug)]
pub struct Save {
    pub total_xp: i64,
    pub xp_earned: i64,
    pub total_kills: i64,
    pub kills_earned: i64,
    pub xp_authoritative: bool,
    /// the totals are the ones carried from the last run, unconfirmed
    pub stale_save: bool,
    pub last_save: Option<u64>,
    /// whose totals the marks are measured from
    pub baseline_for: Option<String>,
    /// the last figure the save gave each tally, by its place in the table
    pub tally_base: Vec<Option<i64>>,
    /// how far each tally has moved this session
    pub tally_earned: Vec<i64>,
}

/// What the session has found, and what it remembers of the sightings.
#[derive(Clone, Debug)]
pub struct Finds {
    /// by the ten rarities of the packets' scale, in order
    pub items: Vec<ItemCount>,
    /// grade -> how many gear items of it
    pub graded: Vec<(i64, i64)>,
    /// the four resource counters, keys to socketables
    pub resources: Vec<i64>,
    /// a resource by name: which counter, and how many
    pub resource_items: Vec<(String, (usize, i64))>,
    /// notable label -> how many
    pub notable: Vec<(String, i64)>,
    pub seen: Vec<String>,
    /// tier by item hash, so the pickup knows what the drop said
    pub tier_seen: Vec<(String, i64)>,
    /// identities already counted
    pub counted: Vec<String>,
    /// identities already announced
    pub told: Vec<String>,
    /// fingerprints the player has just let go of
    pub let_go: Vec<String>,
    /// lowercased name -> when the server announced it
    pub announced_at: Vec<(String, u64)>,
    /// the journal, oldest first
    pub drops: Vec<DropEntry>,
}

/// The satanic zone and what is known about how fresh it is.
#[derive(Clone, Debug)]
pub struct ZoneWatch {
    pub satanic: Option<SatanicZone>,
    /// when the server last named it, unix milliseconds
    pub satanic_at: Option<u64>,
    /// when the zone last moved, waiting to be told
    pub sz_changed: Option<u64>,
    /// the zone was carried across a blackout and nothing has confirmed it
    pub stale_zone: bool,
    /// which region the held zone was answered for
    pub zone_region: Option<String>,
    /// which region the question in flight came from
    pub zone_asked_by: Option<String>,
}

/// A session.
pub struct GameStats {
    /// the moment the monotonic readings are taken from
    pub origin: std::time::Instant,
    pub clock: Clock,
    pub place: Place,
    pub bank: Bank,
    pub save: Save,
    pub finds: Finds,
    pub zone: ZoneWatch,
    pub has_mail: bool,
    /// whether anything has said yet; see `mail_state`
    pub mail_known: bool,
    /// a run the player closed by hand: nothing is counted while it holds
    pub finished: bool,
    pub season_mode: Option<Purse>,
    /// the account this client is logged in as, once it has said so
    pub account: Option<String>,
    pub character: Option<CharacterInfo>,
    pub prefs: Prefs,
    pub series: Vec<SeriesPoint>,
    /// bumped by every change
    pub revision: u64,
    /// bumped only by what `extra()` shows
    pub extra_rev: u64,
    /// the item and room tables drops are judged by
    pub catalog: Catalog,
}

/// A session's shape: the tables it keeps have the sizes the code indexes,
/// and no resource is named twice.
pub open spec fn shaped(s: GameStats) -> bool {
    &&& s.finds.items@.len() == 10
    &&& s.finds.resources@.len() == 4
    &&& crate::sets::keys_distinct(s.finds.resource_items@)
    &&& s.save.tally_base@.len() == TALLY_COUNT
    &&& s.save.tally_earned@.len() == TALLY_COUNT
}

/// Nothing earned: the counters a run starts from.
pub open spec fn nothing_earned(s: GameStats) -> bool {
    &&& s.bank.gold_earned == 0
    &&& s.save.xp_earned == 0
    &&& s.save.kills_earned == 0
    &&& forall|i: int| 0 <= i < 10 ==> (#[trigger] s.finds.items@[i]).total == 0 && s.finds.items@[i].mf == 0
    &&& s.finds.graded@.len() == 0
    &&& forall|i: int| 0 <= i < 4 ==> #[trigger] s.finds.resources@[i] == 0
    &&& s.finds.resource_items@.len() == 0
    &&& s.finds.notable@.len() == 0
    &&& forall|i: int| 0 <= i < TALLY_COUNT ==> #[trigger] s.save.tally_earned@[i] == 0
    &&& s.finds.drops@.len() == 0
    &&& s.series@.len() == 0
    &&& s.place.zone_time@.len() == 0
}

fn zeroed_items() -> (v: Vec<ItemCount>)
    ensures
        v@.len() == 10,
        forall|i: int| 0 <= i < 10 ==> (#[trigger] v@[i]).total == 0 && v@[i].mf == 0,
{
    let mut v: Vec<ItemCount> = Vec::new();
    let mut i: usize = 0;
    while i < 10
        invariant
            i <= 10,
            v@.len() == i,
            forall|j: int| 0 <= j < i ==> (#[trigger] v@[j]).total == 0 && v@[j].mf == 0,
        decreases 10 - i,
    {
        v.push(ItemCount { total: 0, mf: 0 });
        i = i + 1;
    }
    v
}

fn zeroes(n: usize) -> (v: Vec<i64>)
    ensures
        v@.len() == n,
        forall|i: int| 0 <= i < n ==> #[trigger] v@[i] == 0,
{
    let mut v: Vec<i64> = Vec::new();
    let mut i: usize = 0;
    while i < n
        invariant
            i <= n,
            v@.len() == i,
            forall|j: int| 0 <= j < i ==> #[trigger] v@[j] == 0,
        decreases n - i,
    {
        v.push(0);
        i = i + 1;
    }
    v
}

fn unmarked(n: usize) -> (v: Vec<Option<i64>>)
    ensures
        v@.len() == n,
        forall|i: int| 0 <= i < n ==> #[trigger] v@[i] is None,
{
    let mut v: Vec<Option<i64>> = Vec::new();
    let mut i: usize = 0;
    while i < n
        invariant
            i <= n,
            v@.len() == i,
            forall|j: int| 0 <= j < i ==> #[trigger] v@[j] is None,
        decreases n - i,
    {
        v.push(None);
        i = i + 1;
    }
    v
}

impl Finds {
    pub fn fresh() -> (f: Finds)
        ensures
            f.items@.len() == 10,
            forall|i: int| 0 <= i < 10 ==> (#[trigger] f.items@[i]).total == 0 && f.items@[i].mf == 0,
            f.graded@.len() == 0,
            f.resources@.len() == 4,
            forall|i: int| 0 <= i < 4 ==> #[trigger] f.resources@[i] == 0,
            f.resource_items@.len() == 0,
            f.notable@.len() == 0,
            f.seen@.len() == 0,
            f.tier_seen@.len() == 0,
            f.counted@.len() == 0,
            f.told@.len() == 0,
            f.let_go@.len() == 0,
            f.announced_at@.len() == 0,
            f.drops@.len() == 0,
    {
        Finds {
            items: zeroed_items(),
            graded: Vec::new(),
            resources: zeroes(4),
            resource_items: Vec::new(),
            notable: Vec::new(),
            seen: Vec::new(),
            tier_seen: Vec::new(),
            counted: Vec::new(),
            told: Vec::new(),
            let_go: Vec::new(),
            announced_at: Vec::new(),
            drops: Vec::new(),
        }
    }
}

/// A session that has just started at `now`: nothing earned and nothing
/// known, the clock running from `now`, open, with the default settings and
/// no memory of any sighting.
pub open spec fn fresh_session(s: GameStats, now: Now) -> bool {
    &&& shaped(s)
    &&& nothing_earned(s)
    &&& s.clock.start == now.mono && s.clock.started_ms == now.wall_ms
    &&& s.clock.paused_at is None && s.clock.paused_total == 0 && !s.clock.by_hand
    &&& s.clock.last_progress == now.mono
    &&& s.place.room is None && s.place.room_since is None && s.place.act == 0
    &&& s.bank.total_gold == 0 && s.bank.gold_mode is None && s.bank.last_currency is None
    &&& !s.bank.stale_bank && s.bank.banked == 0 && s.bank.pending_step == 0
    &&& s.bank.pending_since is None && s.bank.gold_high == 0 && s.bank.last_bank is None
    &&& s.save.total_xp == 0 && s.save.total_kills == 0 && !s.save.xp_authoritative
    &&& !s.save.stale_save && s.save.last_save is None && s.save.baseline_for is None
    &&& forall|i: int| 0 <= i < TALLY_COUNT ==> #[trigger] s.save.tally_base@[i] is None
    &&& s.zone.satanic is None && s.zone.sz_changed is None && !s.zone.stale_zone
    &&& !s.has_mail && !s.mail_known && !s.finished
    &&& s.season_mode is None && s.account is None && s.character is None
    &&& s.revision == 0 && s.extra_rev == 0
    &&& s.place.mf == 0 && !s.place.satanic_here
    &&& s.zone.satanic_at is None && s.zone.zone_region is None && s.zone.zone_asked_by is None
    &&& s.finds.seen@.len() == 0 && s.finds.tier_seen@.len() == 0 && s.finds.counted@.len() == 0
    &&& s.finds.told@.len() == 0 && s.finds.let_go@.len() == 0 && s.finds.announced_at@.len() == 0
    &&& default_prefs(s.prefs)
}

impl GameStats {
    /// A session starting at `now`, judging drops by `catalog`.
    pub fn new_at(now: Now, catalog: Catalog) -> (s: GameStats)
        ensures
            fresh_session(s, now),
            s.catalog == catalog,
    {
        GameStats {
            origin: crate::clock::instant_now(),
            clock: Clock {
                start: now.mono,
                started_ms: now.wall_ms,
                paused_at: None,
                paused_total: 0,
                by_hand: false,
                last_progress: now.mono,
            },
            place: Place {
                room: None,
                room_since: None,
                zone_time: Vec::new(),
                act: 0,
                mf: 0,
                satanic_here: false,
            },
            bank: Bank {
                total_gold: 0,
                gold_earned: 0,
                gold_mode: None,
                last_currency: None,
                stale_bank: false,
                banked: 0,
                pending_step: 0,
                pending_since: None,
                gold_high: 0,
                last_bank: None,
            },
            save: Save {
                total_xp: 0,
                xp_earned: 0,
                total_kills: 0,
                kills_earned: 0,
                xp_authoritative: false,
                stale_save: false,
                last_save: None,
                baseline_for: None,
                tally_base: unmarked(TALLY_COUNT),
                tally_earned: zeroes(TALLY_COUNT),
            },
            finds: Finds::fresh(),
            zone: ZoneWatch {
                satanic: None,
                satanic_at: None,
                sz_changed: None,
                stale_zone: false,
                zone_region: None,
                zone_asked_by: None,
            },
            has_mail: false,
            mail_known: false,
            finished: false,
            season_mode: None,
            account: None,
            character: None,
            prefs: Prefs::default(),
            series: Vec::new(),
            revision: 0,
            extra_rev: 0,
            catalog,
        }
    }
}

} // verus!

//! What each event does to the session: the bank, the save, where the
//! character is, and the satanic zone. Drops are in `finds`.

use vstd::prelude::*;
use crate::json::clamp_i64;
use crate::parser::{balance, sole_purse, Currency, Purse};
use crate::session::{add_sat, sub0};
use crate::stats::{bump, bumped, sat_add, Bank, GameStats, IN_FLIGHT};

verus! {

// ---------------------------------------------------------------------------
// The bank
// ---------------------------------------------------------------------------

/// Every number the bank holds that only ever grows from zero is at least
/// zero; the two debts of a deposit are the ones that shrink.
pub open spec fn bank_ok(b: Bank) -> bool {
    b.banked >= 0 && b.pending_step >= 0 && b.gold_earned >= 0
}

pub open spec fn min_i(a: int, b: int) -> int {
    if a <= b {
        a
    } else {
        b
    }
}

pub open spec fn max_i(a: int, b: int) -> int {
    if a >= b {
        a
    } else {
        b
    }
}

/// A balance step credited a while ago was something else by now, and no
/// longer waits for a deposit.
pub open spec fn expire(b: Bank, now: u64) -> Bank {
    if b.pending_since is Some && sub0(now, b.pending_since->0) > IN_FLIGHT {
        Bank { pending_step: 0, pending_since: None, ..b }
    } else {
        b
    }
}

/// The part of a deposit no balance step has already counted.
pub open spec fn deposit_fresh(b: Bank, delta: i64) -> int {
    delta - min_i(b.pending_step as int, delta as int)
}

/// A deposit: what no balance step has counted yet is earned, and waits for
/// the balance that will show it.
pub open spec fn deposit(b: Bank, delta: i64, now: u64) -> Bank {
    if delta > 0 {
        let already = min_i(b.pending_step as int, delta as int);
        let fresh = deposit_fresh(b, delta);
        Bank {
            pending_step: (b.pending_step - already) as i64,
            gold_earned: if fresh > 0 {
                clamp_i64(b.gold_earned + fresh) as i64
            } else {
                b.gold_earned
            },
            banked: if fresh > 0 {
                clamp_i64(b.banked + fresh) as i64
            } else {
                b.banked
            },
            last_bank: Some(now),
            ..b
        }
    } else {
        b
    }
}

/// What a balance rose by since the highest the bank has been, beyond the
/// deposits already counted: new income.
pub open spec fn step_fresh(b: Bank, mode: Purse, current: i64) -> int {
    if !b.stale_bank && b.total_gold != 0 && b.gold_mode == Some(mode) {
        let diff = current - max_i(b.total_gold as int, b.gold_high as int);
        if diff > 0 {
            diff - min_i(b.banked as int, diff)
        } else {
            0
        }
    } else {
        0
    }
}

/// A balance read on a purse.
pub open spec fn read_balance(b: Bank, mode: Purse, current: i64, now: u64) -> Bank {
    if b.stale_bank {
        Bank {
            total_gold: current,
            gold_high: current,
            gold_mode: Some(mode),
            stale_bank: false,
            banked: 0,
            last_bank: Some(now),
            ..b
        }
    } else {
        let b2 = if b.total_gold != 0 && b.gold_mode == Some(mode) {
            let diff = current - max_i(b.total_gold as int, b.gold_high as int);
            if diff > 0 {
                let already = min_i(b.banked as int, diff);
                let fresh = diff - already;
                Bank {
                    banked: (b.banked - already) as i64,
                    gold_earned: if fresh > 0 {
                        clamp_i64(b.gold_earned + fresh) as i64
                    } else {
                        b.gold_earned
                    },
                    pending_step: if fresh > 0 {
                        clamp_i64(b.pending_step + fresh) as i64
                    } else {
                        b.pending_step
                    },
                    pending_since: if fresh > 0 {
                        Some(now)
                    } else {
                        b.pending_since
                    },
                    ..b
                }
            } else {
                b
            }
        } else {
            b
        };
        Bank {
            total_gold: current,
            gold_high: if b.gold_mode == Some(mode) {
                max_i(b2.gold_high as int, current as int) as i64
            } else {
                current
            },
            gold_mode: Some(mode),
            last_bank: Some(now),
            ..b2
        }
    }
}

/// The purse a packet is read on: the one the save named, else the only one
/// with anything in it.
pub open spec fn purse_for(season: Option<Purse>, c: Currency) -> Option<Purse> {
    match season {
        Some(p) => Some(p),
        None => sole_purse(c),
    }
}

/// The bank after a currency packet.
pub open spec fn bank_after(b: Bank, season: Option<Purse>, c: Currency, now: u64) -> Bank {
    let b1 = deposit(expire(Bank { last_currency: Some(c), ..b }, now), c.delta, now);
    match purse_for(season, c) {
        Some(m) => if balance(c, m) == 0 {
            b1
        } else {
            read_balance(b1, m, balance(c, m), now)
        },
        None => b1,
    }
}

/// Whether a currency packet earned anything.
pub open spec fn bank_moved(b: Bank, season: Option<Purse>, c: Currency, now: u64) -> bool {
    let b0 = expire(Bank { last_currency: Some(c), ..b }, now);
    let b1 = deposit(b0, c.delta, now);
    ||| c.delta > 0 && deposit_fresh(b0, c.delta) > 0
    ||| match purse_for(season, c) {
        Some(m) => balance(c, m) != 0 && step_fresh(b1, m, balance(c, m)) > 0,
        None => false,
    }
}

/// The run moved at `now`, or did not: the clock's side of it.
pub open spec fn progress_effect(a: GameStats, b: GameStats, now: u64, did: bool) -> bool {
    if did {
        &&& b.clock.last_progress == now
        &&& b.clock.by_hand == a.clock.by_hand
        &&& b.clock.start == a.clock.start
        &&& b.clock.started_ms == a.clock.started_ms
        &&& if a.clock.paused_at is Some && !a.clock.by_hand {
            &&& b.clock.paused_at is None
            &&& b.clock.paused_total == add_sat(a.clock.paused_total, sub0(now, a.clock.paused_at->0))
            &&& b.place.room_since == Some(now)
            &&& b.revision == bump(a.revision)
        } else {
            &&& b.clock.paused_at == a.clock.paused_at
            &&& b.clock.paused_total == a.clock.paused_total
            &&& b.place.room_since == a.place.room_since
            &&& b.revision == a.revision
        }
    } else {
        &&& b.clock == a.clock
        &&& b.place.room_since == a.place.room_since
        &&& b.revision == a.revision
    }
}

/// Everything but the bank and the clock's side of progress stays.
pub open spec fn only_bank_moved(a: GameStats, b: GameStats) -> bool {
    &&& b.place.room == a.place.room
    &&& b.place.zone_time == a.place.zone_time
    &&& b.place.act == a.place.act
    &&& b.place.mf == a.place.mf
    &&& b.place.satanic_here == a.place.satanic_here
    &&& b.save == a.save
    &&& b.finds == a.finds
    &&& b.zone == a.zone
    &&& b.series == a.series
    &&& b.extra_rev == a.extra_rev
    &&& b.has_mail == a.has_mail
    &&& b.mail_known == a.mail_known
    &&& b.finished == a.finished
    &&& b.season_mode == a.season_mode
    &&& b.account == a.account
    &&& b.character == a.character
    &&& b.prefs == a.prefs
    &&& b.catalog == a.catalog
}

proof fn lemma_progress_twice(a: GameStats, m: GameStats, b: GameStats, now: u64, d1: bool, d2: bool)
    requires
        progress_effect(a, m, now, d1),
        progress_effect(m, b, now, d2),
    ensures
        progress_effect(a, b, now, d1 || d2),
{
}

/// A deposit and the balance that answers it are one lot of coins: whichever
/// of the two packets arrives first, the same gold is earned and the same
/// balance stands, whatever the bank still held from packets before them, as
/// long as nothing it waits on runs out between the two.
pub proof fn deposit_and_balance_count_once(
    b: Bank,
    p: Purse,
    dep: Currency,
    bal: Currency,
    t1: u64,
    t2: u64,
)
    requires
        bank_ok(b),
        !b.stale_bank,
        b.gold_mode == Some(p),
        b.total_gold > 0,
        dep.delta > 0,
        balance(dep, p) == 0,
        bal.delta == 0,
        balance(bal, p) == max_i(b.total_gold as int, b.gold_high as int) + dep.delta,
        b.gold_earned + dep.delta <= i64::MAX,
        b.banked + dep.delta <= i64::MAX,
        b.pending_step + dep.delta <= i64::MAX,
        t1 <= t2,
        t2 - t1 <= IN_FLIGHT,
        b.pending_since is Some ==> sub0(t2, b.pending_since->0) <= IN_FLIGHT,
    ensures
        bank_after(bank_after(b, Some(p), dep, t1), Some(p), bal, t2).gold_earned
            == bank_after(bank_after(b, Some(p), bal, t1), Some(p), dep, t2).gold_earned,
        bank_after(bank_after(b, Some(p), dep, t1), Some(p), bal, t2).total_gold == balance(bal, p),
        bank_after(bank_after(b, Some(p), bal, t1), Some(p), dep, t2).total_gold == balance(bal, p),
        b.banked == 0 && b.pending_step == 0 ==> bank_after(bank_after(b, Some(p), dep, t1), Some(p), bal, t2).gold_earned
            == b.gold_earned + dep.delta,
{
    let d = dep.delta as int;
    let bb = b.banked as int;
    let pp = b.pending_step as int;
    assert(sub0(t1, t1) <= IN_FLIGHT);
    if b.pending_since is Some {
        assert(sub0(t1, b.pending_since->0) <= sub0(t2, b.pending_since->0));
    }
    // deposit first
    let x0 = expire(Bank { last_currency: Some(dep), ..b }, t1);
    assert(x0.pending_step == b.pending_step && x0.banked == b.banked);
    let x1 = bank_after(b, Some(p), dep, t1);
    let f1 = d - min_i(pp, d);
    assert(x1.gold_earned == b.gold_earned + f1);
    assert(x1.banked == bb + f1);
    // balance first
    let z0 = expire(Bank { last_currency: Some(bal), ..b }, t1);
    assert(z0 == Bank { last_currency: Some(bal), ..b });
    assert(deposit(z0, 0, t1) == z0);
    assert(purse_for(Some(p), bal) == Some(p));
    assert(balance(bal, p) != 0);
    assert(bank_after(b, Some(p), bal, t1) == read_balance(z0, p, balance(bal, p), t1));
    let y1 = bank_after(b, Some(p), bal, t1);
    let g1 = d - min_i(bb, d);
    assert(y1.gold_earned == b.gold_earned + g1);
    assert(y1.pending_step == pp + g1);
    assert(y1.banked == bb - min_i(bb, d));
}

fn min64(a: i64, b: i64) -> (r: i64)
    ensures
        r == min_i(a as int, b as int),
{
    if a <= b {
        a
    } else {
        b
    }
}

impl GameStats {
    /// The deposit half of a currency packet.
    fn take_deposit(&mut self, c: &Currency, now: u64)
        requires
            bank_ok(old(self).bank),
        ensures
            final(self).bank == deposit(expire(Bank { last_currency: Some(*c), ..old(self).bank }, now), c.delta, now),
            bank_ok(final(self).bank),
            progress_effect(
                *old(self),
                *final(self),
                now,
                c.delta > 0 && deposit_fresh(expire(Bank { last_currency: Some(*c), ..old(self).bank }, now), c.delta) > 0,
            ),
            only_bank_moved(*old(self), *final(self)),
    {
        self.bank.last_currency = Some(*c);
        if let Some(at) = self.bank.pending_since {
            if now.saturating_sub(at) > IN_FLIGHT {
                self.bank.pending_step = 0;
                self.bank.pending_since = None;
            }
        }
        if c.delta > 0 {
            let already = min64(self.bank.pending_step, c.delta);
            self.bank.pending_step = self.bank.pending_step - already;
            let fresh = c.delta - already;
            if fresh > 0 {
                self.bank.gold_earned = sat_add(self.bank.gold_earned, fresh);
                self.progressed_at(now);
                self.bank.banked = sat_add(self.bank.banked, fresh);
            }
            self.bank.last_bank = Some(now);
        }
    }

    /// The balance half of a currency packet: `current` read on `mode`.
    fn read_purse(&mut self, mode: Purse, current: i64, now: u64)
        requires
            bank_ok(old(self).bank),
        ensures
            final(self).bank == read_balance(old(self).bank, mode, current, now),
            bank_ok(final(self).bank),
            progress_effect(*old(self), *final(self), now, step_fresh(old(self).bank, mode, current) > 0),
            only_bank_moved(*old(self), *final(self)),
    {
        self.bank.last_bank = Some(now);
        if self.bank.stale_bank {
            self.bank.total_gold = current;
            self.bank.gold_high = current;
            self.bank.gold_mode = Some(mode);
            self.bank.stale_bank = false;
            self.bank.banked = 0;
            return;
        }
        let ghost b = old(self).bank;
        if self.bank.total_gold != 0 && self.bank.gold_mode == Some(mode) {
            let top: i64 = if self.bank.total_gold >= self.bank.gold_high {
                self.bank.total_gold
            } else {
                self.bank.gold_high
            };
            let diff: i128 = current as i128 - top as i128;
            if diff > 0 {
                let already: i64 = if (self.bank.banked as i128) <= diff {
                    self.bank.banked
                } else {
                    diff as i64
                };
                self.bank.banked = self.bank.banked - already;
                if diff > already as i128 {
                    let fresh_wide: i128 = diff - already as i128;
                    let fresh: i64 = if fresh_wide > i64::MAX as i128 {
                        i64::MAX
                    } else {
                        fresh_wide as i64
                    };
                    proof {
                        assert(clamp_i64(b.gold_earned + fresh_wide) == clamp_i64(b.gold_earned + fresh));
                        assert(clamp_i64(b.pending_step + fresh_wide) == clamp_i64(b.pending_step + fresh));
                    }
                    self.bank.gold_earned = sat_add(self.bank.gold_earned, fresh);
                    self.bank.pending_step = sat_add(self.bank.pending_step, fresh);
                    self.bank.pending_since = Some(now);
                    self.progressed_at(now);
                }
            }
        }
        let keep_high = self.bank.gold_mode == Some(mode);
        self.bank.total_gold = current;
        self.bank.gold_high = if keep_high {
            if self.bank.gold_high >= current {
                self.bank.gold_high
            } else {
                current
            }
        } else {
            current
        };
        self.bank.gold_mode = Some(mode);
    }

    /// Gold totals only make sense once the purse is known, and only while it
    /// stays the same — a purse switch is a different balance. A deposit and
    /// the balance that answers it are one lot of coins, in either order.
    pub fn apply_currency(&mut self, c: &Currency, now: u64)
        requires
            bank_ok(old(self).bank),
        ensures
            currency_post(*old(self), *final(self), *c, now),
    {
        let ghost a = *self;
        self.take_deposit(c, now);
        let ghost m = *self;
        let mode = match self.season_mode {
            Some(p) => p,
            None => match c.funded_purse() {
                Some(p) => p,
                None => {
                    return;
                },
            },
        };
        let current = c.balance_of(mode);
        if current == 0 {
            return;
        }
        self.read_purse(mode, current, now);
        proof {
            lemma_progress_twice(a, m, *self, now,
                c.delta > 0 && deposit_fresh(expire(Bank { last_currency: Some(*c), ..a.bank }, now), c.delta) > 0,
                step_fresh(m.bank, mode, current) > 0);
        }
    }
}

// ---------------------------------------------------------------------------
// Small events
// ---------------------------------------------------------------------------

/// How often `x` occurs in `s`.
pub open spec fn count_u8(s: Seq<u8>, x: u8) -> nat
    decreases s.len(),
{
    if s.len() == 0 {
        0
    } else {
        count_u8(s.drop_last(), x) + if s.last() == x {
            1nat
        } else {
            0
        }
    }
}

/// The same ids in any order.
pub open spec fn same_ids(a: Seq<u8>, b: Seq<u8>) -> bool {
    forall|x: u8| #[trigger] count_u8(a, x) == count_u8(b, x)
}

fn count_byte(s: &Vec<u8>, x: u8) -> (r: usize)
    ensures
        r == count_u8(s@, x),
{
    let mut n: usize = 0;
    let mut i: usize = 0;
    while i < s.len()
        invariant
            i <= s@.len(),
            n == count_u8(s@.take(i as int), x),
            n <= i,
        decreases s@.len() - i,
    {
        proof {
            assert(s@.take(i + 1).drop_last() == s@.take(i as int));
        }
        if s[i] == x {
            n = n + 1;
        }
        i = i + 1;
    }
    assert(s@.take(s@.len() as int) == s@);
    n
}

/// The same ids in any order: every id occurs as often in both.
pub fn same_set(a: &Vec<u8>, b: &Vec<u8>) -> (r: bool)
    ensures
        r == same_ids(a@, b@),
{
    let mut x: u16 = 0;
    while x < 256
        invariant
            x <= 256,
            forall|y: u8| (y as int) < x ==> #[trigger] count_u8(a@, y) == count_u8(b@, y),
        decreases 256 - x,
    {
        let y = x as u8;
        if count_byte(a, y) != count_byte(b, y) {
            return false;
        }
        x = x + 1;
    }
    true
}

/// Two optional names, compared by what they say.
pub open spec fn same_opt_text(a: Option<String>, b: Option<String>) -> bool {
    match (a, b) {
        (Some(x), Some(y)) => x@ == y@,
        (None, None) => true,
        _ => false,
    }
}

fn same_opt(a: &Option<String>, b: &Option<String>) -> (r: bool)
    ensures
        r == same_opt_text(*a, *b),
{
    match (a, b) {
        (Some(x), Some(y)) => crate::text::same_text(x.as_str(), y.as_str()),
        (None, None) => true,
        _ => false,
    }
}

/// Whether a zone reply differs from the one held: another room, or another
/// set of buffs or debuffs on it.
pub open spec fn rerolled(held: crate::stats::SatanicZone, zone: Seq<char>, buffs: Seq<u8>, debuffs: Seq<u8>) -> bool {
    held.zone@ != zone || !same_ids(held.buffs@, buffs) || !same_ids(held.debuffs@, debuffs)
}

/// What hearing where the satanic zone is does to the zone's watch: a roll
/// different from the one held, answered for the region that asked last time
/// as well, is a rotation, unless the zone held is one carried over a
/// blackout; and the answer becomes the zone held.
pub open spec fn zone_heard(
    a: crate::stats::ZoneWatch,
    b: crate::stats::ZoneWatch,
    zone: Seq<char>,
    buffs: Seq<u8>,
    debuffs: Seq<u8>,
    now: crate::stats::Now,
) -> bool {
    let moved = same_opt_text(a.zone_region, a.zone_asked_by) && a.satanic is Some && rerolled(
        a.satanic->0,
        zone,
        buffs,
        debuffs,
    );
    &&& b.sz_changed == if moved && !a.stale_zone {
        Some(now.mono)
    } else {
        a.sz_changed
    }
    &&& !b.stale_zone
    &&& same_opt_text(b.zone_region, a.zone_asked_by)
    &&& b.zone_asked_by == a.zone_asked_by
    &&& b.satanic is Some
    &&& b.satanic->0.zone@ == zone
    &&& b.satanic->0.buffs@ == buffs
    &&& b.satanic->0.debuffs@ == debuffs
    &&& b.satanic_at == Some(now.wall_ms)
}

impl GameStats {
    /// Character experience the parser has already scaled.
    pub fn gain_xp(&mut self, gained: i64, now: u64)
        ensures
            xp_post(*old(self), *final(self), gained, now),
    {
        if gained > 0 {
            self.save.total_xp = sat_add(self.save.total_xp, gained);
            self.save.xp_earned = sat_add(self.save.xp_earned, gained);
            self.progressed_at(now);
        }
    }

    /// The server said whether there is mail.
    pub fn hear_mail(&mut self, has: bool)
        ensures
            mail_post(*old(self), *final(self), has),
    {
        self.has_mail = has;
        self.mail_known = true;
    }

    /// The heartbeat named the room the character stands in. The room always
    /// moves; its books are closed only while the clock runs.
    pub fn enter_room(&mut self, room: &String, now: u64)
        ensures
            room_post(*old(self), *final(self), *room, now),
    {
        let same = match &self.place.room {
            Some(r) => crate::text::same_text(r.as_str(), room.as_str()),
            None => false,
        };
        if !same {
            if !self.paused() {
                self.bank_room_time_at(now, now);
                self.place.room_since = Some(now);
            }
            self.place.room = Some(crate::text::copy_str(room.as_str()));
        }
    }

    /// What the heartbeat says about the character. What the packet did not
    /// state is left where it was.
    pub fn hear_vitals(&mut self, mf: Option<i64>, level: i64, hlevel: i64, satanic_here: Option<bool>)
        ensures
            vitals_post(*old(self), *final(self), mf, level, hlevel, satanic_here),
    {
        let mf = match mf {
            Some(m) => m,
            None => self.place.mf,
        };
        let here = match satanic_here {
            Some(h) => h,
            None => self.place.satanic_here,
        };
        if mf != self.place.mf || here != self.place.satanic_here {
            self.revision = bumped(self.revision);
        }
        self.place.mf = mf;
        self.place.satanic_here = here;
        let mut moved = false;
        if let Some(c) = &mut self.character {
            if level > 0 && c.level != level {
                c.level = level;
                moved = true;
            }
            if hlevel > 0 && c.herolevel != hlevel {
                c.herolevel = hlevel;
                moved = true;
            }
        }
        if moved {
            self.revision = bumped(self.revision);
            self.extra_rev = bumped(self.extra_rev);
        }
    }

    /// The server's answer to where the satanic zone is. A roll different from
    /// the one held, answered for the region that asked last time as well, is
    /// the rotation — unless the zone is still the one carried over a blackout.
    pub fn hear_zone(&mut self, zone: &String, buffs: &Vec<u8>, debuffs: &Vec<u8>, now: crate::stats::Now)
        ensures
            zone_post(*old(self), *final(self), *zone, *buffs, *debuffs, now),
    {
        let same_region = same_opt(&self.zone.zone_region, &self.zone.zone_asked_by);
        let moved = same_region && match &self.zone.satanic {
            Some(s) => !crate::text::same_text(s.zone.as_str(), zone.as_str()) || !same_set(&s.buffs, buffs)
                || !same_set(&s.debuffs, debuffs),
            None => false,
        };
        if moved && !self.zone.stale_zone {
            self.zone.sz_changed = Some(now.mono);
        }
        self.zone.stale_zone = false;
        self.zone.zone_region = crate::stats::copy_opt(&self.zone.zone_asked_by);
        self.zone.satanic = Some(
            crate::stats::SatanicZone {
                zone: crate::text::copy_str(zone.as_str()),
                buffs: crate::stats::copy_bytes(buffs),
                debuffs: crate::stats::copy_bytes(debuffs),
            },
        );
        self.zone.satanic_at = Some(now.wall_ms);
    }
}

// ---------------------------------------------------------------------------
// The save
// ---------------------------------------------------------------------------

/// The counters a save moves never go below zero.
pub open spec fn save_ok(v: crate::stats::Save) -> bool {
    &&& v.xp_earned >= 0
    &&& v.kills_earned >= 0
    &&& v.total_xp >= 0
    &&& v.tally_base@.len() == crate::stats::TALLY_COUNT
    &&& v.tally_earned@.len() == crate::stats::TALLY_COUNT
    &&& forall|i: int| 0 <= i < crate::stats::TALLY_COUNT ==> #[trigger] v.tally_earned@[i] >= 0
}

/// The purse a save names.
pub open spec fn mode_of(season: i64, hardcore: i64, blood_pact: i64) -> Purse {
    if season > 0 {
        if hardcore == 1 {
            Purse::Gsh
        } else {
            Purse::Gss
        }
    } else if blood_pact != 0 {
        Purse::Gbp
    } else if hardcore == 1 {
        Purse::Gnh
    } else {
        Purse::Gns
    }
}

/// A save from another character than the marks were taken from.
pub open spec fn switched_to(s: GameStats, has_experience: bool, name: Seq<char>) -> bool {
    has_experience && name.len() > 0 && s.save.baseline_for is Some && s.save.baseline_for->0@ != name
}

/// Whether this save stands on a higher hero level than the last one did.
pub open spec fn levelled(s: GameStats, herolevel: i64) -> bool {
    s.character is Some && s.character->0.herolevel > 0 && herolevel > s.character->0.herolevel
}

/// The act a room's name says it belongs to: `Act_08_02` is act 8 and
/// `Town_04_rm` act 4; anything else belongs to none.
pub open spec fn act_of_room(room: Seq<char>) -> Option<int> {
    let rest = if room.len() >= 4 && (room.take(4) == "Act_"@ || room.take(4) == "act_"@) {
        Some(room.skip(4))
    } else if room.len() >= 5 && (room.take(5) == "Town_"@ || room.take(5) == "town_"@) {
        Some(room.skip(5))
    } else {
        None
    };
    match rest {
        Some(r) => {
            let d = r.take(crate::json::digit_run(r) as int);
            match crate::text::parse_int_in(d, true, i64::MIN as int, i64::MAX as int) {
                Some(n) => if n > 0 {
                    Some(n)
                } else {
                    None
                },
                None => None,
            }
        },
        None => None,
    }
}

fn leading_digits(v: &Vec<char>, from: usize) -> (r: Vec<char>)
    requires
        from <= v@.len(),
    ensures
        r@ == v@.skip(from as int).take(crate::json::digit_run(v@.skip(from as int)) as int),
{
    let ghost t = v@.skip(from as int);
    let mut r: Vec<char> = Vec::new();
    let mut i: usize = from;
    while i < v.len() && '0' <= v[i] && v[i] <= '9'
        invariant
            from <= i <= v@.len(),
            t == v@.skip(from as int),
            r@ == t.take(i - from),
            forall|j: int| 0 <= j < i - from ==> crate::text::is_digit(#[trigger] t[j]),
        decreases v@.len() - i,
    {
        r.push(v[i]);
        i = i + 1;
        assert(r@ =~= t.take(i - from));
    }
    proof {
        lemma_digit_run_is(t, (i - from) as int);
    }
    r
}

proof fn lemma_digit_run_is(t: Seq<char>, n: int)
    requires
        0 <= n <= t.len(),
        forall|j: int| 0 <= j < n ==> crate::text::is_digit(#[trigger] t[j]),
        n == t.len() || !crate::text::is_digit(t[n]),
    ensures
        crate::json::digit_run(t) == n,
    decreases n,
{
    if n > 0 {
        assert forall|j: int| 0 <= j < n - 1 implies crate::text::is_digit(#[trigger] t.drop_first()[j]) by {
            assert(t.drop_first()[j] == t[j + 1]);
        }
        if n < t.len() {
            assert(t.drop_first()[n - 1] == t[n]);
        }
        lemma_digit_run_is(t.drop_first(), n - 1);
    }
}

/// Which act a room name belongs to, where the name says so.
pub fn act_of_room_name(room: &str) -> (r: Option<i64>)
    ensures
        match act_of_room(room@) {
            Some(n) => r == Some(n as i64),
            None => r is None,
        },
{
    let v = crate::text::chars_of(room);
    let act = ['A', 'c', 't', '_'];
    let act_l = ['a', 'c', 't', '_'];
    let town = ['T', 'o', 'w', 'n', '_'];
    let town_l = ['t', 'o', 'w', 'n', '_'];
    proof {
        reveal_strlit("Act_");
        reveal_strlit("act_");
        reveal_strlit("Town_");
        reveal_strlit("town_");
        assert(act@ == "Act_"@);
        assert(act_l@ == "act_"@);
        assert(town@ == "Town_"@);
        assert(town_l@ == "town_"@);
        assert(v@.subrange(0, 4) == v@.take(4)) by {
        }
    }
    let from: usize = if crate::text::starts_with(v.as_slice(), act.as_slice()) || crate::text::starts_with(
        v.as_slice(),
        act_l.as_slice(),
    ) {
        proof {
            assert(v@.subrange(0, 4) == v@.take(4));
        }
        4
    } else if crate::text::starts_with(v.as_slice(), town.as_slice()) || crate::text::starts_with(
        v.as_slice(),
        town_l.as_slice(),
    ) {
        proof {
            assert(v@.subrange(0, 5) == v@.take(5));
            assert(!(v@.len() >= 4 && (v@.take(4) == "Act_"@ || v@.take(4) == "act_"@))) by {
                if v@.len() >= 4 {
                    assert(v@.subrange(0, 4) == v@.take(4));
                }
            }
        }
        5
    } else {
        proof {
            if v@.len() >= 4 {
                assert(v@.subrange(0, 4) == v@.take(4));
            }
            if v@.len() >= 5 {
                assert(v@.subrange(0, 5) == v@.take(5));
            }
        }
        return None;
    };
    let d = leading_digits(&v, from);
    match crate::text::parse_i64(d.as_slice()) {
        Some(n) => if n > 0 {
            Some(n)
        } else {
            None
        },
        None => None,
    }
}

fn clear_marks(v: &mut Vec<Option<i64>>)
    ensures
        final(v)@.len() == old(v)@.len(),
        forall|j: int| 0 <= j < final(v)@.len() ==> #[trigger] final(v)@[j] is None,
{
    let n = v.len();
    let mut i: usize = 0;
    while i < n
        invariant
            n == v@.len(),
            i <= n,
            forall|j: int| 0 <= j < i ==> #[trigger] v@[j] is None,
        decreases n - i,
    {
        v.set(i, None);
        i = i + 1;
    }
}

impl GameStats {
    /// The save's first half: when it came, and whose marks the totals are
    /// measured from. A save from another character throws the marks away, and
    /// the purse with them.
    pub fn note_save(&mut self, has_experience: bool, name: &String, now: u64)
        ensures
            save_noted(*old(self), *final(self), has_experience, *name, now),
    {
        if has_experience {
            self.save.last_save = Some(now);
        }
        let switched = has_experience && !name.as_str().is_empty() && match &self.save.baseline_for {
            Some(had) => !crate::text::same_text(had.as_str(), name.as_str()),
            None => false,
        };
        if switched {
            self.save.stale_save = true;
            self.save.xp_authoritative = false;
            self.save.total_kills = 0;
            clear_marks(&mut self.save.tally_base);
            self.bank.stale_bank = true;
            self.bank.banked = 0;
            self.bank.pending_step = 0;
            self.bank.pending_since = None;
            self.bank.gold_high = 0;
        }
        if has_experience && !name.as_str().is_empty() {
            self.save.baseline_for = Some(crate::text::copy_str(name.as_str()));
        }
    }

    /// The save's experience: a first total only calibrates, a carried one is
    /// replaced, and a later one credits what it rose by — or, across a hero
    /// level, what carried over into the new level.
    pub fn count_xp(&mut self, experience: i64, has_experience: bool, herolevel: i64, kills: i64, now: u64)
        requires
            save_ok(old(self).save),
        ensures
            xp_counted(*old(self), *final(self), experience, has_experience, herolevel, kills, now),
    {
        if self.save.stale_save && has_experience && experience > 0 {
            self.save.total_xp = experience;
            self.save.xp_authoritative = true;
            self.save.total_kills = kills;
            self.save.stale_save = false;
            return;
        }
        if has_experience && experience > 0 {
            if self.save.xp_authoritative {
                if experience > self.save.total_xp {
                    let diff = experience - self.save.total_xp;
                    self.save.xp_earned = sat_add(self.save.xp_earned, diff);
                    self.progressed_at(now);
                } else if self.gained_a_hero_level(herolevel) {
                    self.save.xp_earned = sat_add(self.save.xp_earned, experience);
                    self.progressed_at(now);
                }
            }
            self.save.total_xp = experience;
            self.save.xp_authoritative = true;
        }
    }

    /// Whether this save stands on a higher hero level than the last one did.
    pub fn gained_a_hero_level(&self, now: i64) -> (r: bool)
        ensures
            r == levelled(*self, now),
    {
        match &self.character {
            Some(c) => c.herolevel > 0 && now > c.herolevel,
            None => false,
        }
    }
}

/// One tally after a save: the first figure only sets the mark, a later one
/// credits what it rose by; a lower one just moves the mark.
pub open spec fn tally_after(base: Option<i64>, earned: i64, reading: Option<i64>) -> (Option<i64>, i64) {
    match reading {
        Some(v) => match base {
            Some(seen) => (Some(v), if v > seen {
                clamp_i64(earned + (v - seen)) as i64
            } else {
                earned
            }),
            None => (Some(v), earned),
        },
        None => (base, earned),
    }
}

/// The purse's name and the character as a save states them.
pub open spec fn character_from(
    name: Seq<char>,
    level: i64,
    herolevel: i64,
    difficulty: i64,
    hell_sub: i64,
    hardcore: i64,
    season: i64,
    c: crate::stats::CharacterInfo,
) -> bool {
    &&& c.name@ == name
    &&& c.level == level
    &&& c.herolevel == herolevel
    &&& c.difficulty == difficulty
    &&& c.hell_sub == hell_sub
    &&& c.hardcore == (hardcore == 1)
    &&& c.season == season
}

impl GameStats {
    /// The save's kill total. The game rebases it itself, so a lower total only
    /// moves the mark and the counter never stalls waiting for the old peak.
    pub fn count_kills(&mut self, kills: i64, now: u64)
        requires
            save_ok(old(self).save),
        ensures
            kills_counted(*old(self), *final(self), kills, now),
    {
        if kills > 0 && self.save.total_kills != kills {
            if self.save.total_kills != 0 {
                let diff: i128 = kills as i128 - self.save.total_kills as i128;
                if diff > 0 {
                    let step: i64 = if diff > i64::MAX as i128 {
                        i64::MAX
                    } else {
                        diff as i64
                    };
                    proof {
                        assert(clamp_i64(self.save.kills_earned + diff) == clamp_i64(self.save.kills_earned + step));
                    }
                    self.save.kills_earned = sat_add(self.save.kills_earned, step);
                    self.progressed_at(now);
                }
            }
            self.save.total_kills = kills;
        }
    }

    /// The bosses and the chests: the first save to name a counter only sets
    /// the mark it is measured from.
    pub fn count_tallies(&mut self, tallies: &Vec<(String, i64)>)
        requires
            save_ok(old(self).save),
        ensures
            tallies_counted(*old(self), *final(self), *tallies),
    {
        let mut base: Vec<Option<i64>> = Vec::new();
        let mut earned: Vec<i64> = Vec::new();
        std::mem::swap(&mut base, &mut self.save.tally_base);
        std::mem::swap(&mut earned, &mut self.save.tally_earned);
        let ghost b0 = base@;
        let ghost e0 = earned@;
        let mut i: usize = 0;
        while i < crate::stats::TALLY_COUNT
            invariant
                i <= crate::stats::TALLY_COUNT,
                base@.len() == crate::stats::TALLY_COUNT,
                earned@.len() == crate::stats::TALLY_COUNT,
                b0.len() == crate::stats::TALLY_COUNT,
                e0.len() == crate::stats::TALLY_COUNT,
                forall|j: int| 0 <= j < crate::stats::TALLY_COUNT ==> #[trigger] e0[j] >= 0,
                forall|j: int| 0 <= j < crate::stats::TALLY_COUNT ==> #[trigger] earned@[j] >= 0,
                forall|j: int|
                    0 <= j < i ==> (#[trigger] base@[j], earned@[j]) == tally_after(
                        b0[j],
                        e0[j],
                        crate::sets::lookup(tallies@, crate::stats::tally_table()[j].0),
                    ),
                forall|j: int| i <= j < crate::stats::TALLY_COUNT ==> #[trigger] base@[j] == b0[j] && earned@[j] == e0[j],
            decreases crate::stats::TALLY_COUNT - i,
        {
            let ghost ob = base@;
            let ghost oe = earned@;
            let (key, _, _) = crate::stats::tally(i);
            match crate::sets::get_key(tallies, key) {
                Some(v) => {
                    match base[i] {
                        Some(seen) => {
                            let diff: i128 = v as i128 - seen as i128;
                            if diff > 0 {
                                let step: i64 = if diff > i64::MAX as i128 {
                                    i64::MAX
                                } else {
                                    diff as i64
                                };
                                proof {
                                    assert(clamp_i64(earned@[i as int] + diff) == clamp_i64(earned@[i as int] + step));
                                }
                                let e = sat_add(earned[i], step);
                                earned.set(i, e);
                            }
                        },
                        None => {},
                    }
                    base.set(i, Some(v));
                },
                None => {},
            }
            proof {
                assert forall|j: int| i < j < crate::stats::TALLY_COUNT implies #[trigger] base@[j] == b0[j]
                    && earned@[j] == e0[j] by {
                    assert(base@[j] == ob[j]);
                    assert(earned@[j] == oe[j]);
                    assert(ob[j] == b0[j] && oe[j] == e0[j]);
                }
            }
            i = i + 1;
        }
        self.save.tally_base = base;
        self.save.tally_earned = earned;
    }

    /// Where the character is, coarsely: the act the save states, and a room
    /// in another act retired as outlived.
    pub fn note_act(&mut self, act: i64, now: u64)
        ensures
            act_noted(*old(self), *final(self), act, now),
    {
        if act > 0 && self.place.act != act {
            self.place.act = act;
            self.revision = bumped(self.revision);
        }
        if act > 0 {
            let was = match &self.place.room {
                Some(room) => act_of_room_name(room.as_str()),
                None => None,
            };
            if let Some(was) = was {
                if was != act {
                    self.bank_room_time_at(now, now);
                    self.place.room = None;
                    self.place.room_since = None;
                    self.revision = bumped(self.revision);
                }
            }
        }
    }

    /// Who is playing and on which purse. A login-identity packet only fills
    /// in what a full save has not set yet.
    pub fn note_identity(
        &mut self,
        has_experience: bool,
        season: i64,
        hardcore: i64,
        blood_pact: i64,
        name: &String,
        level: i64,
        herolevel: i64,
        difficulty: i64,
        hell_sub: i64,
    )
        ensures
            identity_noted(*old(self), *final(self), has_experience, season, hardcore, blood_pact, *name, level, herolevel, difficulty, hell_sub),
    {
        if has_experience || self.season_mode.is_none() {
            self.season_mode = Some(
                if season > 0 {
                    if hardcore == 1 {
                        Purse::Gsh
                    } else {
                        Purse::Gss
                    }
                } else if blood_pact != 0 {
                    Purse::Gbp
                } else if hardcore == 1 {
                    Purse::Gnh
                } else {
                    Purse::Gns
                },
            );
        }
        if has_experience || self.character.is_none() {
            self.extra_rev = bumped(self.extra_rev);
            self.character = Some(
                crate::stats::CharacterInfo {
                    name: crate::text::copy_str(name.as_str()),
                    level,
                    herolevel,
                    difficulty,
                    hell_sub,
                    hardcore: hardcore == 1,
                    season,
                },
            );
        }
    }
}

/// The settings, the tables, the run's closing and the mailbox, as they were.
pub open spec fn settings_kept(a: GameStats, b: GameStats) -> bool {
    &&& b.prefs == a.prefs
    &&& b.catalog == a.catalog
    &&& b.finished == a.finished
    &&& b.has_mail == a.has_mail
    &&& b.mail_known == a.mail_known
}

/// What `apply_currency` does, from the session before to the session after.
pub open spec fn currency_post(a: GameStats, b: GameStats, c: Currency, now: u64) -> bool {
    &&& b.bank == bank_after(a.bank, a.season_mode, c, now)
    &&& bank_ok(b.bank)
    &&& b.bank.gold_earned >= a.bank.gold_earned
    &&& progress_effect(a, b, now, bank_moved(a.bank, a.season_mode, c, now))
    &&& only_bank_moved(a, b)
}

/// What `gain_xp` does, from the session before to the session after.
pub open spec fn xp_post(a: GameStats, b: GameStats, gained: i64, now: u64) -> bool {
    &&& gained > 0 ==> b.save.total_xp == clamp_i64(a.save.total_xp + gained)
        && b.save.xp_earned == clamp_i64(a.save.xp_earned + gained)
    &&& gained <= 0 ==> b.save == a.save
    &&& progress_effect(a, b, now, gained > 0)
    &&& b.save.total_kills == a.save.total_kills
    &&& b.save.kills_earned == a.save.kills_earned
    &&& b.save.tally_earned == a.save.tally_earned
    &&& b.save.tally_base == a.save.tally_base
    &&& b.save.xp_authoritative == a.save.xp_authoritative
    &&& b.save.stale_save == a.save.stale_save
    &&& b.save.baseline_for == a.save.baseline_for
    &&& b.save.last_save == a.save.last_save
    &&& b.bank == a.bank
    &&& b.finds == a.finds
    &&& b.zone == a.zone
    &&& settings_kept(a, b)
    &&& b.season_mode == a.season_mode
    &&& b.account == a.account
    &&& b.character == a.character
    &&& b.series == a.series
    &&& b.extra_rev == a.extra_rev
    &&& b.place.room == a.place.room
    &&& b.place.zone_time == a.place.zone_time
    &&& b.place.act == a.place.act
    &&& b.place.mf == a.place.mf
    &&& b.place.satanic_here == a.place.satanic_here
}

/// What `hear_mail` does, from the session before to the session after.
pub open spec fn mail_post(a: GameStats, b: GameStats, has: bool) -> bool {
    &&& b.has_mail == has
    &&& b.mail_known
    &&& b.clock == a.clock
    &&& b.place == a.place
    &&& b.bank == a.bank
    &&& b.save == a.save
    &&& b.finds == a.finds
    &&& b.zone == a.zone
    &&& b.prefs == a.prefs
    &&& b.catalog == a.catalog
    &&& b.account == a.account
    &&& b.character == a.character
    &&& b.season_mode == a.season_mode
    &&& b.revision == a.revision
    &&& b.finished == a.finished
    &&& b.series == a.series
    &&& b.extra_rev == a.extra_rev
}

/// What `enter_room` does, from the session before to the session after.
pub open spec fn room_post(a: GameStats, b: GameStats, room: String, now: u64) -> bool {
    &&& a.place.room is Some && a.place.room->0@ == room@ ==> b.place
        == a.place
    &&& !(a.place.room is Some && a.place.room->0@ == room@) ==> {
        &&& b.place.room is Some
        &&& b.place.room->0@ == room@
        &&& b.place.act == a.place.act
        &&& b.place.mf == a.place.mf
        &&& b.place.satanic_here == a.place.satanic_here
        &&& if a.clock.paused_at is None {
            &&& crate::session::room_banked(
                a.place,
                crate::stats::Place { room: a.place.room, ..b.place },
                now,
                Some(now),
            )
        } else {
            &&& b.place.room_since == a.place.room_since
            &&& b.place.zone_time == a.place.zone_time
        }
    }
    &&& b.clock == a.clock
    &&& b.bank == a.bank
    &&& b.save == a.save
    &&& b.finds == a.finds
    &&& b.zone == a.zone
    &&& b.revision == a.revision
    &&& settings_kept(a, b)
    &&& b.season_mode == a.season_mode
    &&& b.account == a.account
    &&& b.character == a.character
    &&& b.series == a.series
    &&& b.extra_rev == a.extra_rev
}

/// What `hear_vitals` does, from the session before to the session after.
pub open spec fn vitals_post(a: GameStats, b: GameStats, mf: Option<i64>, level: i64, hlevel: i64, satanic_here: Option<bool>) -> bool {
    &&& b.place.mf == match mf {
        Some(m) => m,
        None => a.place.mf,
    }
    &&& b.place.satanic_here == match satanic_here {
        Some(h) => h,
        None => a.place.satanic_here,
    }
    &&& match a.character {
        Some(c) => b.character is Some && b.character->0.name == c.name
            && b.character->0.level == if level > 0 { level } else { c.level }
            && b.character->0.herolevel == if hlevel > 0 { hlevel } else { c.herolevel }
            && b.character->0.difficulty == c.difficulty
            && b.character->0.hell_sub == c.hell_sub
            && b.character->0.hardcore == c.hardcore
            && b.character->0.season == c.season,
        None => b.character is None,
    }
    &&& b.place.room == a.place.room
    &&& b.place.room_since == a.place.room_since
    &&& b.place.zone_time == a.place.zone_time
    &&& b.place.act == a.place.act
    &&& b.clock == a.clock
    &&& b.bank == a.bank
    &&& b.save == a.save
    &&& b.finds == a.finds
    &&& b.zone == a.zone
    &&& settings_kept(a, b)
    &&& b.season_mode == a.season_mode
    &&& b.account == a.account
    &&& b.series == a.series
    &&& ({
        let place_moved = b.place.mf != a.place.mf || b.place.satanic_here != a.place.satanic_here;
        let hero_moved = match a.character {
            Some(c) => (level > 0 && c.level != level) || (hlevel > 0 && c.herolevel != hlevel),
            None => false,
        };
        let r1 = if place_moved {
            bump(a.revision)
        } else {
            a.revision
        };
        &&& b.revision == if hero_moved {
            bump(r1)
        } else {
            r1
        }
        &&& b.extra_rev == if hero_moved {
            bump(a.extra_rev)
        } else {
            a.extra_rev
        }
    })
}

/// What `hear_zone` does, from the session before to the session after.
pub open spec fn zone_post(a: GameStats, b: GameStats, zone: String, buffs: Vec<u8>, debuffs: Vec<u8>, now: crate::stats::Now) -> bool {
    &&& zone_heard(a.zone, b.zone, zone@, buffs@, debuffs@, now)
    &&& b.clock == a.clock
    &&& b.place == a.place
    &&& b.bank == a.bank
    &&& b.save == a.save
    &&& b.finds == a.finds
    &&& b.revision == a.revision
    &&& settings_kept(a, b)
    &&& b.season_mode == a.season_mode
    &&& b.account == a.account
    &&& b.character == a.character
    &&& b.series == a.series
    &&& b.extra_rev == a.extra_rev
}

/// What `note_save` does, from the session before to the session after.
pub open spec fn save_noted(a: GameStats, b: GameStats, has_experience: bool, name: String, now: u64) -> bool {
    &&& b.save.last_save == if has_experience {
        Some(now)
    } else {
        a.save.last_save
    }
    &&& switched_to(a, has_experience, name@) ==> {
        &&& b.save.stale_save
        &&& !b.save.xp_authoritative
        &&& b.save.total_kills == 0
        &&& forall|i: int| 0 <= i < b.save.tally_base@.len() ==> #[trigger] b.save.tally_base@[i] is None
        &&& b.save.tally_base@.len() == a.save.tally_base@.len()
        &&& b.bank == Bank {
            stale_bank: true,
            banked: 0,
            pending_step: 0,
            pending_since: None,
            gold_high: 0,
            ..a.bank
        }
    }
    &&& !switched_to(a, has_experience, name@) ==> {
        &&& b.save.stale_save == a.save.stale_save
        &&& b.save.xp_authoritative == a.save.xp_authoritative
        &&& b.save.total_kills == a.save.total_kills
        &&& b.save.tally_base == a.save.tally_base
        &&& b.bank == a.bank
    }
    &&& has_experience && name@.len() > 0 ==> b.save.baseline_for is Some
        && b.save.baseline_for->0@ == name@
    &&& !(has_experience && name@.len() > 0) ==> b.save.baseline_for == a.save.baseline_for
    &&& b.save.total_xp == a.save.total_xp
    &&& b.save.xp_earned == a.save.xp_earned
    &&& b.save.kills_earned == a.save.kills_earned
    &&& b.save.tally_earned == a.save.tally_earned
    &&& b.clock == a.clock
    &&& b.place == a.place
    &&& b.finds == a.finds
    &&& b.zone == a.zone
    &&& b.character == a.character
    &&& b.season_mode == a.season_mode
    &&& b.revision == a.revision
    &&& b.prefs == a.prefs
    &&& b.catalog == a.catalog
    &&& b.account == a.account
    &&& settings_kept(a, b)
}

/// What `count_xp` does, from the session before to the session after.
pub open spec fn xp_counted(a: GameStats, b: GameStats, experience: i64, has_experience: bool, herolevel: i64, kills: i64, now: u64) -> bool {
    &&& save_ok(b.save)
    &&& ({
        let sa = a.save;
        let sb = b.save;
        if sa.stale_save && has_experience && experience > 0 {
            &&& sb.total_xp == experience
            &&& sb.xp_authoritative
            &&& sb.total_kills == kills
            &&& !sb.stale_save
            &&& sb.xp_earned == sa.xp_earned
        } else if has_experience && experience > 0 {
            &&& sb.total_xp == experience
            &&& sb.xp_authoritative
            &&& sb.xp_earned == if sa.xp_authoritative && experience > sa.total_xp {
                clamp_i64(sa.xp_earned + (experience - sa.total_xp))
            } else if sa.xp_authoritative && levelled(a, herolevel) {
                clamp_i64(sa.xp_earned + experience)
            } else {
                sa.xp_earned as int
            }
            &&& sb.total_kills == sa.total_kills
            &&& sb.stale_save == sa.stale_save
        } else {
            sb == sa
        }
    })
    &&& progress_effect(
        a,
        b,
        now,
        !a.save.stale_save && has_experience && experience > 0 && a.save.xp_authoritative
            && (experience > a.save.total_xp || levelled(a, herolevel)),
    )
    &&& b.save.kills_earned == a.save.kills_earned
    &&& b.save.tally_base == a.save.tally_base
    &&& b.save.tally_earned == a.save.tally_earned
    &&& b.save.baseline_for == a.save.baseline_for
    &&& b.save.last_save == a.save.last_save
    &&& b.bank == a.bank
    &&& b.finds == a.finds
    &&& b.zone == a.zone
    &&& b.character == a.character
    &&& b.place.act == a.place.act
    &&& b.place.room == a.place.room
    &&& b.place.zone_time == a.place.zone_time
    &&& b.place.mf == a.place.mf
    &&& b.place.satanic_here == a.place.satanic_here
    &&& b.series == a.series
    &&& b.extra_rev == a.extra_rev
    &&& b.has_mail == a.has_mail
    &&& b.mail_known == a.mail_known
    &&& b.finished == a.finished
    &&& b.season_mode == a.season_mode
    &&& b.prefs == a.prefs
    &&& b.catalog == a.catalog
    &&& b.account == a.account
    &&& settings_kept(a, b)
}

/// What `count_kills` does, from the session before to the session after.
pub open spec fn kills_counted(a: GameStats, b: GameStats, kills: i64, now: u64) -> bool {
    &&& save_ok(b.save)
    &&& ({
        let sa = a.save;
        let sb = b.save;
        if kills > 0 && sa.total_kills != kills {
            &&& sb.total_kills == kills
            &&& sb.kills_earned == if sa.total_kills != 0 && kills > sa.total_kills {
                clamp_i64(sa.kills_earned + (kills - sa.total_kills))
            } else {
                sa.kills_earned as int
            }
        } else {
            sb.total_kills == sa.total_kills && sb.kills_earned == sa.kills_earned
        }
    })
    &&& progress_effect(
        a,
        b,
        now,
        kills > 0 && a.save.total_kills != kills && a.save.total_kills != 0 && kills
            > a.save.total_kills,
    )
    &&& b.save.total_xp == a.save.total_xp
    &&& b.save.xp_earned == a.save.xp_earned
    &&& b.save.xp_authoritative == a.save.xp_authoritative
    &&& b.save.stale_save == a.save.stale_save
    &&& b.save.tally_base == a.save.tally_base
    &&& b.save.tally_earned == a.save.tally_earned
    &&& b.save.baseline_for == a.save.baseline_for
    &&& b.save.last_save == a.save.last_save
    &&& b.bank == a.bank
    &&& b.finds == a.finds
    &&& b.zone == a.zone
    &&& b.character == a.character
    &&& b.place.act == a.place.act
    &&& b.place.room == a.place.room
    &&& b.place.zone_time == a.place.zone_time
    &&& b.place.mf == a.place.mf
    &&& b.place.satanic_here == a.place.satanic_here
    &&& b.series == a.series
    &&& b.extra_rev == a.extra_rev
    &&& b.has_mail == a.has_mail
    &&& b.mail_known == a.mail_known
    &&& b.finished == a.finished
    &&& b.season_mode == a.season_mode
    &&& b.prefs == a.prefs
    &&& b.catalog == a.catalog
    &&& b.account == a.account
    &&& settings_kept(a, b)
}

/// What `count_tallies` does, from the session before to the session after.
pub open spec fn tallies_counted(a: GameStats, b: GameStats, tallies: Vec<(String, i64)>) -> bool {
    &&& save_ok(b.save)
    &&& forall|i: int|
        0 <= i < crate::stats::TALLY_COUNT ==> (#[trigger] b.save.tally_base@[i], b.save.tally_earned@[i])
            == tally_after(
            a.save.tally_base@[i],
            a.save.tally_earned@[i],
            crate::sets::lookup(tallies@, crate::stats::tally_table()[i].0),
        )
    &&& b.save.total_xp == a.save.total_xp
    &&& b.save.xp_earned == a.save.xp_earned
    &&& b.save.total_kills == a.save.total_kills
    &&& b.save.kills_earned == a.save.kills_earned
    &&& b.save.xp_authoritative == a.save.xp_authoritative
    &&& b.save.stale_save == a.save.stale_save
    &&& b.save.baseline_for == a.save.baseline_for
    &&& b.save.last_save == a.save.last_save
    &&& b.clock == a.clock
    &&& b.place == a.place
    &&& b.bank == a.bank
    &&& b.finds == a.finds
    &&& b.zone == a.zone
    &&& b.character == a.character
    &&& b.revision == a.revision
    &&& b.prefs == a.prefs
    &&& b.catalog == a.catalog
    &&& b.account == a.account
    &&& b.season_mode == a.season_mode
    &&& settings_kept(a, b)
}

/// What `note_act` does, from the session before to the session after.
pub open spec fn act_noted(a: GameStats, b: GameStats, act: i64, now: u64) -> bool {
    &&& b.place.act == if act > 0 {
        act
    } else {
        a.place.act
    }
    &&& ({
        let retired = act > 0 && a.place.room is Some && act_of_room(a.place.room->0@) is Some
            && act_of_room(a.place.room->0@)->0 != act;
        &&& retired ==> b.place.room is None && b.place.room_since is None
            && crate::session::credited(
            a.place.zone_time@,
            b.place.zone_time@,
            a.place.room->0@,
            crate::session::room_secs(a.place, now),
        )
        &&& !retired ==> b.place.room == a.place.room
            && b.place.room_since == a.place.room_since
            && b.place.zone_time == a.place.zone_time
        &&& ({
            let r1 = if act > 0 && a.place.act != act {
                crate::stats::bump(a.revision)
            } else {
                a.revision
            };
            b.revision == if retired {
                crate::stats::bump(r1)
            } else {
                r1
            }
        })
    })
    &&& b.place.mf == a.place.mf
    &&& b.place.satanic_here == a.place.satanic_here
    &&& b.clock == a.clock
    &&& b.bank == a.bank
    &&& b.save == a.save
    &&& b.finds == a.finds
    &&& b.zone == a.zone
    &&& b.character == a.character
    &&& b.season_mode == a.season_mode
    &&& b.prefs == a.prefs
    &&& b.catalog == a.catalog
    &&& b.account == a.account
    &&& b.extra_rev == a.extra_rev
    &&& b.series == a.series
    &&& b.has_mail == a.has_mail
    &&& b.mail_known == a.mail_known
    &&& b.finished == a.finished
    &&& settings_kept(a, b)
}

/// What `note_identity` does, from the session before to the session after.
pub open spec fn identity_noted(a: GameStats, b: GameStats, has_experience: bool, season: i64, hardcore: i64, blood_pact: i64, name: String, level: i64, herolevel: i64, difficulty: i64, hell_sub: i64) -> bool {
    &&& b.season_mode == if has_experience || a.season_mode is None {
        Some(mode_of(season, hardcore, blood_pact))
    } else {
        a.season_mode
    }
    &&& has_experience || a.character is None ==> b.character is Some && character_from(
        name@,
        level,
        herolevel,
        difficulty,
        hell_sub,
        hardcore,
        season,
        b.character->0,
    ) && b.extra_rev == bump(a.extra_rev)
    &&& !(has_experience || a.character is None) ==> b.character == a.character
        && b.extra_rev == a.extra_rev
    &&& b.clock == a.clock
    &&& b.place == a.place
    &&& b.bank == a.bank
    &&& b.save == a.save
    &&& b.finds == a.finds
    &&& b.zone == a.zone
    &&& b.revision == a.revision
    &&& b.prefs == a.prefs
    &&& b.catalog == a.catalog
    &&& b.account == a.account
    &&& settings_kept(a, b)
}

} // verus!

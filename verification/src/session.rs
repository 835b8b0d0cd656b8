//! The session's clock, its settings, and the operations that carry it from
//! one run to the next.

use vstd::prelude::*;
use crate::parser::{purse_code, purse_named, Purse};
use crate::sets::{count_in, count_of, get_key, lookup, put_key};
use crate::catalog::Catalog;
use crate::stats::{bump, bumped, nothing_earned, shaped, Carried, Clock, GameStats, Now, Place, SatanicZone, SeriesPoint, IDLE_AFTER, SECOND};
use crate::text::copy_str;

verus! {

/// `a - b`, or 0 where `b` is later.
pub open spec fn sub0(a: u64, b: u64) -> u64 {
    if a >= b {
        (a - b) as u64
    } else {
        0
    }
}

/// `a + b`, held at `u64::MAX`.
pub open spec fn add_sat(a: u64, b: u64) -> u64 {
    if a + b > u64::MAX {
        u64::MAX
    } else {
        (a + b) as u64
    }
}

/// How long the session has actually been running at `now`: the clock less
/// whatever it has spent paused.
pub open spec fn active_ns(c: Clock, now: u64) -> u64 {
    let ran = sub0(sub0(now, c.start), c.paused_total);
    match c.paused_at {
        Some(at) => sub0(ran, sub0(now, at)),
        None => ran,
    }
}

pub open spec fn active_secs(c: Clock, now: u64) -> u64 {
    (active_ns(c, now) / SECOND) as u64
}

/// The whole seconds the current room has to its name at `at`.
pub open spec fn room_secs(p: Place, at: u64) -> u64 {
    match (p.room, p.room_since) {
        (Some(_), Some(since)) => (sub0(at, since) / SECOND) as u64,
        _ => 0,
    }
}

/// `after` is `before` with `secs` more seconds credited to `room`.
pub open spec fn credited(before: Seq<(String, u64)>, after: Seq<(String, u64)>, room: Seq<char>, secs: u64) -> bool {
    if secs > 0 {
        &&& lookup(after, room) == Some(add_sat(
            match lookup(before, room) {
                Some(v) => v,
                None => 0,
            },
            secs,
        ))
        &&& forall|k: Seq<char>| k != room ==> #[trigger] lookup(after, k) == lookup(before, k)
    } else {
        after == before
    }
}

/// The room's books closed at `at`: its seconds credited and the room clock
/// set `since`.
pub open spec fn room_banked(before: Place, after: Place, at: u64, since: Option<u64>) -> bool {
    &&& after.room == before.room
    &&& after.act == before.act
    &&& after.mf == before.mf
    &&& after.satanic_here == before.satanic_here
    &&& after.room_since == since
    &&& match before.room {
        Some(r) => credited(before.zone_time@, after.zone_time@, r@, room_secs(before, at)),
        None => after.zone_time@ == before.zone_time@,
    }
}

/// A pause's effect on the graph: points stamped later than the run's clock
/// now reads are dropped.
pub open spec fn kept_points(s: Seq<SeriesPoint>, cut: u64) -> Seq<SeriesPoint> {
    s.filter(|p: SeriesPoint| p.t <= cut)
}

pub open spec fn any_after(s: Seq<SeriesPoint>, cut: u64) -> bool {
    exists|i: int| 0 <= i < s.len() && (#[trigger] s[i]).t > cut
}

fn drop_points_after(s: &Vec<SeriesPoint>, cut: u64) -> (r: (Vec<SeriesPoint>, bool))
    ensures
        r.0@ == kept_points(s@, cut),
        r.1 == any_after(s@, cut),
{
    let mut out: Vec<SeriesPoint> = Vec::new();
    let mut any = false;
    let mut i: usize = 0;
    while i < s.len()
        invariant
            i <= s@.len(),
            out@ == kept_points(s@.take(i as int), cut),
            any == exists|j: int| 0 <= j < i && (#[trigger] s@[j]).t > cut,
        decreases s@.len() - i,
    {
        let p = s[i];
        proof {
            let t = s@.take(i + 1);
            assert(t.drop_last() == s@.take(i as int));
            assert(t.last() == p);
            reveal(Seq::filter);
        }
        if p.t <= cut {
            out.push(p);
        } else {
            any = true;
        }
        i = i + 1;
    }
    assert(s@.take(s@.len() as int) == s@);
    (out, any)
}

impl GameStats {
    /// How long the session has actually been running, in nanoseconds.
    pub fn active_at(&self, now: u64) -> (r: u64)
        ensures
            r == active_ns(self.clock, now),
    {
        let ran = now.saturating_sub(self.clock.start).saturating_sub(self.clock.paused_total);
        match self.clock.paused_at {
            Some(at) => ran.saturating_sub(now.saturating_sub(at)),
            None => ran,
        }
    }

    pub fn paused(&self) -> (r: bool)
        ensures
            r == self.clock.paused_at is Some,
    {
        self.clock.paused_at.is_some()
    }

    /// Adds the time spent in the current room up to `at` to its total and
    /// starts the room clock again at `now`.
    pub fn bank_room_time_at(&mut self, at: u64, now: u64)
        ensures
            room_banked(old(self).place, final(self).place, at, Some(now)),
            final(self).clock == old(self).clock,
            final(self).bank == old(self).bank,
            final(self).save == old(self).save,
            final(self).finds == old(self).finds,
            final(self).zone == old(self).zone,
            final(self).series == old(self).series,
            final(self).revision == old(self).revision,
            final(self).extra_rev == old(self).extra_rev,
            final(self).has_mail == old(self).has_mail,
            final(self).mail_known == old(self).mail_known,
            final(self).finished == old(self).finished,
            final(self).season_mode == old(self).season_mode,
            final(self).account == old(self).account,
            final(self).character == old(self).character,
            final(self).prefs == old(self).prefs,
            final(self).catalog == old(self).catalog,
    {
        let since = match (&self.place.room, self.place.room_since) {
            (Some(_), Some(since)) => since,
            _ => {
                self.place.room_since = Some(now);
                return;
            },
        };
        let secs = at.saturating_sub(since) / SECOND;
        if secs > 0 {
            let room = match &self.place.room {
                Some(r) => copy_str(r.as_str()),
                None => {
                    self.place.room_since = Some(now);
                    return;
                },
            };
            let had = match get_key(&self.place.zone_time, room.as_str()) {
                Some(v) => v,
                None => 0,
            };
            put_key(&mut self.place.zone_time, room.as_str(), had.saturating_add(secs));
        }
        self.place.room_since = Some(now);
    }

    /// Stops the clock as of `since`, which is now for a pause the player
    /// asked for and the last sign of life for one the app decided on.
    pub fn hold_at(&mut self, since: u64, by_hand: bool, now: u64)
        ensures
            hold_post(*old(self), *final(self), since, by_hand, now),
    {
        if self.clock.paused_at.is_none() {
            self.bank_room_time_at(since, now);
            self.place.room_since = None;
            self.clock.paused_at = Some(since);
            let cut = self.active_at(now) / SECOND;
            let (kept, any) = drop_points_after(&self.series, cut);
            if any {
                self.series = kept;
                self.extra_rev = bumped(self.extra_rev);
            } else {
                proof {
                    assert(kept_points(self.series@, cut) =~= self.series@) by {
                        lemma_nothing_after(self.series@, cut);
                    }
                }
            }
            self.revision = bumped(self.revision);
        }
        self.clock.by_hand = self.clock.by_hand || by_hand;
    }

    /// Starts the clock again at `now`.
    pub fn release_at(&mut self, now: u64)
        ensures
            release_post(*old(self), *final(self), now),
    {
        if let Some(at) = self.clock.paused_at {
            self.clock.paused_at = None;
            self.clock.paused_total = self.clock.paused_total.saturating_add(now.saturating_sub(at));
            self.place.room_since = Some(now);
            self.revision = bumped(self.revision);
        }
        self.clock.by_hand = false;
        self.clock.last_progress = now;
    }

    /// The run moved. Anything that lifts an idle pause goes through here; a
    /// pause the player made stays.
    pub fn progressed_at(&mut self, now: u64)
        ensures
            progressed_post(*old(self), *final(self), now),
    {
        self.clock.last_progress = now;
        if self.paused() && !self.clock.by_hand {
            self.release_at(now);
        }
    }

    /// The pause button and the hotkey. A finished run is not a paused one,
    /// and the button does not lift it.
    pub fn set_paused_at(&mut self, on: bool, now: u64)
        ensures
            paused_post(*old(self), *final(self), on, now),
    {
        if self.finished {
            return;
        }
        if on {
            self.hold_at(now, true, now);
        } else {
            self.release_at(now);
        }
    }

    /// Closes the run by hand, or opens the next one. Closing holds the clock
    /// as well, and opening lifts both.
    pub fn set_finished_at(&mut self, on: bool, now: u64)
        ensures
            finished_post(*old(self), *final(self), on, now),
    {
        self.finished = on;
        let ghost start = *self;
        if on {
            self.hold_at(now, true, now);
        } else {
            self.release_at(now);
        }
        let ghost m = *self;
        self.revision = bumped(self.revision);
        assert(finish_step(start, m, on, now));
        assert(start == (GameStats { finished: on, ..*old(self) }));
    }

    /// Quiet for long enough to stop the clock: stopped as of the last sign of
    /// life, not as of now.
    pub fn watch_idle_at(&mut self, now: u64)
        ensures
            idle_post(*old(self), *final(self), now),
    {
        if self.paused() || now.saturating_sub(self.clock.last_progress) < IDLE_AFTER {
            return;
        }
        let since = self.clock.last_progress;
        self.hold_at(since, false, now);
    }
}

/// What a reset leaves of a session: the character, where it stands, the
/// zone, the settings, the account and the totals the next packet is diffed
/// against all carry over; everything the run earned starts again, and the
/// clock starts at `now`.
pub open spec fn reset_post(a: GameStats, b: GameStats, now: Now) -> bool {
    &&& reset_core(a, b, now)
    &&& !b.zone.stale_zone
}

/// A reset taken across a blackout: the same, except that a zone carried over
/// is marked as not yet confirmed.
pub open spec fn blackout_post(a: GameStats, b: GameStats, now: Now) -> bool {
    &&& reset_core(a, b, now)
    &&& b.zone.stale_zone == b.zone.satanic is Some
}

/// Everything a reset does but decide whether the zone is stale.
pub open spec fn reset_core(a: GameStats, b: GameStats, now: Now) -> bool {
    &&& shaped(b)
    &&& nothing_earned(b)
    // the clock starts again
    &&& b.clock.start == now.mono && b.clock.started_ms == now.wall_ms
    &&& b.clock.paused_at is None && b.clock.paused_total == 0 && !b.clock.by_hand
    &&& b.clock.last_progress == now.mono
    // where the character stands travels, and its room clock starts now
    &&& b.place.room == a.place.room
    &&& b.place.room_since == if a.place.room is Some { Some(now.mono) } else { None }
    &&& b.place.act == a.place.act
    &&& b.place.mf == a.place.mf
    &&& b.place.satanic_here == a.place.satanic_here
    // the balance and the debts that belong to it travel
    &&& b.bank.total_gold == a.bank.total_gold
    &&& b.bank.gold_mode == a.bank.gold_mode
    &&& b.bank.last_currency == a.bank.last_currency
    &&& b.bank.stale_bank == a.bank.stale_bank
    &&& b.bank.banked == a.bank.banked
    &&& b.bank.pending_step == a.bank.pending_step
    &&& b.bank.pending_since == a.bank.pending_since
    &&& b.bank.gold_high == a.bank.gold_high
    &&& b.bank.last_bank == a.bank.last_bank
    // so do the totals and the marks they are measured from
    &&& b.save.total_xp == a.save.total_xp
    &&& b.save.total_kills == a.save.total_kills
    &&& b.save.xp_authoritative == a.save.xp_authoritative
    &&& b.save.stale_save == a.save.stale_save
    &&& b.save.last_save is None
    &&& b.save.baseline_for == a.save.baseline_for
    &&& b.save.tally_base == a.save.tally_base
    // the zone, the moment it was answered, and for whom
    &&& b.zone.satanic == a.zone.satanic
    &&& b.zone.satanic_at == a.zone.satanic_at
    &&& b.zone.sz_changed == a.zone.sz_changed
    &&& b.zone.zone_region == a.zone.zone_region
    &&& b.zone.zone_asked_by == a.zone.zone_asked_by
    // mail, the account, the character and the settings
    &&& b.has_mail == a.has_mail
    &&& b.mail_known == a.mail_known
    &&& !b.finished
    &&& b.season_mode == a.season_mode
    &&& b.account == a.account
    &&& b.character == a.character
    &&& b.prefs == a.prefs
    &&& b.catalog == a.catalog
    &&& b.origin == a.origin
    &&& b.revision == bump(a.revision)
    &&& b.extra_rev == bump(a.extra_rev)
    // the memory of what was sighted, counted, told and let go starts afresh
    &&& b.finds.seen@.len() == 0 && b.finds.tier_seen@.len() == 0 && b.finds.counted@.len() == 0
    &&& b.finds.told@.len() == 0 && b.finds.let_go@.len() == 0 && b.finds.announced_at@.len() == 0
}

/// The purse a saved name stands for.
pub fn currency_mode(mode: &str) -> (r: Option<Purse>)
    ensures
        r == purse_named(mode@),
{
    Purse::named(mode)
}

/// What `restore` makes of a session's totals.
pub open spec fn restore_post(a: GameStats, b: GameStats, c: Carried) -> bool {
    &&& b.bank.total_gold == if c.gold > 0 { c.gold } else { a.bank.total_gold }
    &&& b.bank.gold_mode == if c.gold > 0 {
        match c.mode {
            Some(m) => purse_named(m@),
            None => None,
        }
    } else {
        a.bank.gold_mode
    }
    &&& b.save.total_xp == if c.xp > 0 { c.xp } else { 0 }
    &&& b.save.xp_authoritative == (c.xp > 0)
    &&& b.save.total_kills == if c.kills > 0 { c.kills } else { 0 }
    &&& b.bank.stale_bank == (c.gold > 0)
    &&& b.save.stale_save == (c.xp > 0 || c.kills > 0)
    &&& b.bank.gold_earned == a.bank.gold_earned
    &&& b.bank.banked == a.bank.banked
    &&& b.bank.pending_step == a.bank.pending_step
    &&& b.bank.pending_since == a.bank.pending_since
    &&& b.bank.gold_high == a.bank.gold_high
    &&& b.bank.last_bank == a.bank.last_bank
    &&& b.bank.last_currency == a.bank.last_currency
    &&& b.save.xp_earned == a.save.xp_earned
    &&& b.save.kills_earned == a.save.kills_earned
    &&& b.save.last_save == a.save.last_save
    &&& b.save.baseline_for == a.save.baseline_for
    &&& b.save.tally_base == a.save.tally_base
    &&& b.save.tally_earned == a.save.tally_earned
    &&& b.clock == a.clock
    &&& b.place == a.place
    &&& b.finds == a.finds
    &&& b.zone == a.zone
    &&& b.prefs == a.prefs
    &&& b.character == a.character
    &&& b.revision == a.revision
}

/// The totals a session hands to the next.
pub open spec fn carried_of(s: GameStats, c: Carried) -> bool {
    &&& c.gold == s.bank.total_gold
    &&& c.xp == s.save.total_xp
    &&& c.kills == s.save.total_kills
    &&& match s.bank.gold_mode {
        Some(p) => c.mode is Some && c.mode->0@ == purse_code(p),
        None => c.mode is None,
    }
}

/// What is known about mail: nothing until the server has answered, and no
/// mail at all in a mode without a mailbox.
pub open spec fn mail_view(s: GameStats) -> Option<bool> {
    if s.season_mode == Some(Purse::Gbp) {
        Some(false)
    } else if s.mail_known {
        Some(s.has_mail)
    } else {
        None
    }
}

/// Whether a rotation carries a buff the player asked about; an empty pick
/// asks about every rotation.
pub open spec fn wanted_rotation(wanted: Seq<u8>, buffs: Seq<u8>) -> bool {
    wanted.len() == 0 || exists|i: int| 0 <= i < buffs.len() && wanted.contains(#[trigger] buffs[i])
}

/// What taking the zone change does: the change is spent whatever comes back.
pub open spec fn took_zone(a: GameStats, b: GameStats, r: Option<SatanicZone>) -> bool {
    &&& b.zone.sz_changed is None
    &&& b.zone.satanic == a.zone.satanic
    &&& b.zone.satanic_at == a.zone.satanic_at
    &&& b.zone.stale_zone == a.zone.stale_zone
    &&& b.zone.zone_region == a.zone.zone_region
    &&& b.zone.zone_asked_by == a.zone.zone_asked_by
    &&& b.clock == a.clock
    &&& b.place == a.place
    &&& b.bank == a.bank
    &&& b.save == a.save
    &&& b.finds == a.finds
    &&& b.prefs == a.prefs
    &&& b.revision == a.revision
    &&& match (a.zone.sz_changed, a.zone.satanic) {
        (Some(_), Some(z)) => if wanted_rotation(a.prefs.zone_buffs@, z.buffs@) {
            r is Some && r->0.zone@ == z.zone@ && r->0.buffs@ == z.buffs@ && r->0.debuffs@ == z.debuffs@
        } else {
            r is None
        },
        _ => r is None,
    }
}

fn any_wanted(wanted: &Vec<u8>, buffs: &Vec<u8>) -> (r: bool)
    ensures
        r == wanted_rotation(wanted@, buffs@),
{
    if wanted.len() == 0 {
        return true;
    }
    let mut i: usize = 0;
    while i < buffs.len()
        invariant
            i <= buffs@.len(),
            wanted@.len() > 0,
            forall|j: int| 0 <= j < i ==> !wanted@.contains(#[trigger] buffs@[j]),
        decreases buffs@.len() - i,
    {
        let b = buffs[i];
        let mut k: usize = 0;
        while k < wanted.len()
            invariant
                k <= wanted@.len(),
                i < buffs@.len(),
                b == buffs@[i as int],
                forall|j: int| 0 <= j < k ==> wanted@[j] != b,
            decreases wanted@.len() - k,
        {
            if wanted[k] == b {
                assert(wanted@[k as int] == buffs@[i as int]);
                assert(wanted@.contains(buffs@[i as int]));
                return true;
            }
            k = k + 1;
        }
        i = i + 1;
    }
    false
}

impl GameStats {
    /// Character, zone and the diff baselines survive a session reset; only
    /// the earned counters restart, so the next packet still yields a diff.
    pub fn reset_at(&mut self, now: Now)
        requires
            shaped(*old(self)),
        ensures
            reset_post(*old(self), *final(self), now),
    {
        let mut was = GameStats::new_at(now, Catalog::empty());
        std::mem::swap(self, &mut was);
        self.origin = was.origin;
        self.catalog = was.catalog;
        self.prefs = was.prefs;
        self.character = was.character;
        self.account = was.account;
        self.season_mode = was.season_mode;
        self.has_mail = was.has_mail;
        self.mail_known = was.mail_known;
        self.zone.satanic = was.zone.satanic;
        self.zone.satanic_at = was.zone.satanic_at;
        self.zone.sz_changed = was.zone.sz_changed;
        self.zone.zone_region = was.zone.zone_region;
        self.zone.zone_asked_by = was.zone.zone_asked_by;
        self.place.act = was.place.act;
        self.place.mf = was.place.mf;
        self.place.satanic_here = was.place.satanic_here;
        self.place.room_since = if was.place.room.is_some() {
            Some(now.mono)
        } else {
            None
        };
        self.place.room = was.place.room;
        self.bank.total_gold = was.bank.total_gold;
        self.bank.gold_mode = was.bank.gold_mode;
        self.bank.last_currency = was.bank.last_currency;
        self.bank.stale_bank = was.bank.stale_bank;
        self.bank.banked = was.bank.banked;
        self.bank.pending_step = was.bank.pending_step;
        self.bank.pending_since = was.bank.pending_since;
        self.bank.gold_high = was.bank.gold_high;
        self.bank.last_bank = was.bank.last_bank;
        self.save.total_xp = was.save.total_xp;
        self.save.total_kills = was.save.total_kills;
        self.save.xp_authoritative = was.save.xp_authoritative;
        self.save.stale_save = was.save.stale_save;
        self.save.baseline_for = was.save.baseline_for;
        self.save.tally_base = was.save.tally_base;
        self.revision = bumped(was.revision);
        self.extra_rev = bumped(was.extra_rev);
    }

    /// A reset taken across a stretch nothing was watching: the next zone
    /// packet is this session catching up, not news, and is swallowed once.
    pub fn reset_after_blackout_at(&mut self, now: Now)
        requires
            shaped(*old(self)),
        ensures
            blackout_post(*old(self), *final(self), now),
    {
        self.reset_at(now);
        self.zone.stale_zone = self.zone.satanic.is_some();
    }

    /// Totals from the previous run, so a restart shows the last known bank
    /// and experience instead of zeros until the game saves again.
    pub fn restore(&mut self, carried: &Carried)
        ensures
            restore_post(*old(self), *final(self), *carried),
            shaped(*old(self)) ==> shaped(*final(self)),
    {
        if carried.gold > 0 {
            self.bank.total_gold = carried.gold;
            self.bank.gold_mode = match &carried.mode {
                Some(m) => currency_mode(m.as_str()),
                None => None,
            };
        }
        self.save.total_xp = if carried.xp > 0 {
            carried.xp
        } else {
            0
        };
        self.save.xp_authoritative = carried.xp > 0;
        self.save.total_kills = if carried.kills > 0 {
            carried.kills
        } else {
            0
        };
        self.bank.stale_bank = carried.gold > 0;
        self.save.stale_save = carried.xp > 0 || carried.kills > 0;
    }

    /// The totals to hand to the next run.
    pub fn carried(&self) -> (c: Carried)
        ensures
            carried_of(*self, c),
    {
        Carried {
            gold: self.bank.total_gold,
            mode: match self.bank.gold_mode {
                Some(p) => Some(copy_str(p.code())),
                None => None,
            },
            xp: self.save.total_xp,
            kills: self.save.total_kills,
        }
    }

    /// Whether the mode being played has a mailbox at all: Blood Pact has none.
    pub fn has_mailbox(&self) -> (r: bool)
        ensures
            r == (self.season_mode != Some(Purse::Gbp)),
    {
        self.season_mode != Some(Purse::Gbp)
    }

    /// What is known about mail, which is not the same as whether there is any:
    /// `None` until the server has answered once.
    pub fn mail_state(&self) -> (r: Option<bool>)
        ensures
            r == mail_view(*self),
    {
        if !self.has_mailbox() {
            return Some(false);
        }
        if self.mail_known {
            Some(self.has_mail)
        } else {
            None
        }
    }

    /// The satanic zone has moved and this rotation is worth telling the player
    /// about. Taken rather than read, so one rotation is announced once.
    pub fn take_zone_change(&mut self) -> (r: Option<SatanicZone>)
        ensures
            took_zone(*old(self), *final(self), r),
    {
        let changed = self.zone.sz_changed.take();
        if changed.is_none() {
            return None;
        }
        let zone = match &self.zone.satanic {
            Some(z) => z.copy(),
            None => return None,
        };
        if any_wanted(&self.prefs.zone_buffs, &zone.buffs) {
            Some(zone)
        } else {
            None
        }
    }

    /// How many gear items of one grade this session has produced.
    pub fn graded(&self, tier: i64) -> (r: i64)
        ensures
            r == count_of(self.finds.graded@, tier),
    {
        count_in(&self.finds.graded, tier)
    }
}

proof fn lemma_nothing_after(s: Seq<SeriesPoint>, cut: u64)
    requires
        !any_after(s, cut),
    ensures
        kept_points(s, cut) == s,
    decreases s.len(),
{
    reveal(Seq::filter);
    if s.len() > 0 {
        assert(!any_after(s.drop_last(), cut)) by {
            if any_after(s.drop_last(), cut) {
                let i = choose|i: int| 0 <= i < s.drop_last().len() && (#[trigger] s.drop_last()[i]).t > cut;
                assert(s[i] == s.drop_last()[i]);
            }
        }
        lemma_nothing_after(s.drop_last(), cut);
        assert(s.last().t <= cut) by {
            if s.last().t > cut {
                assert(s[s.len() - 1].t > cut);
            }
        }
        assert(s.drop_last().push(s.last()) =~= s);
    }
}

/// What `progressed_at` does.
pub open spec fn progressed_post(a: GameStats, b: GameStats, now: u64) -> bool {
    &&& b.clock.last_progress == now
    &&& a.clock.paused_at is Some && !a.clock.by_hand ==> {
        &&& b.clock.paused_at is None
        &&& b.clock.paused_total == add_sat(a.clock.paused_total, sub0(now, a.clock.paused_at->0))
        &&& b.place.room_since == Some(now)
        &&& b.revision == bump(a.revision)
    }
    &&& !(a.clock.paused_at is Some && !a.clock.by_hand) ==> {
        &&& b.clock.paused_at == a.clock.paused_at
        &&& b.clock.paused_total == a.clock.paused_total
        &&& b.place.room_since == a.place.room_since
        &&& b.revision == a.revision
    }
    &&& b.clock.by_hand == a.clock.by_hand
    &&& b.clock.start == a.clock.start
    &&& b.clock.started_ms == a.clock.started_ms
    &&& b.place.room == a.place.room
    &&& b.place.zone_time == a.place.zone_time
    &&& b.place.act == a.place.act
    &&& b.place.mf == a.place.mf
    &&& b.place.satanic_here == a.place.satanic_here
    &&& b.bank == a.bank
    &&& b.save == a.save
    &&& b.finds == a.finds
    &&& b.zone == a.zone
    &&& b.series == a.series
    &&& b.extra_rev == a.extra_rev
    &&& b.has_mail == a.has_mail
    &&& b.mail_known == a.mail_known
    &&& b.finished == a.finished
    &&& b.season_mode == a.season_mode
    &&& b.account == a.account
    &&& b.character == a.character
    &&& b.prefs == a.prefs
    &&& b.catalog == a.catalog
}

/// What `set_paused_at` does.
pub open spec fn paused_post(a: GameStats, b: GameStats, on: bool, now: u64) -> bool {
    &&& a.finished ==> b == a
    &&& !a.finished && on ==> hold_post(a, b, now, true, now)
    &&& !a.finished && !on ==> release_post(a, b, now)
    &&& !a.finished && on ==> b.clock.paused_at is Some && b.clock.by_hand
    &&& !a.finished && on && a.clock.paused_at is None ==> b.clock.paused_at == Some(now)
    &&& !a.finished && !on ==> b.clock.paused_at is None && !b.clock.by_hand && b.clock.last_progress == now
}

/// What `set_finished_at` does.
pub open spec fn finished_post(a: GameStats, b: GameStats, on: bool, now: u64) -> bool {
    &&& exists|m: GameStats|
        #[trigger] finish_step(GameStats { finished: on, ..a }, m, on, now) && b == (GameStats {
            revision: bump(m.revision),
            ..m
        })
    &&& b.finished == on
    &&& on ==> b.clock.paused_at is Some && b.clock.by_hand
    &&& on && a.clock.paused_at is None ==> b.clock.paused_at == Some(now)
    &&& !on ==> b.clock.paused_at is None && !b.clock.by_hand
    &&& b.bank == a.bank
    &&& b.save == a.save
    &&& b.finds == a.finds
    &&& b.prefs == a.prefs
}

/// The clock's half of closing or reopening a run: a hold by hand, or a
/// release.
pub open spec fn finish_step(a: GameStats, b: GameStats, on: bool, now: u64) -> bool {
    if on {
        hold_post(a, b, now, true, now)
    } else {
        release_post(a, b, now)
    }
}

/// What `watch_idle_at` does.
pub open spec fn idle_post(a: GameStats, b: GameStats, now: u64) -> bool {
    &&& a.clock.paused_at is Some || sub0(now, a.clock.last_progress) < IDLE_AFTER ==> b == a
    &&& a.clock.paused_at is None && sub0(now, a.clock.last_progress) >= IDLE_AFTER ==> hold_post(
        a,
        b,
        a.clock.last_progress,
        false,
        now,
    )
    &&& a.clock.paused_at is None && sub0(now, a.clock.last_progress) >= IDLE_AFTER
        ==> b.clock.paused_at == Some(a.clock.last_progress)
        && b.clock.by_hand == a.clock.by_hand
    &&& b.bank == a.bank
    &&& b.save == a.save
    &&& b.finds == a.finds
    &&& b.finished == a.finished
    &&& b.prefs == a.prefs
}

/// What `hold_at` does.
pub open spec fn hold_post(a: GameStats, b: GameStats, since: u64, by_hand: bool, now: u64) -> bool {
    &&& a.clock.paused_at is None ==> {
        &&& room_banked(a.place, b.place, since, None)
        &&& b.clock.paused_at == Some(since)
        &&& b.series@ == kept_points(a.series@, active_secs(b.clock, now))
        &&& b.extra_rev == if any_after(a.series@, active_secs(b.clock, now)) {
            bump(a.extra_rev)
        } else {
            a.extra_rev
        }
        &&& b.revision == bump(a.revision)
    }
    &&& a.clock.paused_at is Some ==> {
        &&& b.place == a.place
        &&& b.clock.paused_at == a.clock.paused_at
        &&& b.series == a.series
        &&& b.extra_rev == a.extra_rev
        &&& b.revision == a.revision
    }
    &&& b.clock.by_hand == (a.clock.by_hand || by_hand)
    &&& b.clock.start == a.clock.start
    &&& b.clock.started_ms == a.clock.started_ms
    &&& b.clock.paused_total == a.clock.paused_total
    &&& b.clock.last_progress == a.clock.last_progress
    &&& b.bank == a.bank
    &&& b.save == a.save
    &&& b.finds == a.finds
    &&& b.zone == a.zone
    &&& b.has_mail == a.has_mail
    &&& b.mail_known == a.mail_known
    &&& b.finished == a.finished
    &&& b.season_mode == a.season_mode
    &&& b.account == a.account
    &&& b.character == a.character
    &&& b.prefs == a.prefs
    &&& b.catalog == a.catalog
}

/// What `release_at` does.
pub open spec fn release_post(a: GameStats, b: GameStats, now: u64) -> bool {
    &&& match a.clock.paused_at {
        Some(at) => {
            &&& b.clock.paused_total == add_sat(a.clock.paused_total, sub0(now, at))
            &&& b.place.room_since == Some(now)
            &&& b.revision == bump(a.revision)
        },
        None => {
            &&& b.clock.paused_total == a.clock.paused_total
            &&& b.place.room_since == a.place.room_since
            &&& b.revision == a.revision
        },
    }
    &&& b.clock.paused_at is None
    &&& !b.clock.by_hand
    &&& b.clock.last_progress == now
    &&& b.clock.start == a.clock.start
    &&& b.clock.started_ms == a.clock.started_ms
    &&& b.place.room == a.place.room
    &&& b.place.zone_time == a.place.zone_time
    &&& b.place.act == a.place.act
    &&& b.place.mf == a.place.mf
    &&& b.place.satanic_here == a.place.satanic_here
    &&& b.bank == a.bank
    &&& b.save == a.save
    &&& b.finds == a.finds
    &&& b.zone == a.zone
    &&& b.series == a.series
    &&& b.extra_rev == a.extra_rev
    &&& b.has_mail == a.has_mail
    &&& b.mail_known == a.mail_known
    &&& b.finished == a.finished
    &&& b.season_mode == a.season_mode
    &&& b.account == a.account
    &&& b.character == a.character
    &&& b.prefs == a.prefs
    &&& b.catalog == a.catalog
}

} // verus!

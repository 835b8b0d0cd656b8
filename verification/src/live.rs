//! The session on the machine's own clocks: each operation reads the time and
//! hands it to the form that takes it. Also the session's settings and its
//! counters' revisions.

use vstd::prelude::*;
use crate::apply::{applied, earned_grew, well_formed};
use crate::catalog::Catalog;
use crate::clock::{nanos_since, now_ms};
use crate::session::{blackout_post, finished_post, idle_post, paused_post, progressed_post, reset_post};
use crate::report::{finished_run, sampled, snapshot_of};
use crate::stats::{bump, bumped, fresh_session, nothing_earned, shaped, DropEntry, GameStats, Listed, Now, Prefs, Run, Snapshot};
use crate::parser::GameEvent;

verus! {

impl Default for GameStats {
    /// A session starting now, with empty item tables.
    fn default() -> (s: Self)
        ensures
            well_formed(s),
            fresh_session(s, Now { mono: 0, wall_ms: s.clock.started_ms }),
            s.catalog.items@.len() == 0 && s.catalog.rooms@.len() == 0,
    {
        GameStats::new_at(Now { mono: 0, wall_ms: now_ms() }, Catalog::empty())
    }
}

impl GameStats {
    /// A session starting now, judging drops by `catalog`.
    pub fn with_catalog(catalog: Catalog) -> (s: GameStats)
        ensures
            well_formed(s),
            fresh_session(s, Now { mono: 0, wall_ms: s.clock.started_ms }),
            s.catalog == catalog,
    {
        GameStats::new_at(Now { mono: 0, wall_ms: now_ms() }, catalog)
    }

    /// The clocks, read now: the monotonic one from this session's origin.
    pub fn read_now(&self) -> Now {
        Now { mono: nanos_since(&self.origin), wall_ms: now_ms() }
    }

    /// Takes one event; see `apply_at`.
    pub fn apply(&mut self, event: &GameEvent) -> (r: Option<DropEntry>)
        requires
            well_formed(*old(self)),
        ensures
            well_formed(*final(self)),
            earned_grew(*old(self), *final(self)),
            old(self).finished ==> r is None && *final(self) == *old(self),
            !old(self).finished ==> exists|now: Now| #[trigger] applied(*old(self), *final(self), *event, r, now),
    {
        let now = self.read_now();
        self.apply_at(event, now)
    }

    /// Starts the counters again; see `reset_at`.
    pub fn reset(&mut self)
        requires
            shaped(*old(self)),
        ensures
            exists|now: Now| #[trigger] reset_post(*old(self), *final(self), now),
    {
        let now = self.read_now();
        self.reset_at(now);
    }

    /// A reset across a stretch nothing was watching; see `reset_after_blackout_at`.
    pub fn reset_after_blackout(&mut self)
        requires
            shaped(*old(self)),
        ensures
            exists|now: Now| #[trigger] blackout_post(*old(self), *final(self), now),
    {
        let now = self.read_now();
        self.reset_after_blackout_at(now);
    }

    /// What this run amounted to; see `finish_at`.
    pub fn finish(&mut self) -> (r: Option<Run>)
        requires
            shaped(*old(self)),
        ensures
            exists|now: Now| #[trigger] finished_run(*old(self), *final(self), r, now),
    {
        let now = self.read_now();
        self.finish_at(now)
    }

    /// The pause button; see `set_paused_at`.
    pub fn set_paused(&mut self, on: bool)
        ensures
            exists|now: u64| #[trigger] paused_post(*old(self), *final(self), on, now),
    {
        let now = self.read_now();
        self.set_paused_at(on, now.mono);
    }

    /// Closes the run by hand, or opens the next; see `set_finished_at`.
    pub fn set_finished(&mut self, on: bool)
        ensures
            exists|now: u64| #[trigger] finished_post(*old(self), *final(self), on, now),
    {
        let now = self.read_now();
        self.set_finished_at(on, now.mono);
    }

    /// Stops the clock after five quiet minutes; see `watch_idle_at`.
    pub fn watch_idle(&mut self)
        ensures
            exists|now: u64| #[trigger] idle_post(*old(self), *final(self), now),
    {
        let now = self.read_now();
        self.watch_idle_at(now.mono);
    }

    /// The run moved; see `progressed_at`.
    pub fn progressed(&mut self)
        ensures
            exists|now: u64| #[trigger] progressed_post(*old(self), *final(self), now),
    {
        let now = self.read_now();
        self.progressed_at(now.mono);
    }

    /// A point for the graph; see `sample_at`.
    pub fn sample(&mut self)
        ensures
            exists|now: u64| #[trigger] sampled(*old(self), *final(self), now),
    {
        let now = self.read_now();
        self.sample_at(now.mono);
    }

    /// What the panels show; see `snapshot_at`.
    pub fn snapshot(&self, status: String) -> (r: Snapshot)
        requires
            shaped(*self),
        ensures
            exists|now: u64| #[trigger] snapshot_of(*self, r, status@, now),
    {
        let now = self.read_now();
        self.snapshot_at(status, now.mono)
    }

    /// When this session began, as wall clock.
    pub fn started_ms(&self) -> (r: u64)
        ensures
            r == self.clock.started_ms,
    {
        self.clock.started_ms
    }

    pub fn revision(&self) -> (r: u64)
        ensures
            r == self.revision,
    {
        self.revision
    }

    pub fn extra_revision(&self) -> (r: u64)
        ensures
            r == self.extra_rev,
    {
        self.extra_rev
    }

    /// Every setting at once.
    pub fn set_prefs(&mut self, prefs: Prefs)
        ensures
            final(self).prefs == prefs,
            final(self).revision == bump(old(self).revision),
            final(self).clock == old(self).clock,
            final(self).bank == old(self).bank,
            final(self).save == old(self).save,
            final(self).finds == old(self).finds,
    {
        self.revision = bumped(self.revision);
        self.prefs = prefs;
    }

    /// Whether the ground or the bag is where a drop is heard.
    pub fn set_prefer_ground(&mut self, prefer_ground: bool)
        ensures
            final(self).prefs.prefer_ground == prefer_ground,
            final(self).prefs.alerts == old(self).prefs.alerts,
            final(self).prefs.sound_lists == old(self).prefs.sound_lists,
            final(self).revision == bump(old(self).revision),
    {
        self.revision = bumped(self.revision);
        self.prefs.prefer_ground = prefer_ground;
    }

    /// The alert rules: the rarities and the least grade.
    pub fn set_filter(&mut self, alerts: Vec<String>, min_tier: i64)
        ensures
            final(self).prefs.alerts == alerts,
            final(self).prefs.min_tier == min_tier,
            final(self).prefs.prefer_ground == old(self).prefs.prefer_ground,
            final(self).prefs.sound_lists == old(self).prefs.sound_lists,
            final(self).revision == bump(old(self).revision),
    {
        self.revision = bumped(self.revision);
        self.prefs.alerts = alerts;
        self.prefs.min_tier = min_tier;
    }

    /// The flourish's own rules.
    pub fn set_flourish_filter(&mut self, rarities: Vec<String>, tier: i64)
        ensures
            final(self).prefs.fx_rarities == rarities,
            final(self).prefs.fx_tier == tier,
            final(self).prefs.alerts == old(self).prefs.alerts,
            final(self).revision == bump(old(self).revision),
    {
        self.revision = bumped(self.revision);
        self.prefs.fx_rarities = rarities;
        self.prefs.fx_tier = tier;
    }

    /// Lists of names, each under its sound key, the names trimmed and
    /// lowered, with no rules.
    pub fn set_sound_lists(&mut self, lists: Vec<(String, Vec<String>)>)
        ensures
            final(self).prefs.sound_lists@.len() == lists@.len(),
            forall|i: int|
                0 <= i < lists@.len() ==> (#[trigger] final(self).prefs.sound_lists@[i]).key@ == lists@[i].0@
                    && final(self).prefs.sound_lists@[i].rules@.len() == 0 && final(self).prefs.sound_lists@[i].names@.len()
                    == lists@[i].1@.len() && forall|j: int|
                    0 <= j < lists@[i].1@.len() ==> (#[trigger] final(self).prefs.sound_lists@[i].names@[j])@
                        == crate::text::lowercase(crate::text::trimmed(lists@[i].1@[j]@)),
            final(self).revision == bump(old(self).revision),
    {
        let mut out: Vec<Listed> = Vec::new();
        let mut i: usize = 0;
        while i < lists.len()
            invariant
                i <= lists@.len(),
                out@.len() == i,
                forall|k: int|
                    0 <= k < i ==> (#[trigger] out@[k]).key@ == lists@[k].0@ && out@[k].rules@.len() == 0
                        && out@[k].names@.len() == lists@[k].1@.len() && forall|j: int|
                        0 <= j < lists@[k].1@.len() ==> (#[trigger] out@[k].names@[j])@ == crate::text::lowercase(
                            crate::text::trimmed(lists@[k].1@[j]@),
                        ),
            decreases lists@.len() - i,
        {
            let names = &lists[i].1;
            let mut lowered: Vec<String> = Vec::new();
            let mut j: usize = 0;
            while j < names.len()
                invariant
                    j <= names@.len(),
                    lowered@.len() == j,
                    forall|m: int| 0 <= m < j ==> (#[trigger] lowered@[m])@ == crate::text::lowercase(crate::text::trimmed(names@[m]@)),
                decreases names@.len() - j,
            {
                let t = crate::text::trim(names[j].as_str());
                lowered.push(crate::text::to_lower(t.as_str()));
                j = j + 1;
            }
            out.push(Listed { key: crate::text::copy_str(lists[i].0.as_str()), names: lowered, rules: Vec::new() });
            i = i + 1;
        }
        self.set_listed(out);
    }

    /// The custom lists, in the order the first that matches wins.
    pub fn set_listed(&mut self, lists: Vec<Listed>)
        ensures
            final(self).prefs.sound_lists == lists,
            final(self).prefs.alerts == old(self).prefs.alerts,
            final(self).revision == bump(old(self).revision),
    {
        self.revision = bumped(self.revision);
        self.prefs.sound_lists = lists;
    }
}

} // verus!

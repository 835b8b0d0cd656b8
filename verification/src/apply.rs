//! One event, taken: the drop path end to end, and the dispatch of every event
//! to the part of the session it concerns.

use vstd::prelude::*;

use crate::events::{bank_after, bank_ok, currency_post, mail_post, room_post, save_ok, vitals_post, xp_post, zone_post};
use crate::finds::{container, flourish_rule, hunted, identity_of, listed_key, passes_screen, drop_tier};
use crate::json::Json;
use crate::parser::{entry_codex, known_in, known_item, resolve_rarity, resolved_rarity, GameEvent};
use crate::sets::{has_text, texts};
use crate::stats::{bump, bumped, shaped, DropEntry, GameStats, Now, ZoneWatch};
use crate::text::{copy_str, lowercase, same_text, to_lower};

verus! {

/// What the tables say of the item a drop names: its rarity and grade.
pub open spec fn known_of(c: crate::catalog::Catalog, name: Seq<char>, unscaled: bool, t: i64, i: i64, w: i64) -> Option<(Seq<char>, i64)> {
    match known_in(c, name, unscaled, t, i, w) {
        Some(k) => Some((c.items@[k].rarity@, c.items@[k].tier)),
        None => None,
    }
}

/// The list a drop is on, or the relic slot for a hunted relic.
pub open spec fn listed_of(s: GameStats, name: Seq<char>, kv: Option<(Seq<char>, i64)>, t: i64, id: i64, w: i64) -> Option<Seq<char>> {
    match listed_key(s, name, kv, t, w) {
        Some(k) => Some(k),
        None => if hunted(s, t, id) {
            Some("relic"@)
        } else {
            None
        },
    }
}

pub open spec fn resource_drop(t: i64, name: Seq<char>) -> bool {
    crate::stats::is_resource_type(t) || container(name)
}

/// The alert rules: the server's own announcement, a list, or a rarity the
/// alerts name at a grade they allow.
pub open spec fn announce_rule(s: GameStats, announced: bool, listed: bool, resource: bool, rarity: Seq<char>, tier: i64) -> bool {
    announced || listed || (!resource && has_text(s.prefs.alerts@, rarity) && tier >= s.prefs.min_tier)
}

/// Which sighting is heard: any, when the ground is preferred; the pickup,
/// otherwise — a list or the server's word settles it either way.
pub open spec fn wanted_rule(s: GameStats, announced: bool, listed: bool, ground: bool) -> bool {
    announced || listed || s.prefs.prefer_ground || !ground
}

impl GameStats {
    /// A drop, ground or pickup: counted once per identity, announced once per
    /// item, journalled when the alert rules asked for it.
    #[verifier::rlimit(100)]
    pub fn apply_item(
        &mut self,
        rarity: &Json,
        unscaled: bool,
        mf: bool,
        tier: i64,
        item_type: i64,
        item_id: i64,
        weapon_type: i64,
        seed: i64,
        name: &String,
        announced: bool,
        amount: i64,
        fingerprint: &String,
        hash: &String,
        ground: bool,
        now: Now,
    ) -> (r: Option<DropEntry>)
        requires
            shaped(*old(self)),
        ensures
            item_post(*old(self), *final(self), r, *rarity, unscaled, mf, tier, item_type, item_id, weapon_type, seed, name@, announced, amount, fingerprint@, hash@, ground, now),
    {
        let ghost a = *self;
        let ident = crate::finds::identity(hash.as_str(), fingerprint.as_str(), ground, seed, item_type, item_id);
        let (go_on, first) = self.screen(fingerprint.as_str(), ident.as_str(), ground);
        let ghost after_screen = *self;
        if !go_on {
            proof {
                assert(item_steps(a, after_screen, after_screen, after_screen, *self, None, go_on, first, *rarity, unscaled, mf, tier, item_type, item_id, weapon_type, seed, name@, announced, amount, fingerprint@, hash@, ground, now));
                lemma_item_summary(a, after_screen, after_screen, after_screen, *self, None, go_on, first, *rarity, unscaled, mf, tier, item_type, item_id, weapon_type, seed, name@, announced, amount, fingerprint@, hash@, ground, now);
            }
            return None;
        }
        let known = known_item(&self.catalog, name.as_str(), unscaled, (item_type, item_id, weapon_type));
        let ghost kv = match &known {
            Some(k) => Some((k.rarity@, k.tier)),
            None => None,
        };
        assert(kv == known_of(self.catalog, name@, unscaled, item_type, item_id, weapon_type));
        let grade = self.grade(name.as_str(), known.as_ref(), tier, hash.as_str());
        let ghost after_grade = *self;
        let rarity_key = resolve_rarity(&self.catalog, rarity, name.as_str(), unscaled, (item_type, item_id, weapon_type));
        let is_resource = (12 <= item_type && item_type <= 15) || crate::finds::is_container(name.as_str());
        if !announced && first {
            self.count_find(item_type, name.as_str(), rarity_key.as_str(), is_resource, grade, mf, amount, now.mono);
        }
        let ghost after_count = *self;
        let listed = match self.listed_sound(name.as_str(), known.as_ref(), item_type, weapon_type) {
            Some(k) => Some(k),
            None => self.hunted_relic(item_type, item_id),
        };
        let listed_hit = listed.is_some();
        let wanted = announced || listed_hit || self.prefs.prefer_ground || !ground;
        let announce = announced || listed_hit || (!is_resource && self.passes_filter(rarity_key.as_str(), grade));
        let is_relic = match &listed {
            Some(k) => same_text(k.as_str(), "relic"),
            None => false,
        };
        let codex = crate::parser::is_entry_codex(item_type, item_id, name.as_str());
        let flourish = self.worth_a_flourish(rarity_key.as_str(), grade, listed_hit, is_relic, is_resource, codex);
        if !(wanted && (announce || flourish)) {
            proof {
                assert(item_steps(a, after_screen, after_grade, after_count, *self, None, go_on, first, *rarity, unscaled, mf, tier, item_type, item_id, weapon_type, seed, name@, announced, amount, fingerprint@, hash@, ground, now));
                lemma_item_summary(a, after_screen, after_grade, after_count, *self, None, go_on, first, *rarity, unscaled, mf, tier, item_type, item_id, weapon_type, seed, name@, announced, amount, fingerprint@, hash@, ground, now);
            }
            return None;
        }
        let r = self.announce_drop(
            ident.as_str(),
            name,
            &rarity_key,
            listed,
            announce,
            flourish,
            announced,
            ground,
            mf,
            grade,
            item_type,
            item_id,
            weapon_type,
            seed,
            now,
        );
        proof {
                assert(item_steps(a, after_screen, after_grade, after_count, *self, r, go_on, first, *rarity, unscaled, mf, tier, item_type, item_id, weapon_type, seed, name@, announced, amount, fingerprint@, hash@, ground, now));
                lemma_item_summary(a, after_screen, after_grade, after_count, *self, r, go_on, first, *rarity, unscaled, mf, tier, item_type, item_id, weapon_type, seed, name@, announced, amount, fingerprint@, hash@, ground, now);
            }
        r
    }
}

/// A session whose tables have their sizes and distinct names, whose counters
/// are in range, that has mail only once it knows its mail state, and whose
/// clock is held by hand only while it is held.
pub open spec fn well_formed(s: GameStats) -> bool {
    &&& shaped(s)
    &&& bank_ok(s.bank)
    &&& save_ok(s.save)
    &&& s.has_mail ==> s.mail_known
    &&& s.clock.by_hand ==> s.clock.paused_at is Some
}

/// What one event does to a session that is not closed: the revision moves
/// on, and then the step the event calls for, as that step's own contract
/// states it.
pub open spec fn applied(a: GameStats, t: GameStats, event: GameEvent, r: Option<DropEntry>, now: Now) -> bool {
    let s = GameStats { revision: bump(a.revision), ..a };
    match event {
        GameEvent::Found { finder, name } => found_post(s, t, r, finder, name, now),
        GameEvent::Gold(c) => r is None && currency_post(s, t, c, now.mono),
        GameEvent::XpGain(x) => r is None && xp_post(s, t, x, now.mono),
        GameEvent::Account {
            experience,
            has_experience,
            season,
            hardcore,
            blood_pact,
            name,
            level,
            herolevel,
            difficulty,
            hell_sub,
            act,
            kills,
            tallies,
        } => r is None && account_post(
            s,
            t,
            experience,
            has_experience,
            season,
            hardcore,
            blood_pact,
            name,
            level,
            herolevel,
            difficulty,
            hell_sub,
            act,
            kills,
            tallies,
            now.mono,
        ),
        GameEvent::WhoseAccount(id) => r is None && t.account is Some && t.account->0@ == id@ && t == (
        GameStats { account: t.account, ..s }),
        GameEvent::ItemsLetGo(gone) => r is None && let_go_post(s, t, gone),
        GameEvent::Mail(has) => r is None && mail_post(s, t, has),
        GameEvent::Room(room) => r is None && room_post(s, t, room, now.mono),
        GameEvent::Vitals { mf, level, hlevel, satanic_here } => r is None && vitals_post(
            s,
            t,
            mf,
            level,
            hlevel,
            satanic_here,
        ),
        GameEvent::ItemAdded {
            rarity,
            unscaled,
            mf,
            tier,
            item_type,
            item_id,
            weapon_type,
            seed,
            name,
            announced,
            amount,
            fingerprint,
            hash,
            ground,
        } => item_post(
            s,
            t,
            r,
            rarity,
            unscaled,
            mf,
            tier,
            item_type,
            item_id,
            weapon_type,
            seed,
            name@,
            announced,
            amount,
            fingerprint@,
            hash@,
            ground,
            now,
        ),
        GameEvent::ZoneRegion(id) => r is None && t.zone.zone_asked_by is Some
            && t.zone.zone_asked_by->0@ == id@ && t == (GameStats {
            zone: ZoneWatch { zone_asked_by: t.zone.zone_asked_by, ..s.zone },
            ..s
        }),
        GameEvent::SatanicZone { zone, buffs, debuffs } => r is None && zone_post(s, t, zone, buffs, debuffs, now),
    }
}

impl GameStats {
    /// Whether the session is well formed: what every step of it keeps.
    pub fn is_well_formed(&self) -> (r: bool)
        ensures
            r == well_formed(*self),
    {
        if !(self.finds.items.len() == 10 && self.finds.resources.len() == 4
            && self.save.tally_base.len() == crate::stats::TALLY_COUNT
            && self.save.tally_earned.len() == crate::stats::TALLY_COUNT) {
            return false;
        }
        if !crate::sets::has_distinct_keys(&self.finds.resource_items) {
            return false;
        }
        if (self.has_mail && !self.mail_known) || (self.clock.by_hand && self.clock.paused_at.is_none()) {
            return false;
        }
        if !(self.bank.banked >= 0 && self.bank.pending_step >= 0 && self.bank.gold_earned >= 0) {
            return false;
        }
        if !(self.save.xp_earned >= 0 && self.save.kills_earned >= 0 && self.save.total_xp >= 0) {
            return false;
        }
        let mut i: usize = 0;
        while i < self.save.tally_earned.len()
            invariant
                i <= self.save.tally_earned@.len(),
                forall|j: int| 0 <= j < i ==> #[trigger] self.save.tally_earned@[j] >= 0,
            decreases self.save.tally_earned@.len() - i,
        {
            if self.save.tally_earned[i] < 0 {
                return false;
            }
            i = i + 1;
        }
        true
    }
}

/// Nothing the session has earned went down.
pub open spec fn earned_grew(a: GameStats, b: GameStats) -> bool {
    &&& b.bank.gold_earned >= a.bank.gold_earned
    &&& b.save.xp_earned >= a.save.xp_earned
    &&& b.save.kills_earned >= a.save.kills_earned
    &&& forall|i: int| 0 <= i < crate::stats::TALLY_COUNT ==> #[trigger] b.save.tally_earned@[i] >= a.save.tally_earned@[i]
    &&& forall|i: int| 0 <= i < 10 ==> #[trigger] b.finds.items@[i].total >= a.finds.items@[i].total
}

impl GameStats {
    /// A character save: whose it is, what it says of experience, kills and
    /// the other counters, where the character is, and who it is; then the last
    /// currency packet read again now that the purse is known, without its
    /// deposit.
    pub fn apply_account(
        &mut self,
        experience: i64,
        has_experience: bool,
        season: i64,
        hardcore: i64,
        blood_pact: i64,
        name: &String,
        level: i64,
        herolevel: i64,
        difficulty: i64,
        hell_sub: i64,
        act: i64,
        kills: i64,
        tallies: &Vec<(String, i64)>,
        now: u64,
    )
        requires
            well_formed(*old(self)),
        ensures
            account_post(*old(self), *final(self), experience, has_experience, season, hardcore, blood_pact, *name, level, herolevel, difficulty, hell_sub, act, kills, *tallies, now),
    {
        let ghost a = *self;
        self.note_save(has_experience, name, now);
        let ghost s1 = *self;
        self.count_xp(experience, has_experience, herolevel, kills, now);
        let ghost s2 = *self;
        self.count_kills(kills, now);
        let ghost s3 = *self;
        self.count_tallies(tallies);
        let ghost s4 = *self;
        proof {
            assert forall|i: int| 0 <= i < crate::stats::TALLY_COUNT implies #[trigger] s4.save.tally_earned@[i]
                >= s3.save.tally_earned@[i] by {
                assert((s4.save.tally_base@[i], s4.save.tally_earned@[i]) == crate::events::tally_after(
                    s3.save.tally_base@[i],
                    s3.save.tally_earned@[i],
                    crate::sets::lookup(tallies@, crate::stats::tally_table()[i].0),
                ));
            }
            if crate::events::switched_to(a, has_experience, name@) {
                assert forall|i: int| 0 <= i < crate::stats::TALLY_COUNT implies #[trigger] s4.save.tally_earned@[i]
                    == s3.save.tally_earned@[i] by {
                    assert(s3.save.tally_base@[i] is None);
                    assert((s4.save.tally_base@[i], s4.save.tally_earned@[i]) == crate::events::tally_after(
                        s3.save.tally_base@[i],
                        s3.save.tally_earned@[i],
                        crate::sets::lookup(tallies@, crate::stats::tally_table()[i].0),
                    ));
                }
                assert(s4.save.tally_earned@ =~= s3.save.tally_earned@);
            }
        }
        self.note_act(act, now);
        let ghost s5 = *self;
        self.note_identity(has_experience, season, hardcore, blood_pact, name, level, herolevel, difficulty, hell_sub);
        let ghost s6 = *self;
        proof {
            if crate::events::switched_to(a, has_experience, name@) {
                assert(s1.save.stale_save && s1.save.total_kills == 0 && s1.bank.stale_bank);
                assert(s2.save.xp_earned == a.save.xp_earned);
                assert(s3.save.kills_earned == a.save.kills_earned);
                assert(s6.bank.stale_bank);
                assert(s6.bank.gold_earned == a.bank.gold_earned);
            }
        }
        if let Some(c) = self.bank.last_currency {
            let replay = crate::parser::Currency { delta: 0, ..c };
            self.apply_currency(&replay, now);
            proof {
                if crate::events::switched_to(a, has_experience, name@) {
                    assert(bank_after(s6.bank, s6.season_mode, replay, now).gold_earned == s6.bank.gold_earned);
                }
            }
        }
        proof {
            if crate::events::switched_to(a, has_experience, name@) {
                assert(self.save.xp_earned == a.save.xp_earned);
                assert(self.save.kills_earned == a.save.kills_earned);
                assert(self.save.tally_earned@ == a.save.tally_earned@);
                assert(self.bank.gold_earned == a.bank.gold_earned);
            }
            assert(account_steps(a, s1, s2, s3, s4, s5, s6, *self, experience, has_experience, season, hardcore, blood_pact, *name, level, herolevel, difficulty, hell_sub, act, kills, *tallies, now));
        }
    }

    /// Whether a name in chat is the character being tracked; before the
    /// first save there is nobody to compare against.
    pub fn is_us(&self, who: &str) -> (r: bool)
        ensures
            r == (self.character is Some && crate::text::trimmed(self.character->0.name@).len() > 0
                && crate::text::eq_ascii_ci(crate::text::trimmed(self.character->0.name@), crate::text::trimmed(who@))),
    {
        match &self.character {
            Some(c) => {
                let me = crate::text::chars_of(c.name.as_str());
                let (a, b) = crate::text::trim_bounds(me.as_slice());
                let w = crate::text::chars_of(who);
                let (x, y) = crate::text::trim_bounds(w.as_slice());
                let mut m: Vec<char> = Vec::new();
                let mut i: usize = a;
                while i < b
                    invariant
                        a <= i <= b <= me@.len(),
                        m@ == me@.subrange(a as int, i as int),
                    decreases b - i,
                {
                    m.push(me[i]);
                    i = i + 1;
                }
                let mut u: Vec<char> = Vec::new();
                let mut j: usize = x;
                while j < y
                    invariant
                        x <= j <= y <= w@.len(),
                        u@ == w@.subrange(x as int, j as int),
                    decreases y - j,
                {
                    u.push(w[j]);
                    j = j + 1;
                }
                m.len() > 0 && crate::text::eq_ignore_ascii_case(m.as_slice(), u.as_slice())
            },
            None => false,
        }
    }

    /// Fingerprints that just left the bags; the set is bounded the way the
    /// sightings are.
    pub fn let_go_of(&mut self, gone: &Vec<String>)
        ensures
            let_go_post(*old(self), *final(self), *gone),
    {
        if self.finds.let_go.len() > 4000 {
            crate::sets::clear_texts(&mut self.finds.let_go);
        }
        let ghost start = texts(self.finds.let_go@);
        let mut i: usize = 0;
        while i < gone.len()
            invariant
                i <= gone@.len(),
                texts(self.finds.let_go@) == start.union(texts(gone@.take(i as int))),
                self.finds.items == old(self).finds.items,
                self.finds.graded == old(self).finds.graded,
                self.finds.resources == old(self).finds.resources,
                self.finds.drops == old(self).finds.drops,
                self.clock == old(self).clock,
                self.place == old(self).place,
                self.bank == old(self).bank,
                self.save == old(self).save,
                self.zone == old(self).zone,
                self.prefs == old(self).prefs,
                self.revision == old(self).revision,
                self.catalog == old(self).catalog,
                self.finished == old(self).finished,
                self.has_mail == old(self).has_mail,
                self.mail_known == old(self).mail_known,
                self.season_mode == old(self).season_mode,
                self.account == old(self).account,
                self.character == old(self).character,
                self.series == old(self).series,
                self.extra_rev == old(self).extra_rev,
                self.finds.seen == old(self).finds.seen,
                self.finds.counted == old(self).finds.counted,
                self.finds.told == old(self).finds.told,
                self.finds.tier_seen == old(self).finds.tier_seen,
                self.finds.announced_at == old(self).finds.announced_at,
                self.finds.resource_items == old(self).finds.resource_items,
                self.finds.notable == old(self).finds.notable,
            decreases gone@.len() - i,
        {
            crate::sets::insert_text(&mut self.finds.let_go, gone[i].as_str());
            proof {
                let t = gone@.take(i + 1);
                assert(t == gone@.take(i as int).push(gone@[i as int]));
                assert(texts(t) =~= texts(gone@.take(i as int)).insert(gone@[i as int]@)) by {
                    assert forall|x: Seq<char>| texts(t).contains(x) == texts(gone@.take(i as int)).insert(gone@[i as int]@).contains(x) by {
                        if has_text(t, x) {
                            let k = choose|k: int| 0 <= k < t.len() && (#[trigger] t[k])@ == x;
                            if k < i {
                                assert(gone@.take(i as int)[k] == t[k]);
                            }
                        }
                        if has_text(gone@.take(i as int), x) {
                            let k = choose|k: int| 0 <= k < i && (#[trigger] gone@.take(i as int)[k])@ == x;
                            assert(t[k] == gone@.take(i as int)[k]);
                        }
                        if x == gone@[i as int]@ {
                            assert(t[i as int] == gone@[i as int]);
                        }
                    }
                }
            }
            i = i + 1;
        }
        proof {
            assert(gone@.take(gone@.len() as int) == gone@);
            if old(self).finds.let_go@.len() > 4000 {
                assert(start =~= Set::<Seq<char>>::empty());
                assert(start.union(texts(gone@)) =~= texts(gone@));
            }
        }
    }
}

impl GameStats {
    /// A find the server put in chat. Ours is taken as though the client had
    /// reported it, under an identity of its own; anyone else's counts for
    /// nothing. The revision is left alone here: `apply_at` moves it once for
    /// the chat line, and the find taken from it does not move it again.
    pub fn apply_found(&mut self, finder: &String, name: &String, now: Now) -> (r: Option<DropEntry>)
        requires
            shaped(*old(self)),
        ensures
            found_post(*old(self), *final(self), r, *finder, *name, now),
    {
        if !self.is_us(finder.as_str()) {
            return None;
        }
        let mut fp = copy_str("chat:");
        let lower = to_lower(name.as_str());
        fp.append(lower.as_str());
        fp.append(":");
        fp.append(crate::text::decimal_u64(now.wall_ms).as_str());
        let nothing = Json::Null;
        let hash = String::new();
        self.apply_item(&nothing, false, false, 0, 0, 0, 0, 0, name, true, 1, &fp, &hash, false, now)
    }

    /// Takes one event. Returns the journal entry when the event produced a
    /// new tracked drop. A run closed by hand takes nothing until the next one
    /// starts.
    #[verifier::rlimit(60)]
    pub fn apply_at(&mut self, event: &GameEvent, now: Now) -> (r: Option<DropEntry>)
        requires
            well_formed(*old(self)),
        ensures
            well_formed(*final(self)),
            earned_grew(*old(self), *final(self)),
            old(self).finished ==> r is None && *final(self) == *old(self),
            !old(self).finished ==> applied(*old(self), *final(self), *event, r, now),
            final(self).prefs == old(self).prefs,
            final(self).catalog == old(self).catalog,
            final(self).finished == old(self).finished,
    {
        if self.finished {
            return None;
        }
        self.revision = bumped(self.revision);
        match event {
            GameEvent::Found { finder, name } => self.apply_found(finder, name, now),
            GameEvent::Gold(c) => {
                self.apply_currency(c, now.mono);
                None
            },
            GameEvent::XpGain(x) => {
                self.gain_xp(*x, now.mono);
                None
            },
            GameEvent::Account {
                experience,
                has_experience,
                season,
                hardcore,
                blood_pact,
                name,
                level,
                herolevel,
                difficulty,
                hell_sub,
                act,
                kills,
                tallies,
            } => {
                self.apply_account(
                    *experience,
                    *has_experience,
                    *season,
                    *hardcore,
                    *blood_pact,
                    name,
                    *level,
                    *herolevel,
                    *difficulty,
                    *hell_sub,
                    *act,
                    *kills,
                    tallies,
                    now.mono,
                );
                None
            },
            GameEvent::WhoseAccount(id) => {
                let same = match &self.account {
                    Some(a) => same_text(a.as_str(), id.as_str()),
                    None => false,
                };
                if !same {
                    self.account = Some(copy_str(id.as_str()));
                }
                None
            },
            GameEvent::ItemsLetGo(gone) => {
                self.let_go_of(gone);
                None
            },
            GameEvent::Mail(has) => {
                self.hear_mail(*has);
                None
            },
            GameEvent::Room(room) => {
                self.enter_room(room, now.mono);
                None
            },
            GameEvent::Vitals { mf, level, hlevel, satanic_here } => {
                self.hear_vitals(*mf, *level, *hlevel, *satanic_here);
                None
            },
            GameEvent::ItemAdded {
                rarity,
                unscaled,
                mf,
                tier,
                item_type,
                item_id,
                weapon_type,
                seed,
                name,
                announced,
                amount,
                fingerprint,
                hash,
                ground,
            } => self.apply_item(
                rarity,
                *unscaled,
                *mf,
                *tier,
                *item_type,
                *item_id,
                *weapon_type,
                *seed,
                name,
                *announced,
                *amount,
                fingerprint,
                hash,
                *ground,
                now,
            ),
            GameEvent::ZoneRegion(id) => {
                self.zone.zone_asked_by = Some(copy_str(id.as_str()));
                None
            },
            GameEvent::SatanicZone { zone, buffs, debuffs } => {
                self.hear_zone(zone, buffs, debuffs, now);
                None
            },
        }
    }
}

/// What `apply_found` does, from the session before to the session after.
pub open spec fn found_post(a: GameStats, b: GameStats, r: Option<DropEntry>, finder: String, name: String, now: Now) -> bool {
    &&& shaped(b)
    &&& forall|i: int| 0 <= i < 10 ==> #[trigger] b.finds.items@[i].total >= a.finds.items@[i].total
    &&& !(a.character is Some && crate::text::trimmed(a.character->0.name@).len() > 0
        && crate::text::eq_ascii_ci(crate::text::trimmed(a.character->0.name@), crate::text::trimmed(finder@)))
        ==> r is None && b == a
    &&& r is Some ==> r->0.announced && r->0.name@ == name@ && r->0.announce
    &&& (a.character is Some && crate::text::trimmed(a.character->0.name@).len() > 0
        && crate::text::eq_ascii_ci(crate::text::trimmed(a.character->0.name@), crate::text::trimmed(finder@)))
        ==> item_post(a, b, r, Json::Null, false, false, 0, 0, 0, 0, 0, name@, true, 1, "chat:"@ + lowercase(name@) + ":"@
        + crate::text::decimal_text(now.wall_ms as int), Seq::empty(), false, now)
    &&& b.bank == a.bank
    &&& b.save == a.save
    &&& b.zone == a.zone
    &&& b.prefs == a.prefs
    &&& b.catalog == a.catalog
    &&& b.account == a.account
    &&& b.character == a.character
    &&& crate::events::settings_kept(a, b)
    &&& b.season_mode == a.season_mode
}

/// The steps a sighted item takes the session through: the sighting is
/// screened; one that goes on is graded, and counted where it is the first
/// of its identity and was not only announced in chat; and one that is
/// wanted and worth an alert or a flourish is announced.
pub open spec fn item_steps(a: GameStats, s1: GameStats, sg: GameStats, s2: GameStats, b: GameStats, r: Option<DropEntry>, go: bool, first: bool, rarity: Json, unscaled: bool, mf: bool, tier: i64, item_type: i64, item_id: i64, weapon_type: i64, seed: i64, name: Seq<char>, announced: bool, amount: i64, fingerprint: Seq<char>, hash: Seq<char>, ground: bool, now: Now) -> bool {
    let ident = identity_of(hash, fingerprint, ground, seed, item_type, item_id);
    let kv = known_of(a.catalog, name, unscaled, item_type, item_id, weapon_type);
    let grade = drop_tier(a, name, kv, tier, hash);
    let rk = resolved_rarity(a.catalog, rarity, name, unscaled, item_type, item_id, weapon_type);
    let res = resource_drop(item_type, name);
    let listed = listed_of(a, name, kv, item_type, item_id, weapon_type);
    let announce = announce_rule(a, announced, listed is Some, res, rk, grade);
    let flourish = flourish_rule(
        a.prefs,
        rk,
        grade,
        listed is Some,
        listed == Some("relic"@),
        res,
        entry_codex(item_type, item_id, name),
    );
    &&& crate::finds::screened(a, s1, go, first, fingerprint, ident, ground)
    &&& !go ==> r is None && b == s1
    &&& go ==> {
        &&& crate::finds::graded_post(s1, sg, grade, name, kv, tier, hash)
        &&& if !announced && first {
            crate::finds::counted(sg, s2, item_type, name, rk, res, grade, mf, amount, now.mono)
        } else {
            s2 == sg
        }
        &&& if wanted_rule(a, announced, listed is Some, ground) && (announce || flourish) {
            crate::finds::announced_post(s2, b, r, ident, name, rk, listed, announce, flourish, announced, ground, mf, grade, item_type, item_id, weapon_type, seed, now)
        } else {
            r is None && b == s2
        }
    }
}

/// What `apply_item` does, from the session before to the session after.
/// What a sighted item leaves behind, read off its steps: the counts do not
/// go down, a sighting the screen stops changes no count, and a journal entry
/// comes back only for a wanted drop worth an alert or a flourish, carrying
/// what the rules made of it.
pub open spec fn item_summary(a: GameStats, b: GameStats, r: Option<DropEntry>, rarity: Json, unscaled: bool, mf: bool, tier: i64, item_type: i64, item_id: i64, weapon_type: i64, seed: i64, name: Seq<char>, announced: bool, amount: i64, fingerprint: Seq<char>, hash: Seq<char>, ground: bool, now: Now) -> bool {
    &&& shaped(b)
    &&& forall|i: int| 0 <= i < 10 ==> #[trigger] b.finds.items@[i].total >= a.finds.items@[i].total
    &&& ({
        let ident = identity_of(hash, fingerprint, ground, seed, item_type, item_id);
        let pass = passes_screen(a.finds, a.account, fingerprint, ident, ground);
        let kv = known_of(a.catalog, name, unscaled, item_type, item_id, weapon_type);
        let grade = drop_tier(a, name, kv, tier, hash);
        let rk = resolved_rarity(a.catalog, rarity, name, unscaled, item_type, item_id, weapon_type);
        let res = resource_drop(item_type, name);
        let listed = listed_of(a, name, kv, item_type, item_id, weapon_type);
        let announce = announce_rule(a, announced, listed is Some, res, rk, grade);
        let flourish = flourish_rule(
            a.prefs,
            rk,
            grade,
            listed is Some,
            listed == Some("relic"@),
            res,
            entry_codex(item_type, item_id, name),
        );
        &&& !pass ==> r is None && b.finds.items == a.finds.items && b.finds.graded
            == a.finds.graded && b.finds.resources == a.finds.resources
            && b.finds.drops == a.finds.drops
        &&& r is Some ==> {
            let e = r->0;
            &&& pass
            &&& wanted_rule(a, announced, listed is Some, ground)
            &&& (announce || flourish)
            &&& e.rarity@ == rk
            &&& e.tier == grade
            &&& e.name@ == name
            &&& e.announce == announce
            &&& e.flourish == flourish
            &&& e.announced == announced
            &&& e.ground == ground
            &&& e.ts_ms == now.wall_ms
            &&& e.item_type == item_type && e.item_id == item_id && e.weapon_type == weapon_type
            &&& e.seed == seed && e.mf == mf
        }
        &&& pass && !(wanted_rule(a, announced, listed is Some, ground) && (announce || flourish)) ==> r is None
    })
    &&& b.bank == a.bank
    &&& b.save == a.save
    &&& b.zone == a.zone
    &&& b.prefs == a.prefs
    &&& b.catalog == a.catalog
    &&& b.account == a.account
    &&& b.character == a.character
    &&& crate::events::settings_kept(a, b)
    &&& b.season_mode == a.season_mode
}

proof fn lemma_item_summary(a: GameStats, s1: GameStats, sg: GameStats, s2: GameStats, b: GameStats, r: Option<DropEntry>, go: bool, first: bool, rarity: Json, unscaled: bool, mf: bool, tier: i64, item_type: i64, item_id: i64, weapon_type: i64, seed: i64, name: Seq<char>, announced: bool, amount: i64, fingerprint: Seq<char>, hash: Seq<char>, ground: bool, now: Now)
    requires
        shaped(a),
        item_steps(a, s1, sg, s2, b, r, go, first, rarity, unscaled, mf, tier, item_type, item_id, weapon_type, seed, name, announced, amount, fingerprint, hash, ground, now),
    ensures
        item_summary(a, b, r, rarity, unscaled, mf, tier, item_type, item_id, weapon_type, seed, name, announced, amount, fingerprint, hash, ground, now),
{
}

pub open spec fn item_post(a: GameStats, b: GameStats, r: Option<DropEntry>, rarity: Json, unscaled: bool, mf: bool, tier: i64, item_type: i64, item_id: i64, weapon_type: i64, seed: i64, name: Seq<char>, announced: bool, amount: i64, fingerprint: Seq<char>, hash: Seq<char>, ground: bool, now: Now) -> bool {
    &&& exists|s1: GameStats, sg: GameStats, s2: GameStats, go: bool, first: bool|
        #[trigger] item_steps(a, s1, sg, s2, b, r, go, first, rarity, unscaled, mf, tier, item_type, item_id, weapon_type, seed, name, announced, amount, fingerprint, hash, ground, now)
    &&& item_summary(a, b, r, rarity, unscaled, mf, tier, item_type, item_id, weapon_type, seed, name, announced, amount, fingerprint, hash, ground, now)
}

/// The steps a save takes the session through, one after another: the save
/// is noted, its experience, kills and tallies counted, its act and the
/// character's identity noted, and the last currency reading replayed against
/// the purse it now names.
pub open spec fn account_steps(a: GameStats, s1: GameStats, s2: GameStats, s3: GameStats, s4: GameStats, s5: GameStats, s6: GameStats, b: GameStats, experience: i64, has_experience: bool, season: i64, hardcore: i64, blood_pact: i64, name: String, level: i64, herolevel: i64, difficulty: i64, hell_sub: i64, act: i64, kills: i64, tallies: Vec<(String, i64)>, now: u64) -> bool {
    &&& crate::events::save_noted(a, s1, has_experience, name, now)
    &&& crate::events::xp_counted(s1, s2, experience, has_experience, herolevel, kills, now)
    &&& crate::events::kills_counted(s2, s3, kills, now)
    &&& crate::events::tallies_counted(s3, s4, tallies)
    &&& crate::events::act_noted(s4, s5, act, now)
    &&& crate::events::identity_noted(s5, s6, has_experience, season, hardcore, blood_pact, name, level, herolevel, difficulty, hell_sub)
    &&& match s6.bank.last_currency {
        Some(c) => currency_post(s6, b, crate::parser::Currency { delta: 0, ..c }, now),
        None => b == s6,
    }
}

/// What `apply_account` does, from the session before to the session after.
pub open spec fn account_post(a: GameStats, b: GameStats, experience: i64, has_experience: bool, season: i64, hardcore: i64, blood_pact: i64, name: String, level: i64, herolevel: i64, difficulty: i64, hell_sub: i64, act: i64, kills: i64, tallies: Vec<(String, i64)>, now: u64) -> bool {
    &&& exists|s1: GameStats, s2: GameStats, s3: GameStats, s4: GameStats, s5: GameStats, s6: GameStats|
        #[trigger] account_steps(a, s1, s2, s3, s4, s5, s6, b, experience, has_experience, season, hardcore, blood_pact, name, level, herolevel, difficulty, hell_sub, act, kills, tallies, now)
    &&& well_formed(b)
    &&& earned_grew(a, b)
    &&& crate::events::switched_to(a, has_experience, name@) ==> {
        &&& b.save.xp_earned == a.save.xp_earned
        &&& b.save.kills_earned == a.save.kills_earned
        &&& b.save.tally_earned@ == a.save.tally_earned@
        &&& b.bank.gold_earned == a.bank.gold_earned
    }
    &&& has_experience && name@.len() > 0 ==> b.save.baseline_for is Some
        && b.save.baseline_for->0@ == name@
    &&& b.season_mode == if has_experience || a.season_mode is None {
        Some(crate::events::mode_of(season, hardcore, blood_pact))
    } else {
        a.season_mode
    }
    &&& b.place.act == if act > 0 {
        act
    } else {
        a.place.act
    }
    &&& b.finds == a.finds
    &&& b.zone == a.zone
    &&& b.prefs == a.prefs
    &&& b.catalog == a.catalog
    &&& b.account == a.account
    &&& crate::events::settings_kept(a, b)
}

/// What `let_go_of` does, from the session before to the session after.
pub open spec fn let_go_post(a: GameStats, b: GameStats, gone: Vec<String>) -> bool {
    &&& texts(b.finds.let_go@) == if a.finds.let_go@.len() > 4000 {
        texts(gone@)
    } else {
        texts(a.finds.let_go@).union(texts(gone@))
    }
    &&& b.finds.items == a.finds.items
    &&& b.finds.graded == a.finds.graded
    &&& b.finds.resources == a.finds.resources
    &&& b.finds.drops == a.finds.drops
    &&& b.clock == a.clock
    &&& b.place == a.place
    &&& b.bank == a.bank
    &&& b.save == a.save
    &&& b.zone == a.zone
    &&& b.prefs == a.prefs
    &&& b.revision == a.revision
    &&& crate::events::settings_kept(a, b)
    &&& b.season_mode == a.season_mode
    &&& b.account == a.account
    &&& b.character == a.character
    &&& b.series == a.series
    &&& b.extra_rev == a.extra_rev
    &&& b.finds.seen == a.finds.seen
    &&& b.finds.counted == a.finds.counted
    &&& b.finds.told == a.finds.told
    &&& b.finds.tier_seen == a.finds.tier_seen
    &&& b.finds.announced_at == a.finds.announced_at
    &&& b.finds.resource_items == a.finds.resource_items
    &&& b.finds.notable == a.finds.notable
}

} // verus!

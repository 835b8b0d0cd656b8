//! What a message from the game says, as events. One message can carry
//! several things at once (currency, items, the zone), so every rule that
//! matches contributes, in a fixed order.

use vstd::prelude::*;
use crate::catalog::Catalog;
use crate::fields::{field, field_raw, field_ref, field_val, has_field, int_field, int_of, json_text, message_of, msg_text, names_view, norm, text_of, Found};
use crate::json::{as_bool, as_int, flag_reading, int_reading, Json, JsonNumber};
use crate::tree::{json_copy, json_view, JsonView};
use crate::parser::{announced_item_name, announcement, character_share, entry_codex, fingerprint_type, guild_share_to_character, is_entry_codex, last_field, packet_rarity, rarity_from_packet, Currency, GameEvent};
use crate::catalog::{by_identity, is_journal_rarity, journal_rarity};
use crate::sets::{first_key, lookup, put_key};
use crate::text::{alphanumeric, chars_of, contains_text, copy_str, is_alphanumeric, is_digit, lowercase, occurs_at, parse_i64, parse_int_in, parse_u8, string_of, to_lower, trim, trim_bounds, trimmed};
use crate::wire::{base64_bytes, decode_base64, parse_bytes, parsed_bytes};

verus! {

// ---------------------------------------------------------------------------
// Events as values
// ---------------------------------------------------------------------------

/// An event with its texts as character sequences.
pub enum EventView {
    Gold(Currency),
    XpGain(i64),
    ItemsLetGo(Seq<Seq<char>>),
    WhoseAccount(Seq<char>),
    Account {
        experience: i64,
        has_experience: bool,
        season: i64,
        hardcore: i64,
        blood_pact: i64,
        name: Seq<char>,
        level: i64,
        herolevel: i64,
        difficulty: i64,
        hell_sub: i64,
        act: i64,
        kills: i64,
        tallies: Map<Seq<char>, i64>,
    },
    Mail(bool),
    Room(Seq<char>),
    Vitals { mf: Option<i64>, level: i64, hlevel: i64, satanic_here: Option<bool> },
    ZoneRegion(Seq<char>),
    Found { finder: Seq<char>, name: Seq<char> },
    ItemAdded {
        /// what the packet's rarity field claims, read on the ten-point scale
        rarity: Option<Seq<char>>,
        unscaled: bool,
        mf: bool,
        tier: i64,
        item_type: i64,
        item_id: i64,
        weapon_type: i64,
        seed: i64,
        name: Seq<char>,
        announced: bool,
        amount: i64,
        fingerprint: Seq<char>,
        hash: Seq<char>,
        ground: bool,
    },
    SatanicZone { zone: Seq<char>, buffs: Seq<u8>, debuffs: Seq<u8> },
}

/// A keyed list as the map it stands for.
pub open spec fn keyed_map(v: Seq<(String, i64)>) -> Map<Seq<char>, i64> {
    Map::new(|k: Seq<char>| lookup(v, k) is Some, |k: Seq<char>| lookup(v, k)->0)
}

pub open spec fn texts_view(v: Seq<String>) -> Seq<Seq<char>> {
    v.map_values(|s: String| s@)
}

pub open spec fn event_view(e: GameEvent) -> EventView {
    match e {
        GameEvent::Gold(c) => EventView::Gold(c),
        GameEvent::XpGain(n) => EventView::XpGain(n),
        GameEvent::ItemsLetGo(v) => EventView::ItemsLetGo(texts_view(v@)),
        GameEvent::WhoseAccount(s) => EventView::WhoseAccount(s@),
        GameEvent::Account {
            experience,
            has_experience,
            season,
            hardcore,
            blood_pact,
            name,
            level,
            herolevel,
            difficulty,
            hell_sub,
            act,
            kills,
            tallies,
        } => EventView::Account {
            experience,
            has_experience,
            season,
            hardcore,
            blood_pact,
            name: name@,
            level,
            herolevel,
            difficulty,
            hell_sub,
            act,
            kills,
            tallies: keyed_map(tallies@),
        },
        GameEvent::Mail(b) => EventView::Mail(b),
        GameEvent::Room(s) => EventView::Room(s@),
        GameEvent::Vitals { mf, level, hlevel, satanic_here } => EventView::Vitals { mf, level, hlevel, satanic_here },
        GameEvent::ZoneRegion(s) => EventView::ZoneRegion(s@),
        GameEvent::Found { finder, name } => EventView::Found { finder: finder@, name: name@ },
        GameEvent::ItemAdded {
            rarity,
            unscaled,
            mf,
            tier,
            item_type,
            item_id,
            weapon_type,
            seed,
            name,
            announced,
            amount,
            fingerprint,
            hash,
            ground,
        } => EventView::ItemAdded {
            rarity: packet_rarity(rarity),
            unscaled,
            mf,
            tier,
            item_type,
            item_id,
            weapon_type,
            seed,
            name: name@,
            announced,
            amount,
            fingerprint: fingerprint@,
            hash: hash@,
            ground,
        },
        GameEvent::SatanicZone { zone, buffs, debuffs } => EventView::SatanicZone {
            zone: zone@,
            buffs: buffs@,
            debuffs: debuffs@,
        },
    }
}

pub open spec fn events_view(es: Seq<GameEvent>) -> Seq<EventView> {
    es.map_values(|e: GameEvent| event_view(e))
}

/// A value's text, or a number's as `Display` writes it, where it is one of
/// those and not empty.
pub open spec fn id_text(v: Option<Json>) -> Option<Seq<char>> {
    match v {
        Some(Json::Str(s)) => if s@.len() > 0 {
            Some(s@)
        } else {
            None
        },
        Some(Json::Number(n)) => Some(n.text@),
        _ => None,
    }
}

fn id_text_of(v: Option<Found>) -> (r: Option<String>)
    ensures
        match r {
            Some(s) => id_text(match v {
                Some(f) => Some(f.value()),
                None => None,
            }) == Some(s@),
            None => id_text(match v {
                Some(f) => Some(f.value()),
                None => None,
            }) is None,
        },
{
    match v {
        Some(f) => match f.get() {
            Json::Str(s) => if !s.as_str().is_empty() {
                Some(copy_str(s.as_str()))
            } else {
                None
            },
            Json::Number(n) => Some(copy_str(n.text.as_str())),
            _ => None,
        },
        None => None,
    }
}

// ---------------------------------------------------------------------------
// The names the game spells its fields with
// ---------------------------------------------------------------------------

pub const GOLD_FIELDS: [&'static str; 2] = ["currencyData", "currency_data"];
pub const GOLD_DELTA_FIELDS: [&'static str; 3] = ["goldAmount", "gold_amount", "amount_gold"];
pub const XP_TOTAL_FIELDS: [&'static str; 4] = ["totalGuildXp", "total_guild_xp", "totalGuildExp", "total_guild_exp"];
pub const XP_GAIN_FIELDS: [&'static str; 3] = ["xp", "experienceGained", "experience_gained"];
pub const MAIL_FIELDS: [&'static str; 3] = ["newMail", "new_mail", "mail"];
pub const SATANIC_ZONE_FIELDS: [&'static str; 2] = ["satanicZoneName", "satanic_zone_name"];
pub const BUFF_FIELDS: [&'static str; 5] = ["buffs", "satanicZoneBuffs", "satanic_zone_buffs", "zoneBuffs", "zone_buffs"];
pub const DEBUFF_FIELDS: [&'static str; 5] = [
    "debuffs",
    "satanicZoneDebuffs",
    "satanic_zone_debuffs",
    "zoneDebuffs",
    "zone_debuffs",
];
pub const REGION_ID_FIELDS: [&'static str; 3] = [
    "crossregion_identifier",
    "crossRegionIdentifier",
    "cross_region_identifier",
];
pub const ACCOUNT_ID_FIELDS: [&'static str; 2] = ["unique_account_id", "uniqueAccountId"];
pub const ACCOUNT_SIGNATURE_FIELDS: [&'static str; 7] = [
    "name",
    "class",
    "class_id",
    "heroLevel",
    "herolevel",
    "season",
    "hardcore",
];
pub const GAME_STATE_FIELDS: [&'static str; 2] = ["game_state", "gameState"];
pub const CHAT_ROOM_FIELDS: [&'static str; 3] = ["chatRoom", "chat_room", "room"];
pub const CHAT_COLOR_FIELDS: [&'static str; 4] = ["nameColor", "name_color", "msgColor", "msg_color"];
pub const QUEST_FIELDS: [&'static str; 3] = ["questId", "quest_id", "questID"];
pub const ACT_FIELDS: [&'static str; 2] = ["act_previous", "actPrevious"];
pub const SLOT_FIELDS: [&'static str; 2] = ["slot_data", "slotData"];
pub const UID_FIELDS: [&'static str; 4] = ["accountUID", "accountUid", "unique_id", "uniqueId"];
pub const CROSS_REGION_FIELDS: [&'static str; 4] = [
    "cross_region_identifier",
    "crossRegionIdentifier",
    "cross_region_id",
    "crossRegionId",
];
pub const NEARBY_FIELDS: [&'static str; 5] = ["platformUserName", "platform_user_name", "nameColor", "name_color", "slot"];
pub const KILL_FIELDS: [&'static str; 4] = [
    "statisticTotalMonsterKills",
    "statistic_total_monster_kills",
    "totalMonsterKills",
    "total_monster_kills",
];
pub const HERO_LEVEL_FIELDS: [&'static str; 2] = ["heroLevel", "herolevel"];
pub const HELL_FIELDS: [&'static str; 2] = ["hell_subdifficulty", "hellSubdifficulty"];
pub const BLOOD_PACT_FIELDS: [&'static str; 2] = ["blood_pact", "bloodPact"];

pub open spec fn nv<const N: usize>(names: [&'static str; N]) -> Seq<Seq<char>> {
    names_view(names@)
}

pub open spec fn one(name: Seq<char>) -> Seq<Seq<char>> {
    seq![name]
}

// ---------------------------------------------------------------------------
// Small readings
// ---------------------------------------------------------------------------

/// The save's act: the second element of `act_previous`, on the save itself
/// or inside its slot.
pub open spec fn act_in(v: Option<Json>) -> int {
    match v {
        Some(Json::Array(xs)) => if xs@.len() > 1 {
            match int_reading(xs@[1]) {
                Some(n) => n,
                None => 0,
            }
        } else {
            0
        },
        _ => 0,
    }
}

pub open spec fn act_of(d: Json) -> int {
    let direct = act_in(field_raw(d, nv(ACT_FIELDS)));
    if direct > 0 {
        direct
    } else {
        match field_raw(d, nv(SLOT_FIELDS)) {
            Some(slot) => act_in(field_raw(slot, nv(ACT_FIELDS))),
            None => 0,
        }
    }
}

fn act_in_exec(v: Option<&Json>) -> (r: i64)
    ensures
        r == act_in(match v {
            Some(x) => Some(*x),
            None => None,
        }),
{
    match v {
        Some(Json::Array(xs)) => if xs.len() > 1 {
            match as_int(&xs[1]) {
                Some(n) => n,
                None => 0,
            }
        } else {
            0
        },
        _ => 0,
    }
}

pub fn save_act(d: &Json) -> (r: i64)
    ensures
        r == act_of(*d),
{
    let direct = act_in_exec(field_ref(d, &ACT_FIELDS));
    if direct > 0 {
        return direct;
    }
    match field_ref(d, &SLOT_FIELDS) {
        Some(slot) => act_in_exec(field_ref(slot, &ACT_FIELDS)),
        None => 0,
    }
}

/// The first run of digits in a text.
pub open spec fn digits_after(s: Seq<char>, i: int) -> Seq<char>
    decreases s.len() - i,
{
    if i < 0 || i >= s.len() || !is_digit(s[i]) {
        Seq::empty()
    } else {
        seq![s[i]] + digits_after(s, i + 1)
    }
}

pub open spec fn first_digits_from(s: Seq<char>, i: int) -> Seq<char>
    decreases s.len() - i,
{
    if i < 0 || i >= s.len() {
        Seq::empty()
    } else if is_digit(s[i]) {
        digits_after(s, i)
    } else {
        first_digits_from(s, i + 1)
    }
}

/// Experience gained: the first number in the message, else the `xp` field.
pub open spec fn xp_gain_of(d: Json) -> int {
    match parse_int_in(first_digits_from(message_of(d), 0), true, i64::MIN as int, i64::MAX as int) {
        Some(n) => n,
        None => int_of(d, nv(XP_GAIN_FIELDS)),
    }
}

fn digits_from(v: &Vec<char>, i: usize) -> (r: Vec<char>)
    requires
        i <= v@.len(),
    ensures
        r@ == digits_after(v@, i as int),
    decreases v@.len() - i,
{
    if i >= v.len() || !(v[i] >= '0' && v[i] <= '9') {
        return Vec::new();
    }
    let rest = digits_from(v, i + 1);
    let mut r: Vec<char> = Vec::new();
    r.push(v[i]);
    let mut k: usize = 0;
    while k < rest.len()
        invariant
            k <= rest@.len(),
            r@ == seq![v@[i as int]] + rest@.take(k as int),
        decreases rest@.len() - k,
    {
        r.push(rest[k]);
        k = k + 1;
        assert(r@ =~= seq![v@[i as int]] + rest@.take(k as int));
    }
    assert(rest@.take(rest@.len() as int) == rest@);
    r
}

pub fn xp_gain(d: &Json) -> (r: i64)
    ensures
        r == xp_gain_of(*d),
{
    let msg = msg_text(d);
    let v = chars_of(msg.as_str());
    let mut i: usize = 0;
    while i < v.len() && !(v[i] >= '0' && v[i] <= '9')
        invariant
            i <= v@.len(),
            first_digits_from(v@, 0) == first_digits_from(v@, i as int),
        decreases v@.len() - i,
    {
        i = i + 1;
    }
    let digits = digits_from(&v, i);
    assert(digits@ == first_digits_from(v@, 0));
    match parse_i64(digits.as_slice()) {
        Some(n) => n,
        None => int_field(d, &XP_GAIN_FIELDS),
    }
}

/// The counters a save carries beside experience and kills, under their
/// flattened names: every `statistic…` field that reads as a number, a later
/// spelling of one name replacing an earlier one.
pub open spec fn tally_map(ms: Seq<(String, Json)>) -> Map<Seq<char>, i64>
    decreases ms.len(),
{
    if ms.len() == 0 {
        Map::empty()
    } else {
        let before = tally_map(ms.drop_last());
        let flat = norm(ms.last().0@);
        if flat.len() > 9 && flat.take(9) == "statistic"@ && int_reading(ms.last().1) is Some {
            before.insert(flat, int_reading(ms.last().1)->0 as i64)
        } else {
            before
        }
    }
}

pub open spec fn tallies_of(d: Json) -> Map<Seq<char>, i64> {
    match d {
        Json::Object(ms) => tally_map(ms@),
        _ => Map::empty(),
    }
}

pub fn save_tallies(d: &Json) -> (r: Vec<(String, i64)>)
    ensures
        keyed_map(r@) == tallies_of(*d),
{
    let mut out: Vec<(String, i64)> = Vec::new();
    let ms = match d {
        Json::Object(ms) => ms,
        _ => {
            assert(keyed_map(out@) =~= Map::empty());
            return out;
        },
    };
    let stat = ['s', 't', 'a', 't', 'i', 's', 't', 'i', 'c'];
    proof {
        reveal_strlit("statistic");
        assert(stat@ =~= "statistic"@);
    }
    let mut i: usize = 0;
    assert(keyed_map(out@) =~= tally_map(ms@.take(0)));
    while i < ms.len()
        invariant
            i <= ms@.len(),
            stat@ == "statistic"@,
            keyed_map(out@) == tally_map(ms@.take(i as int)),
        decreases ms@.len() - i,
    {
        proof {
            assert(ms@.take(i + 1).drop_last() == ms@.take(i as int));
            assert(ms@.take(i + 1).last() == ms@[i as int]);
        }
        let flat = crate::fields::norm_chars(ms[i].0.as_str());
        let mut qualifies = false;
        if flat.len() > 9 {
            let head = crate::text::starts_with(flat.as_slice(), stat.as_slice());
            proof {
                if head {
                    assert(flat@.subrange(0, 9) == flat@.take(9));
                }
            }
            qualifies = head;
        }
        if qualifies {
            match as_int(&ms[i].1) {
                Some(n) => {
                    let ghost before = out@;
                    let key = string_of(flat.as_slice());
                    put_key(&mut out, key.as_str(), n);
                    proof {
                        assert(keyed_map(out@) =~= keyed_map(before).insert(flat@, n));
                    }
                },
                None => {},
            }
        }
        i = i + 1;
    }
    assert(ms@.take(ms@.len() as int) == ms@);
    out
}

/// What a heartbeat's base64 blob holds, read as JSON.
pub open spec fn decoded_json(s: Seq<char>) -> Option<Json> {
    match base64_bytes(trimmed(s)) {
        Some(b) => parsed_bytes(b),
        None => None,
    }
}

pub fn b64_json(s: &str) -> (r: Option<Json>)
    ensures
        r == decoded_json(s@),
{
    let t = trim(s);
    match decode_base64(t.as_str()) {
        Some(b) => parse_bytes(b.as_slice()),
        None => None,
    }
}

// ---------------------------------------------------------------------------
// Mail
// ---------------------------------------------------------------------------

/// A character that does not continue a word.
pub open spec fn edge(c: Option<char>) -> bool {
    c is None || !alphanumeric(c->0)
}

pub open spec fn char_at(s: Seq<char>, i: int) -> Option<char> {
    if 0 <= i < s.len() {
        Some(s[i])
    } else {
        None
    }
}

/// "mail" standing as a word at `i`: "mailbox" and "mails" are still about
/// mail; "platemail" is not.
pub open spec fn mail_word_at(lower: Seq<char>, i: int) -> bool {
    &&& occurs_at(lower, "mail"@, i)
    &&& edge(char_at(lower, i - 1))
    &&& (edge(char_at(lower, i + 4)) || occurs_at(lower, "mailbox"@, i) || char_at(lower, i + 4) == Some('s'))
}

/// Whether a line is about mail, rather than merely containing the letters.
pub open spec fn says_mail(text: Seq<char>) -> bool {
    exists|i: int| mail_word_at(lowercase(text), i)
}

fn edge_at(v: &Vec<char>, i: usize, after: bool) -> (r: bool)
    requires
        after ==> i <= v@.len(),
    ensures
        after ==> r == edge(char_at(v@, i as int)),
        !after ==> r == edge(char_at(v@, i - 1)),
{
    if after {
        if i < v.len() {
            !is_alphanumeric(v[i])
        } else {
            true
        }
    } else {
        if i > 0 && i - 1 < v.len() {
            !is_alphanumeric(v[i - 1])
        } else {
            true
        }
    }
}

pub fn mail_said(text: &str) -> (r: bool)
    ensures
        r == says_mail(text@),
{
    let lower = to_lower(text);
    let v = chars_of(lower.as_str());
    let mail = chars_of("mail");
    let mailbox = chars_of("mailbox");
    proof {
        reveal_strlit("mail");
    }
    let mut i: usize = 0;
    while i < v.len()
        invariant
            i <= v@.len(),
            v@ == lowercase(text@),
            mail@ == "mail"@,
            mail@.len() == 4,
            mailbox@ == "mailbox"@,
            forall|j: int| 0 <= j < i ==> !mail_word_at(v@, j),
        decreases v@.len() - i,
    {
        if crate::text::matches_at(v.as_slice(), mail.as_slice(), i) {
            assert(i + 4 <= v@.len());
            let before = edge_at(&v, i, false);
            let after = edge_at(&v, i + 4, true);
            let boxed = crate::text::matches_at(v.as_slice(), mailbox.as_slice(), i);
            let plural = i + 4 < v.len() && v[i + 4] == 's';
            if before && (after || boxed || plural) {
                assert(mail_word_at(v@, i as int));
                return true;
            }
            assert(!mail_word_at(v@, i as int));
        }
        i = i + 1;
    }
    proof {
        assert forall|j: int| !mail_word_at(v@, j) by {
            if j >= v@.len() || j < 0 {
                assert(!occurs_at(v@, "mail"@, j));
            }
        }
    }
    false
}

/// What a mail answer's words say: nothing, a plain no, "no new mail" and
/// the like are no mail; a yes, or mail spoken of, is mail.
pub open spec fn mail_words(t: Seq<char>) -> bool {
    if t.len() == 0 || t == "0"@ || t == "false"@ || t == "none"@ || t == "no"@ || t == "clear"@ {
        false
    } else if contains_text(t, "no new mail"@) || contains_text(t, "no mail"@) || contains_text(t, "mailbox empty"@) {
        false
    } else {
        says_mail(t) || t == "1"@ || t == "true"@ || t == "yes"@
    }
}

/// Whether the server says there is mail.
pub open spec fn mail_present(d: Json) -> bool {
    match field_val(d, nv(MAIL_FIELDS)) {
        Some(Json::Bool(b)) => b,
        Some(Json::Number(n)) => n.exact matches Some(x) && x > 0,
        Some(Json::Str(s)) => mail_words(lowercase(trimmed(s@))),
        _ => mail_words(lowercase(trimmed(message_of(d)))),
    }
}

fn words_say_mail(text: &str) -> (r: bool)
    ensures
        r == mail_words(lowercase(trimmed(text@))),
{
    let t0 = trim(text);
    let t = to_lower(t0.as_str());
    let ts = t.as_str();
    if ts.is_empty() || crate::text::same_text(ts, "0") || crate::text::same_text(ts, "false")
        || crate::text::same_text(ts, "none") || crate::text::same_text(ts, "no") || crate::text::same_text(ts, "clear") {
        return false;
    }
    let v = chars_of(ts);
    let a = chars_of("no new mail");
    let b = chars_of("no mail");
    let c = chars_of("mailbox empty");
    if crate::text::contains(v.as_slice(), a.as_slice()) || crate::text::contains(v.as_slice(), b.as_slice())
        || crate::text::contains(v.as_slice(), c.as_slice()) {
        return false;
    }
    mail_said(ts) || crate::text::same_text(ts, "1") || crate::text::same_text(ts, "true") || crate::text::same_text(ts, "yes")
}

pub fn mail_is_present(d: &Json) -> (r: bool)
    ensures
        r == mail_present(*d),
{
    match field(d, &MAIL_FIELDS) {
        Some(f) => match f.get() {
            Json::Bool(b) => *b,
            Json::Number(n) => match n.exact {
                Some(x) => x > 0,
                None => false,
            },
            Json::Str(s) => words_say_mail(s.as_str()),
            _ => {
                let m = msg_text(d);
                words_say_mail(m.as_str())
            },
        },
        None => {
            let m = msg_text(d);
            words_say_mail(m.as_str())
        },
    }
}

/// Whether this packet is somebody talking: it says where and in what colour.
pub open spec fn is_chat(d: Json) -> bool {
    field_raw(d, nv(CHAT_ROOM_FIELDS)) is Some && field_raw(d, nv(CHAT_COLOR_FIELDS)) is Some
}

// ---------------------------------------------------------------------------
// The satanic zone
// ---------------------------------------------------------------------------

/// One buff or debuff id, where it is one: a number, or text spelling one,
/// that fits a byte.
pub open spec fn effect_id(b: Json) -> Option<u8> {
    let n: Option<int> = match b {
        Json::Number(x) => match x.exact {
            Some(v) => Some(v as int),
            None => None,
        },
        Json::Str(s) => parse_int_in(trimmed(s@), true, i64::MIN as int, i64::MAX as int),
        _ => None,
    };
    match n {
        Some(x) => if 0 <= x <= 255 {
            Some(x as u8)
        } else {
            None
        },
        None => None,
    }
}

pub open spec fn ids_in(items: Seq<Json>) -> Seq<u8>
    decreases items.len(),
{
    if items.len() == 0 {
        Seq::empty()
    } else {
        ids_in(items.drop_last()) + match effect_id(items.last()) {
            Some(b) => seq![b],
            None => Seq::empty(),
        }
    }
}

/// A piece of a `|`- or `,`-separated list, as an id.
pub open spec fn piece_id(p: Seq<char>) -> Seq<u8> {
    match parse_int_in(trimmed(p), false, 0, 255) {
        Some(x) => seq![x as u8],
        None => Seq::empty(),
    }
}

/// The ids the finished pieces of a separated list hold, and the piece
/// still open.
pub open spec fn split_ids(s: Seq<char>) -> (Seq<u8>, Seq<char>)
    decreases s.len(),
{
    if s.len() == 0 {
        (Seq::empty(), Seq::empty())
    } else {
        let (done, cur) = split_ids(s.drop_last());
        if s.last() == ',' || s.last() == '|' {
            (done + piece_id(cur), Seq::empty())
        } else {
            (done, cur.push(s.last()))
        }
    }
}

pub open spec fn ids_from_text(s: Seq<char>) -> Seq<u8> {
    split_ids(s).0 + piece_id(split_ids(s).1)
}

/// The ids a buff or debuff field lists: an array of them, or text.
pub open spec fn effect_ids_of(raw: Option<Json>) -> Seq<u8> {
    match raw {
        Some(Json::Array(items)) => ids_in(items@),
        Some(Json::Str(s)) => ids_from_text(s@),
        _ => Seq::empty(),
    }
}

fn one_id(b: &Json) -> (r: Option<u8>)
    ensures
        r == effect_id(*b),
{
    let n: Option<i64> = match b {
        Json::Number(x) => x.exact,
        Json::Str(s) => {
            let t = trim(s.as_str());
            let v = chars_of(t.as_str());
            parse_i64(v.as_slice())
        },
        _ => None,
    };
    match n {
        Some(x) => if 0 <= x && x <= 255 {
            Some(x as u8)
        } else {
            None
        },
        None => None,
    }
}

fn id_of_piece(p: &Vec<char>) -> (r: Option<u8>)
    ensures
        match r {
            Some(x) => piece_id(p@) == seq![x],
            None => piece_id(p@) == Seq::<u8>::empty(),
        },
{
    let (a, b) = trim_bounds(p.as_slice());
    let mut t: Vec<char> = Vec::new();
    let mut k: usize = a;
    while k < b
        invariant
            a <= k <= b <= p@.len(),
            t@ == p@.subrange(a as int, k as int),
        decreases b - k,
    {
        t.push(p[k]);
        k = k + 1;
    }
    assert(t@ == trimmed(p@));
    parse_u8(t.as_slice())
}

pub fn effect_ids(raw: Option<&Json>) -> (r: Vec<u8>)
    ensures
        r@ == effect_ids_of(match raw {
            Some(x) => Some(*x),
            None => None,
        }),
{
    let mut out: Vec<u8> = Vec::new();
    match raw {
        Some(Json::Array(items)) => {
            let mut i: usize = 0;
            while i < items.len()
                invariant
                    i <= items@.len(),
                    out@ == ids_in(items@.take(i as int)),
                decreases items@.len() - i,
            {
                proof {
                    assert(items@.take(i + 1).drop_last() == items@.take(i as int));
                }
                match one_id(&items[i]) {
                    Some(b) => out.push(b),
                    None => {},
                }
                i = i + 1;
            }
            assert(items@.take(items@.len() as int) == items@);
        },
        Some(Json::Str(s)) => {
            let v = chars_of(s.as_str());
            let mut cur: Vec<char> = Vec::new();
            let mut i: usize = 0;
            while i < v.len()
                invariant
                    i <= v@.len(),
                    (out@, cur@) == split_ids(v@.take(i as int)),
                decreases v@.len() - i,
            {
                proof {
                    assert(v@.take(i + 1).drop_last() == v@.take(i as int));
                }
                let c = v[i];
                if c == ',' || c == '|' {
                    match id_of_piece(&cur) {
                        Some(b) => out.push(b),
                        None => {},
                    }
                    cur = Vec::new();
                } else {
                    cur.push(c);
                }
                i = i + 1;
            }
            assert(v@.take(v@.len() as int) == v@);
            match id_of_piece(&cur) {
                Some(b) => out.push(b),
                None => {},
            }
        },
        _ => {},
    }
    out
}

/// The zone the server names, and what it carries.
pub open spec fn zone_event(d: Json) -> EventView {
    EventView::SatanicZone {
        zone: match field_val(d, nv(SATANIC_ZONE_FIELDS)) {
            Some(v) => json_text(v),
            None => Seq::empty(),
        },
        buffs: effect_ids_of(field_val(d, nv(BUFF_FIELDS))),
        debuffs: effect_ids_of(field_val(d, nv(DEBUFF_FIELDS))),
    }
}

pub fn satanic_event(d: &Json) -> (r: GameEvent)
    ensures
        event_view(r) == zone_event(*d),
{
    let zone = match field(d, &SATANIC_ZONE_FIELDS) {
        Some(f) => text_of(f.get()),
        None => String::new(),
    };
    let buffs = match field(d, &BUFF_FIELDS) {
        Some(f) => effect_ids(Some(f.get())),
        None => effect_ids(None),
    };
    let debuffs = match field(d, &DEBUFF_FIELDS) {
        Some(f) => effect_ids(Some(f.get())),
        None => effect_ids(None),
    };
    GameEvent::SatanicZone { zone, buffs, debuffs }
}

/// Of the members a packet has, how many are not the capture's own `_src`.
pub open spec fn own_members(ms: Seq<(String, Json)>) -> nat
    decreases ms.len(),
{
    if ms.len() == 0 {
        0
    } else {
        own_members(ms.drop_last()) + if ms.last().0@ == "_src"@ {
            0nat
        } else {
            1
        }
    }
}

/// The client asking where the zone is, for a region: two fields and nothing
/// else, one of them the account.
pub open spec fn zone_question(d: Json) -> Option<Seq<char>> {
    match d {
        Json::Object(ms) => if own_members(ms@) == 2 && field_raw(d, nv(ACCOUNT_ID_FIELDS)) is Some {
            id_text(field_val(d, nv(REGION_ID_FIELDS)))
        } else {
            None
        },
        _ => None,
    }
}

pub fn zone_request_region(d: &Json) -> (r: Option<String>)
    ensures
        match r {
            Some(s) => zone_question(*d) == Some(s@),
            None => zone_question(*d) is None,
        },
{
    let ms = match d {
        Json::Object(ms) => ms,
        _ => return None,
    };
    let mut n: usize = 0;
    let mut i: usize = 0;
    while i < ms.len()
        invariant
            i <= ms@.len(),
            n == own_members(ms@.take(i as int)),
            n <= i,
        decreases ms@.len() - i,
    {
        proof {
            assert(ms@.take(i + 1).drop_last() == ms@.take(i as int));
        }
        if !crate::text::same_text(ms[i].0.as_str(), "_src") {
            n = n + 1;
        }
        i = i + 1;
    }
    assert(ms@.take(ms@.len() as int) == ms@);
    if n != 2 || !has_field(d, &ACCOUNT_ID_FIELDS) {
        return None;
    }
    id_text_of(field(d, &REGION_ID_FIELDS))
}

/// Who we are, out of the client's own requests.
pub open spec fn account_said(d: Json) -> Option<Seq<char>> {
    id_text(field_val(d, nv(ACCOUNT_ID_FIELDS)))
}

pub fn our_account(d: &Json) -> (r: Option<String>)
    ensures
        match r {
            Some(s) => account_said(*d) == Some(s@),
            None => account_said(*d) is None,
        },
{
    id_text_of(field(d, &ACCOUNT_ID_FIELDS))
}

// ---------------------------------------------------------------------------
// Putting events in order
// ---------------------------------------------------------------------------

pub fn push_event(out: &mut Vec<GameEvent>, e: GameEvent)
    ensures
        events_view(final(out)@) == events_view(old(out)@).push(event_view(e)),
{
    let ghost before = out@;
    out.push(e);
    assert(events_view(out@) =~= events_view(before).push(event_view(e)));
}

// ---------------------------------------------------------------------------
// Gold
// ---------------------------------------------------------------------------

pub const GSS_NAMES: [&'static str; 2] = ["GSS", "gss"];
pub const GSH_NAMES: [&'static str; 2] = ["GSH", "gsh"];
pub const GNS_NAMES: [&'static str; 2] = ["GNS", "gns"];
pub const GNH_NAMES: [&'static str; 2] = ["GNH", "gnh"];
pub const GBP_NAMES: [&'static str; 2] = ["GBP", "gbp"];
pub const TOTAL_GSS: [&'static str; 1] = ["GSS"];
pub const TOTAL_GSH: [&'static str; 1] = ["GSH"];
pub const TOTAL_GNS: [&'static str; 1] = ["GNS"];
pub const TOTAL_GNH: [&'static str; 1] = ["GNH"];
pub const TOTAL_GBP: [&'static str; 1] = ["GBP"];

/// Whether a packet carries a purse's balance bare.
pub open spec fn has_totals(d: Json) -> bool {
    ||| field_raw(d, nv(TOTAL_GSS)) is Some
    ||| field_raw(d, nv(TOTAL_GSH)) is Some
    ||| field_raw(d, nv(TOTAL_GNS)) is Some
    ||| field_raw(d, nv(TOTAL_GNH)) is Some
    ||| field_raw(d, nv(TOTAL_GBP)) is Some
}

/// The purses a packet reports, wrapped or bare, and what it says was just
/// banked; none where it says nothing of gold.
pub open spec fn gold_event(d: Json) -> Option<Currency> {
    let wrapped = field_val(d, nv(GOLD_FIELDS));
    let delta = int_of(d, nv(GOLD_DELTA_FIELDS));
    if wrapped is Some || has_totals(d) || delta > 0 {
        let c = match wrapped {
            Some(w) => w,
            None => d,
        };
        Some(
            Currency {
                gss: int_of(c, nv(GSS_NAMES)) as i64,
                gsh: int_of(c, nv(GSH_NAMES)) as i64,
                gns: int_of(c, nv(GNS_NAMES)) as i64,
                gnh: int_of(c, nv(GNH_NAMES)) as i64,
                gbp: int_of(c, nv(GBP_NAMES)) as i64,
                delta: if delta > 0 {
                    delta as i64
                } else {
                    0
                },
            },
        )
    } else {
        None
    }
}

fn purses(c: &Json, delta: i64) -> (r: Currency)
    ensures
        r == (Currency {
            gss: int_of(*c, nv(GSS_NAMES)) as i64,
            gsh: int_of(*c, nv(GSH_NAMES)) as i64,
            gns: int_of(*c, nv(GNS_NAMES)) as i64,
            gnh: int_of(*c, nv(GNH_NAMES)) as i64,
            gbp: int_of(*c, nv(GBP_NAMES)) as i64,
            delta: if delta > 0 {
                delta
            } else {
                0
            },
        }),
{
    Currency {
        gss: int_field(c, &GSS_NAMES),
        gsh: int_field(c, &GSH_NAMES),
        gns: int_field(c, &GNS_NAMES),
        gnh: int_field(c, &GNH_NAMES),
        gbp: int_field(c, &GBP_NAMES),
        delta: if delta > 0 {
            delta
        } else {
            0
        },
    }
}

pub fn gold_in(d: &Json) -> (r: Option<Currency>)
    ensures
        r == gold_event(*d),
{
    let wrapped = field(d, &GOLD_FIELDS);
    let delta = int_field(d, &GOLD_DELTA_FIELDS);
    let totals = has_field(d, &TOTAL_GSS) || has_field(d, &TOTAL_GSH) || has_field(d, &TOTAL_GNS) || has_field(
        d,
        &TOTAL_GNH,
    ) || has_field(d, &TOTAL_GBP);
    if wrapped.is_some() || totals || delta > 0 {
        match &wrapped {
            Some(f) => Some(purses(f.get(), delta)),
            None => Some(purses(d, delta)),
        }
    } else {
        None
    }
}

// ---------------------------------------------------------------------------
// The heartbeat
// ---------------------------------------------------------------------------

pub const ROOM_NAME: [&'static str; 1] = ["room"];
pub const MF_NAME: [&'static str; 1] = ["mf"];
pub const LEVEL_NAME: [&'static str; 1] = ["level"];
pub const HLEVEL_NAMES: [&'static str; 3] = ["hlevel", "heroLevel", "herolevel"];
pub const SZ_NAME: [&'static str; 1] = ["sz"];

/// The room a heartbeat names, where it names one.
pub open spec fn room_part(state: Json) -> Seq<EventView> {
    match field_raw(state, nv(ROOM_NAME)) {
        Some(Json::Str(r)) => if r@.len() > 0 {
            seq![EventView::Room(r@)]
        } else {
            Seq::empty()
        },
        _ => Seq::empty(),
    }
}

/// What a heartbeat says of the character, where it says anything: a number
/// it does not carry is none, not zero.
pub open spec fn vitals_part(state: Json) -> Seq<EventView> {
    let mf: Option<i64> = if field_raw(state, nv(MF_NAME)) is Some {
        Some(int_of(state, nv(MF_NAME)) as i64)
    } else {
        None
    };
    let level = int_of(state, nv(LEVEL_NAME));
    let hlevel = int_of(state, nv(HLEVEL_NAMES));
    if mf is Some || level > 0 || hlevel > 0 {
        seq![
            EventView::Vitals {
                mf,
                level: level as i64,
                hlevel: hlevel as i64,
                satanic_here: if field_raw(state, nv(SZ_NAME)) is Some {
                    Some(flag_reading(field_raw(state, nv(SZ_NAME))))
                } else {
                    None
                },
            },
        ]
    } else {
        Seq::empty()
    }
}

/// The client's heartbeat: a base64 blob of JSON that says where the
/// character is and how it stands.
pub open spec fn heartbeat_part(d: Json) -> Seq<EventView> {
    match field_val(d, nv(GAME_STATE_FIELDS)) {
        Some(Json::Str(blob)) => match decoded_json(blob@) {
            Some(state) => room_part(state) + vitals_part(state),
            None => Seq::empty(),
        },
        _ => Seq::empty(),
    }
}

fn heartbeat(d: &Json, out: &mut Vec<GameEvent>)
    ensures
        events_view(final(out)@) == events_view(old(out)@) + heartbeat_part(*d),
{
    let ghost before = events_view(out@);
    let blob = match field(d, &GAME_STATE_FIELDS) {
        Some(f) => match f.get() {
            Json::Str(b) => copy_str(b.as_str()),
            _ => {
                assert(events_view(out@) =~= before + heartbeat_part(*d));
                return;
            },
        },
        None => {
            assert(events_view(out@) =~= before + heartbeat_part(*d));
            return;
        },
    };
    let state = match b64_json(blob.as_str()) {
        Some(s) => s,
        None => {
            assert(events_view(out@) =~= before + heartbeat_part(*d));
            return;
        },
    };
    match field_ref(&state, &ROOM_NAME) {
        Some(Json::Str(r)) => if !r.as_str().is_empty() {
            push_event(out, GameEvent::Room(copy_str(r.as_str())));
        },
        _ => {},
    }
    assert(events_view(out@) =~= before + room_part(state));
    let mf = if has_field(&state, &MF_NAME) {
        Some(int_field(&state, &MF_NAME))
    } else {
        None
    };
    let level = int_field(&state, &LEVEL_NAME);
    let hlevel = int_field(&state, &HLEVEL_NAMES);
    if mf.is_some() || level > 0 || hlevel > 0 {
        let satanic_here = if has_field(&state, &SZ_NAME) {
            Some(as_bool(field_ref(&state, &SZ_NAME)))
        } else {
            None
        };
        push_event(out, GameEvent::Vitals { mf, level, hlevel, satanic_here });
    }
    assert(events_view(out@) =~= before + heartbeat_part(*d));
}

// ---------------------------------------------------------------------------
// The character save
// ---------------------------------------------------------------------------

pub const EXPERIENCE_NAME: [&'static str; 1] = ["experience"];
pub const NAME_NAME: [&'static str; 1] = ["name"];
pub const SEASON_NAME: [&'static str; 1] = ["season"];
pub const HARDCORE_NAME: [&'static str; 1] = ["hardcore"];
pub const DIFFICULTY_NAME: [&'static str; 1] = ["difficulty"];
pub const STATUS_NAME: [&'static str; 1] = ["status"];

/// A save: experience, and something only a character carries.
pub open spec fn full_account(d: Json) -> bool {
    field_raw(d, nv(EXPERIENCE_NAME)) is Some && field_raw(d, nv(ACCOUNT_SIGNATURE_FIELDS)) is Some
}

/// The login identity: no experience, but a name, an account and a region,
/// and none of what a list of nearby players carries.
pub open spec fn identity_account(d: Json) -> bool {
    &&& !full_account(d)
    &&& field_raw(d, nv(NAME_NAME)) is Some
    &&& field_raw(d, nv(UID_FIELDS)) is Some
    &&& field_raw(d, nv(CROSS_REGION_FIELDS)) is Some
    &&& field_raw(d, nv(NEARBY_FIELDS)) is None
}

pub open spec fn name_in(d: Json) -> Seq<char> {
    match field_val(d, nv(NAME_NAME)) {
        Some(Json::Str(s)) => s@,
        _ => Seq::empty(),
    }
}

/// The save, as an event.
pub open spec fn account_event(d: Json) -> EventView {
    EventView::Account {
        experience: int_of(d, nv(EXPERIENCE_NAME)) as i64,
        has_experience: field_raw(d, nv(EXPERIENCE_NAME)) is Some,
        season: int_of(d, nv(SEASON_NAME)) as i64,
        hardcore: int_of(d, nv(HARDCORE_NAME)) as i64,
        blood_pact: int_of(d, nv(BLOOD_PACT_FIELDS)) as i64,
        name: name_in(d),
        level: int_of(d, nv(LEVEL_NAME)) as i64,
        herolevel: int_of(d, nv(HERO_LEVEL_FIELDS)) as i64,
        difficulty: int_of(d, nv(DIFFICULTY_NAME)) as i64,
        hell_sub: int_of(d, nv(HELL_FIELDS)) as i64,
        act: act_of(d) as i64,
        kills: int_of(d, nv(KILL_FIELDS)) as i64,
        tallies: tallies_of(d),
    }
}

/// A save or a login identity; else a share of experience, where the packet
/// is shaped like one of the game's answers and the only experience it
/// carries is the share.
pub open spec fn account_part(d: Json) -> Seq<EventView> {
    let full = full_account(d);
    let identity = identity_account(d);
    if (full || identity) && field_raw(d, nv(SEASON_NAME)) is Some && field_raw(d, nv(HARDCORE_NAME)) is Some {
        seq![account_event(d)]
    } else if !full && !identity && (field_raw(d, nv(STATUS_NAME)) is Some || message_of(d).len() > 0)
        && field_raw(d, nv(XP_GAIN_FIELDS)) is Some && field_raw(d, nv(XP_TOTAL_FIELDS)) is None {
        seq![
            EventView::XpGain(
                if field_raw(d, nv(QUEST_FIELDS)) is Some {
                    xp_gain_of(d) as i64
                } else {
                    character_share(xp_gain_of(d)) as i64
                },
            ),
        ]
    } else {
        Seq::empty()
    }
}

fn account_in(d: &Json, out: &mut Vec<GameEvent>)
    ensures
        events_view(final(out)@) == events_view(old(out)@) + account_part(*d),
{
    let ghost before = events_view(out@);
    let full = has_field(d, &EXPERIENCE_NAME) && has_field(d, &ACCOUNT_SIGNATURE_FIELDS);
    let identity = !full && has_field(d, &NAME_NAME) && has_field(d, &UID_FIELDS) && has_field(d, &CROSS_REGION_FIELDS)
        && !has_field(d, &NEARBY_FIELDS);
    if (full || identity) && has_field(d, &SEASON_NAME) && has_field(d, &HARDCORE_NAME) {
        let name = match field(d, &NAME_NAME) {
            Some(f) => match f.get() {
                Json::Str(s) => copy_str(s.as_str()),
                _ => String::new(),
            },
            None => String::new(),
        };
        let e = GameEvent::Account {
            experience: int_field(d, &EXPERIENCE_NAME),
            has_experience: has_field(d, &EXPERIENCE_NAME),
            season: int_field(d, &SEASON_NAME),
            hardcore: int_field(d, &HARDCORE_NAME),
            blood_pact: int_field(d, &BLOOD_PACT_FIELDS),
            name,
            level: int_field(d, &LEVEL_NAME),
            herolevel: int_field(d, &HERO_LEVEL_FIELDS),
            difficulty: int_field(d, &DIFFICULTY_NAME),
            hell_sub: int_field(d, &HELL_FIELDS),
            act: save_act(d),
            kills: int_field(d, &KILL_FIELDS),
            tallies: save_tallies(d),
        };
        push_event(out, e);
    } else if !full && !identity && (has_field(d, &STATUS_NAME) || !msg_text(d).as_str().is_empty()) && has_field(
        d,
        &XP_GAIN_FIELDS,
    ) && !has_field(d, &XP_TOTAL_FIELDS) {
        let raw = xp_gain(d);
        let n = if has_field(d, &QUEST_FIELDS) {
            raw
        } else {
            guild_share_to_character(raw)
        };
        push_event(out, GameEvent::XpGain(n));
    }
    assert(events_view(out@) =~= before + account_part(*d));
}

// ---------------------------------------------------------------------------
// One item
// ---------------------------------------------------------------------------

pub const B_NAME: [&'static str; 1] = ["b"];
pub const C_NAME: [&'static str; 1] = ["c"];
pub const H_NAME: [&'static str; 1] = ["h"];
pub const J_NAME: [&'static str; 1] = ["j"];
pub const SH_NAME: [&'static str; 1] = ["sh"];
pub const GD_NAME: [&'static str; 1] = ["gd"];
pub const GID_NAME: [&'static str; 1] = ["gid"];
pub const TYPE_FIELDS: [&'static str; 3] = ["type", "itemType", "item_type"];
pub const ID_FIELDS: [&'static str; 3] = ["id", "itemId", "item_id"];
pub const WEAPON_TYPE_FIELDS: [&'static str; 2] = ["weapon_type", "weaponType"];
pub const ITEM_NAME_FIELDS: [&'static str; 4] = ["name", "itemName", "item_name", "label"];
pub const ITEM_RARITY_FIELDS: [&'static str; 4] = ["rarity", "itemRarity", "item_rarity", "d"];
pub const TIER_FIELDS: [&'static str; 2] = ["tier", "n"];
pub const MF_DROP_FIELDS: [&'static str; 3] = ["mf_drop", "mfDrop", "m"];
pub const SEED_FIELDS: [&'static str; 2] = ["seed", "a"];
pub const AMOUNT_FIELDS: [&'static str; 2] = ["amount", "o"];

/// The item type a fingerprint ends with.
pub open spec fn fp_type(fp: Option<Seq<char>>) -> Option<int> {
    match fp {
        Some(f) => parse_int_in(last_field(f), true, i64::MIN as int, i64::MAX as int),
        None => None,
    }
}

/// Keys, collectibles, materials, socketables and vaults: the types whose id
/// is their identity.
pub open spec fn self_numbered(t: int) -> bool {
    12 <= t <= 15 || t == 19
}

/// The English name the tables give an identity, or nothing.
pub open spec fn table_name(c: Catalog, t: int, i: int, w: int) -> Seq<char> {
    match by_identity(c.items@, t as i64, i as i64, w as i64) {
        Some(k) => c.items@[k].name@,
        None => Seq::empty(),
    }
}

/// The rarity the packet's field claims, where it has one.
pub open spec fn claimed_rarity(obj: Json) -> Option<Seq<char>> {
    match field_val(obj, nv(ITEM_RARITY_FIELDS)) {
        Some(v) => packet_rarity(v),
        None => None,
    }
}

pub open spec fn journal_claim(r: Option<Seq<char>>) -> bool {
    r matches Some(x) && journal_rarity(x)
}

/// Whether an item's claimed rarity is refused: Odyssey claims none, and an
/// ordinary base cannot carry a rarity worth naming.
pub open spec fn rarity_refused(obj: Json) -> bool {
    let odyssey = field_raw(obj, nv(H_NAME)) is Some;
    let plain_base = field_raw(obj, nv(C_NAME)) is Some && int_of(obj, nv(C_NAME)) == 0;
    odyssey || (plain_base && journal_claim(claimed_rarity(obj)))
}

/// The rarity an item event carries: null where the claim is refused, else
/// the claimed field as it stands, and 0 where the item claims none.
pub open spec fn raw_rarity(obj: Json) -> JsonView {
    if rarity_refused(obj) {
        JsonView::Null
    } else {
        match field_val(obj, nv(ITEM_RARITY_FIELDS)) {
            Some(v) => json_view(v),
            None => JsonView::Number(Some(0), "0"@),
        }
    }
}

/// One item out of a packet. Odyssey (an `h` on the item) numbers its own
/// rarities, and claims none here; an ordinary base (`c == 0`) cannot carry a
/// rarity worth naming, nor a nameless item the top grade; a grade is one of
/// 1..6 or none. The tables are asked for a name only where the game flags the
/// item as named, its rarity is one worth naming, or its id is its identity.
pub open spec fn item_view(c: Catalog, obj: Json, fp: Option<Seq<char>>, ground: bool) -> EventView {
    let fpt = fp_type(fp);
    let short_id = int_of(obj, nv(B_NAME));
    let explicit_type = int_of(obj, nv(TYPE_FIELDS));
    let item_type = if explicit_type != 0 {
        explicit_type
    } else {
        match fpt {
            Some(t) => t,
            None => short_id,
        }
    };
    let explicit_id = int_of(obj, nv(ID_FIELDS));
    let item_id = if explicit_id != 0 {
        explicit_id
    } else if fpt is Some {
        short_id
    } else {
        int_of(obj, nv(GID_NAME))
    };
    let wt = int_of(obj, nv(WEAPON_TYPE_FIELDS));
    let weapon_type = if wt != 0 {
        wt
    } else if item_type == 3 {
        int_of(obj, nv(J_NAME))
    } else {
        0
    };
    let explicit_name = match field_val(obj, nv(ITEM_NAME_FIELDS)) {
        Some(Json::Str(s)) => trimmed(s@),
        _ => Seq::empty(),
    };
    let odyssey = field_raw(obj, nv(H_NAME)) is Some;
    let plain_base = field_raw(obj, nv(C_NAME)) is Some && int_of(obj, nv(C_NAME)) == 0;
    let rarity = if odyssey || (plain_base && journal_claim(claimed_rarity(obj))) {
        None
    } else {
        claimed_rarity(obj)
    };
    let named_flag = int_of(obj, nv(C_NAME)) == 1;
    let claimed_tier = int_of(obj, nv(TIER_FIELDS));
    let tier = if odyssey || (!named_flag && claimed_tier >= 6) || !(1 <= claimed_tier <= 6) {
        0
    } else {
        claimed_tier
    };
    let name = if explicit_name.len() > 0 {
        explicit_name
    } else if named_flag || journal_claim(rarity) || self_numbered(item_type) || entry_codex(
        item_type as i64,
        item_id as i64,
        Seq::empty(),
    ) {
        table_name(c, item_type, item_id, weapon_type)
    } else {
        Seq::empty()
    };
    let amount = int_of(obj, nv(AMOUNT_FIELDS));
    EventView::ItemAdded {
        rarity,
        unscaled: odyssey && !named_flag,
        mf: int_of(obj, nv(MF_DROP_FIELDS)) == 1,
        tier: tier as i64,
        item_type: item_type as i64,
        item_id: item_id as i64,
        weapon_type: weapon_type as i64,
        seed: int_of(obj, nv(SEED_FIELDS)) as i64,
        name,
        announced: false,
        amount: if amount > 1 {
            amount as i64
        } else {
            1
        },
        fingerprint: match fp {
            Some(f) => f,
            None => Seq::empty(),
        },
        hash: match field_val(obj, nv(SH_NAME)) {
            Some(Json::Str(h)) => h@,
            _ => Seq::empty(),
        },
        ground,
    }
}

/// A copy of a rarity field, which holds and claims what the field does.
fn rarity_copy(v: &Json) -> (r: Json)
    ensures
        packet_rarity(r) == packet_rarity(*v),
        json_view(r) == json_view(*v),
{
    let r = json_copy(v);
    proof {
        match v {
            Json::Null => assert(r is Null),
            Json::Bool(_) => assert(r is Bool),
            Json::Number(n) => {
                assert(r is Number);
                assert(r->Number_0.exact == n.exact && r->Number_0.text@ == n.text@);
            },
            Json::Str(x) => {
                assert(r is Str);
                assert(r->Str_0@ == x@);
            },
            Json::Array(_) => assert(r is Array),
            Json::Object(_) => assert(r is Object),
        }
    }
    r
}

pub open spec fn fp_view(fp: Option<&str>) -> Option<Seq<char>> {
    match fp {
        Some(f) => Some(f@),
        None => None,
    }
}

fn journal_opt(r: &Option<String>) -> (b: bool)
    ensures
        b == journal_claim(match r {
            Some(x) => Some(x@),
            None => None,
        }),
{
    match r {
        Some(x) => is_journal_rarity(x.as_str()),
        None => false,
    }
}

#[verifier::rlimit(40)]
pub fn item_event(c: &Catalog, obj: &Json, fp: Option<&str>, ground: bool) -> (r: GameEvent)
    ensures
        event_view(r) == item_view(*c, *obj, fp_view(fp), ground),
        r matches GameEvent::ItemAdded { rarity, .. } && json_view(rarity) == raw_rarity(*obj),
{
    let fpt = fingerprint_type(fp);
    let short_id = int_field(obj, &B_NAME);
    let explicit_type = int_field(obj, &TYPE_FIELDS);
    let item_type = if explicit_type != 0 {
        explicit_type
    } else {
        match fpt {
            Some(t) => t,
            None => short_id,
        }
    };
    let explicit_id = int_field(obj, &ID_FIELDS);
    let item_id = if explicit_id != 0 {
        explicit_id
    } else if fpt.is_some() {
        short_id
    } else {
        int_field(obj, &GID_NAME)
    };
    let wt = int_field(obj, &WEAPON_TYPE_FIELDS);
    let weapon_type = if wt != 0 {
        wt
    } else if item_type == 3 {
        int_field(obj, &J_NAME)
    } else {
        0
    };
    let explicit_name = match field(obj, &ITEM_NAME_FIELDS) {
        Some(f) => match f.get() {
            Json::Str(x) => trim(x.as_str()),
            _ => String::new(),
        },
        None => String::new(),
    };
    let odyssey = has_field(obj, &H_NAME);
    let claimed_f = field(obj, &ITEM_RARITY_FIELDS);
    let claim: Option<String> = match &claimed_f {
        Some(f) => rarity_from_packet(f.get()),
        None => None,
    };
    let plain_base = has_field(obj, &C_NAME) && int_field(obj, &C_NAME) == 0;
    let refused = odyssey || (plain_base && journal_opt(&claim));
    let rarity = if refused {
        Json::Null
    } else {
        match &claimed_f {
            Some(f) => rarity_copy(f.get()),
            None => Json::Number(JsonNumber { exact: Some(0), text: copy_str("0") }),
        }
    };
    let kept: Option<String> = if refused {
        None
    } else {
        claim
    };
    proof {
        if !refused && claimed_f is None {
            assert(packet_rarity(rarity) is None);
        }
    }
    let named_flag = int_field(obj, &C_NAME) == 1;
    let claimed_tier = int_field(obj, &TIER_FIELDS);
    let tier = if odyssey || (!named_flag && claimed_tier >= 6) || !(1 <= claimed_tier && claimed_tier <= 6) {
        0
    } else {
        claimed_tier
    };
    let name = if !explicit_name.as_str().is_empty() {
        explicit_name
    } else if named_flag || journal_opt(&kept) || (12 <= item_type && item_type <= 15) || item_type == 19
        || is_entry_codex(item_type, item_id, "") {
        match c.item_name(item_type, item_id, weapon_type) {
            Some(n) => n,
            None => String::new(),
        }
    } else {
        String::new()
    };
    let amount = int_field(obj, &AMOUNT_FIELDS);
    let fingerprint = match fp {
        Some(f) => copy_str(f),
        None => String::new(),
    };
    let hash = match field(obj, &SH_NAME) {
        Some(f) => match f.get() {
            Json::Str(h) => copy_str(h.as_str()),
            _ => String::new(),
        },
        None => String::new(),
    };
    proof {
        reveal_strlit("");
    }
    GameEvent::ItemAdded {
        rarity,
        unscaled: odyssey && !named_flag,
        mf: int_field(obj, &MF_DROP_FIELDS) == 1,
        tier,
        item_type,
        item_id,
        weapon_type,
        seed: int_field(obj, &SEED_FIELDS),
        name,
        announced: false,
        amount: if amount > 1 {
            amount
        } else {
            1
        },
        fingerprint,
        hash,
        ground,
    }
}

// ---------------------------------------------------------------------------
// Where items arrive in a message
// ---------------------------------------------------------------------------

pub const MARKET_FIELDS: [&'static str; 7] = [
    "marketId",
    "market_id",
    "market_tokens",
    "marketTokens",
    "seller_name",
    "sellerName",
    "price",
];
pub const OWN_FP_FIELDS: [&'static str; 3] = ["addedItemFingerprint", "added_item_fingerprint", "fingerprint"];
pub const OPERATIONS_NAME: [&'static str; 1] = ["operations"];
pub const SPLIT_NAME: [&'static str; 1] = ["split"];
pub const ADD_NAME: [&'static str; 1] = ["add"];
pub const STACK_NAME: [&'static str; 1] = ["stack"];
pub const REMOVE_NAME: [&'static str; 1] = ["remove"];
pub const ITEMS_ADDED_FIELDS: [&'static str; 2] = ["itemsAdded", "items_added"];
pub const ITEM_DATA_FIELDS: [&'static str; 2] = ["itemData", "item_data"];
pub const PICKUP_FIELDS: [&'static str; 2] = ["pickup_add_data", "pickupAddData"];
pub const ROUTE_FIELDS: [&'static str; 2] = ["route", "__route"];
pub const CLIENT_ENVELOPE_FIELDS: [&'static str; 2] = ["identifier", "checksum"];
pub const ITEM_WRAPPER_FIELDS: [&'static str; 2] = ["addedItemObject", "added_item_object"];
pub const ITEM_SIGNATURE_FIELDS: [&'static str; 5] = ["seed", "a", "itemId", "item_id", "gid"];
pub const ITEM_NAMED_SIGNATURE_FIELDS: [&'static str; 4] = ["seed", "itemId", "item_id", "gid"];

pub open spec fn members_of(j: Json) -> Seq<(String, Json)> {
    match j {
        Json::Object(ms) => ms@,
        _ => Seq::empty(),
    }
}

/// The fingerprint the message files its one item under, if it names one.
pub open spec fn own_fp(d: Json) -> Option<Seq<char>> {
    match field_val(d, nv(OWN_FP_FIELDS)) {
        Some(Json::Str(x)) => if x@.len() > 0 {
            Some(x@)
        } else {
            None
        },
        _ => None,
    }
}

/// An item, where it is an object.
pub open spec fn single(c: Catalog, item: Json, fp: Option<Seq<char>>, ground: bool) -> Seq<EventView> {
    if item is Object {
        seq![item_view(c, item, fp, ground)]
    } else {
        Seq::empty()
    }
}

/// The items of an object keyed by fingerprint.
pub open spec fn member_views(c: Catalog, ms: Seq<(String, Json)>, ground: bool) -> Seq<EventView>
    decreases ms.len(),
{
    if ms.len() == 0 {
        Seq::empty()
    } else {
        member_views(c, ms.drop_last(), ground) + single(c, ms.last().1, Some(ms.last().0@), ground)
    }
}

/// Stacked pickups: each member carries its item in a pickup field.
pub open spec fn stack_views(c: Catalog, ms: Seq<(String, Json)>) -> Seq<EventView>
    decreases ms.len(),
{
    if ms.len() == 0 {
        Seq::empty()
    } else {
        stack_views(c, ms.drop_last()) + match field_val(ms.last().1, nv(PICKUP_FIELDS)) {
            Some(item) => single(c, item, Some(ms.last().0@), false),
            None => Seq::empty(),
        }
    }
}

pub open spec fn nested_count(ms: Seq<(String, Json)>) -> nat
    decreases ms.len(),
{
    if ms.len() == 0 {
        0
    } else {
        nested_count(ms.drop_last()) + if field_val(ms.last().1, nv(PICKUP_FIELDS)) is Some {
            1nat
        } else {
            0
        }
    }
}

/// Whether a value has the shape of one item.
pub open spec fn item_like(v: Json) -> bool {
    v is Object && (field_raw(v, nv(ITEM_SIGNATURE_FIELDS)) is Some || field_raw(v, nv(ITEM_RARITY_FIELDS)) is Some)
}

/// Whether an item's place says it sits in a player's slot.
pub open spec fn player_owned(v: Option<Json>) -> bool {
    v matches Some(Json::Object(m)) && first_key(m@, "player"@) is Some
}

/// A drop lying in the world: a named item, a relic, an item whose id is its
/// identity, or a Codex; in no player's slot; and somewhere on the map.
pub open spec fn ground_ok(fp: Option<Seq<char>>, item: Json) -> bool {
    &&& (int_of(item, nv(C_NAME)) == 1 || match fp_type(fp) {
        Some(t) => t == 16 || self_numbered(t) || (t == 11 && (int_of(item, nv(B_NAME)) == 18 || int_of(
            item,
            nv(B_NAME),
        ) == 23)),
        None => false,
    })
    &&& !player_owned(field_raw(item, nv(GD_NAME)))
    &&& !player_owned(field_raw(item, nv(GID_NAME)))
    &&& (field_raw(item, nv(GD_NAME)) is Some || field_raw(item, nv(GID_NAME)) is Some)
}

pub open spec fn ground_views(c: Catalog, ms: Seq<(String, Json)>) -> Seq<EventView>
    decreases ms.len(),
{
    if ms.len() == 0 {
        Seq::empty()
    } else {
        ground_views(c, ms.drop_last()) + if ms.last().1 is Object && ground_ok(Some(ms.last().0@), ms.last().1) {
            seq![item_view(c, ms.last().1, Some(ms.last().0@), true)]
        } else {
            Seq::empty()
        }
    }
}

/// Whether an item answer is a pickup: it carries a pickup field, or its
/// route or message speaks of the inventory or a pickup.
pub open spec fn inventory_route(d: Json, idata: Json) -> bool {
    let route = match field_val(d, nv(ROUTE_FIELDS)) {
        Some(Json::Str(x)) => x@,
        _ => Seq::empty(),
    };
    let ctx = lowercase(route + " "@ + message_of(d));
    field_val(idata, nv(PICKUP_FIELDS)) is Some || contains_text(ctx, "inventory"@) || contains_text(ctx, "pickup"@)
}

/// The items a message brings, in the order the game's own client checks the
/// shapes they come in: nothing from the market or a split stack; an
/// operation's additions; stacked pickups; `itemsAdded`; item data, as a
/// pickup or as the server's answer of what dropped; a wrapped item; a bare
/// one.
pub open spec fn added_part(c: Catalog, d: Json) -> Seq<EventView> {
    let own = own_fp(d);
    let ops = match field_val(d, nv(OPERATIONS_NAME)) {
        Some(o) => o,
        None => Json::Null,
    };
    if field_raw(d, nv(MARKET_FIELDS)) is Some || field_raw(ops, nv(SPLIT_NAME)) is Some {
        Seq::empty()
    } else if field_val(ops, nv(ADD_NAME)) is Some {
        member_views(c, members_of(field_val(ops, nv(ADD_NAME))->0), false)
    } else if field_val(ops, nv(STACK_NAME)) is Some && field_val(ops, nv(STACK_NAME))->0 is Object {
        stack_views(c, members_of(field_val(ops, nv(STACK_NAME))->0))
    } else if field_val(d, nv(ITEMS_ADDED_FIELDS)) is Some {
        member_views(c, members_of(field_val(d, nv(ITEMS_ADDED_FIELDS))->0), false)
    } else if field_val(d, nv(ITEM_DATA_FIELDS)) is Some {
        let idata = field_val(d, nv(ITEM_DATA_FIELDS))->0;
        if inventory_route(d, idata) {
            match field_val(idata, nv(PICKUP_FIELDS)) {
                Some(p) => single(c, p, own, false),
                None => if nested_count(members_of(idata)) > 0 {
                    stack_views(c, members_of(idata))
                } else if item_like(idata) {
                    single(c, idata, own, false)
                } else {
                    member_views(c, members_of(idata), false)
                },
            }
        } else if field_raw(d, nv(CLIENT_ENVELOPE_FIELDS)) is Some {
            Seq::empty()
        } else if item_like(idata) {
            if ground_ok(own, idata) {
                seq![item_view(c, idata, own, true)]
            } else {
                Seq::empty()
            }
        } else {
            ground_views(c, members_of(idata))
        }
    } else if field_val(d, nv(ITEM_WRAPPER_FIELDS)) is Some {
        single(c, field_val(d, nv(ITEM_WRAPPER_FIELDS))->0, own, false)
    } else if field_raw(d, nv(ITEM_NAMED_SIGNATURE_FIELDS)) is Some && field_raw(d, nv(ITEM_RARITY_FIELDS)) is Some {
        single(c, d, own, false)
    } else {
        Seq::empty()
    }
}

pub open spec fn strs_in(items: Seq<Json>) -> Seq<Seq<char>>
    decreases items.len(),
{
    if items.len() == 0 {
        Seq::empty()
    } else {
        strs_in(items.drop_last()) + match items.last() {
            Json::Str(x) => if x@.len() > 0 {
                seq![x@]
            } else {
                Seq::empty()
            },
            _ => Seq::empty(),
        }
    }
}

pub open spec fn keys_in(ms: Seq<(String, Json)>) -> Seq<Seq<char>>
    decreases ms.len(),
{
    if ms.len() == 0 {
        Seq::empty()
    } else {
        keys_in(ms.drop_last()) + if ms.last().0@.len() > 0 {
            seq![ms.last().0@]
        } else {
            Seq::empty()
        }
    }
}

/// What left the bags: the fingerprints an operation removes, as a list or
/// as the keys of an object.
pub open spec fn gone_fps(d: Json) -> Seq<Seq<char>> {
    match field_val(d, nv(OPERATIONS_NAME)) {
        Some(o) => match field_val(o, nv(REMOVE_NAME)) {
            Some(Json::Array(gone)) => strs_in(gone@),
            Some(Json::Object(gone)) => keys_in(gone@),
            _ => Seq::empty(),
        },
        None => Seq::empty(),
    }
}

/// What left the bags, before what entered them.
pub open spec fn items_part(c: Catalog, d: Json) -> Seq<EventView> {
    (if gone_fps(d).len() > 0 {
        seq![EventView::ItemsLetGo(gone_fps(d))]
    } else {
        Seq::empty()
    }) + added_part(c, d)
}

fn emit(c: &Catalog, item: &Json, fp: Option<&str>, ground: bool, out: &mut Vec<GameEvent>)
    ensures
        events_view(final(out)@) == events_view(old(out)@) + single(*c, *item, fp_view(fp), ground),
{
    let ghost before = events_view(out@);
    if let Json::Object(_) = item {
        push_event(out, item_event(c, item, fp, ground));
    }
    assert(events_view(out@) =~= before + single(*c, *item, fp_view(fp), ground));
}

fn emit_members(c: &Catalog, ms: &Vec<(String, Json)>, ground: bool, out: &mut Vec<GameEvent>)
    ensures
        events_view(final(out)@) == events_view(old(out)@) + member_views(*c, ms@, ground),
{
    let ghost before = events_view(out@);
    let mut i: usize = 0;
    assert(member_views(*c, ms@.take(0), ground) =~= Seq::<EventView>::empty());
    assert(events_view(out@) =~= before + member_views(*c, ms@.take(0), ground));
    while i < ms.len()
        invariant
            i <= ms@.len(),
            events_view(out@) == before + member_views(*c, ms@.take(i as int), ground),
        decreases ms@.len() - i,
    {
        proof {
            assert(ms@.take(i + 1).drop_last() == ms@.take(i as int));
        }
        emit(c, &ms[i].1, Some(ms[i].0.as_str()), ground, out);
        i = i + 1;
        assert(events_view(out@) =~= before + member_views(*c, ms@.take(i as int), ground));
    }
    assert(ms@.take(ms@.len() as int) == ms@);
}

fn emit_stack(c: &Catalog, ms: &Vec<(String, Json)>, out: &mut Vec<GameEvent>)
    ensures
        events_view(final(out)@) == events_view(old(out)@) + stack_views(*c, ms@),
{
    let ghost before = events_view(out@);
    let mut i: usize = 0;
    assert(stack_views(*c, ms@.take(0)) =~= Seq::<EventView>::empty());
    assert(events_view(out@) =~= before + stack_views(*c, ms@.take(0)));
    while i < ms.len()
        invariant
            i <= ms@.len(),
            events_view(out@) == before + stack_views(*c, ms@.take(i as int)),
        decreases ms@.len() - i,
    {
        proof {
            assert(ms@.take(i + 1).drop_last() == ms@.take(i as int));
        }
        match field(&ms[i].1, &PICKUP_FIELDS) {
            Some(f) => emit(c, f.get(), Some(ms[i].0.as_str()), false, out),
            None => {},
        }
        i = i + 1;
        assert(events_view(out@) =~= before + stack_views(*c, ms@.take(i as int)));
    }
    assert(ms@.take(ms@.len() as int) == ms@);
}

fn count_nested(ms: &Vec<(String, Json)>) -> (r: usize)
    ensures
        r == nested_count(ms@),
{
    let mut n: usize = 0;
    let mut i: usize = 0;
    while i < ms.len()
        invariant
            i <= ms@.len(),
            n == nested_count(ms@.take(i as int)),
            n <= i,
        decreases ms@.len() - i,
    {
        proof {
            assert(ms@.take(i + 1).drop_last() == ms@.take(i as int));
        }
        if field(&ms[i].1, &PICKUP_FIELDS).is_some() {
            n = n + 1;
        }
        i = i + 1;
    }
    assert(ms@.take(ms@.len() as int) == ms@);
    n
}

fn owned_by_player(v: Option<&Json>) -> (r: bool)
    ensures
        r == player_owned(match v {
            Some(x) => Some(*x),
            None => None,
        }),
{
    match v {
        Some(Json::Object(m)) => crate::sets::find_key(m, "player").is_some(),
        _ => false,
    }
}

/// Whether an item says it sits in a player's slot, under either spelling
/// of the field that says where it is.
pub fn belongs_to_a_player(item: &Json) -> (r: bool)
    ensures
        r == (player_owned(field_raw(*item, nv(GD_NAME))) || player_owned(field_raw(*item, nv(GID_NAME)))),
{
    owned_by_player(field_ref(item, &GD_NAME)) || owned_by_player(field_ref(item, &GID_NAME))
}

fn lies_ok(fp: Option<&str>, item: &Json) -> (r: bool)
    ensures
        r == ground_ok(fp_view(fp), *item),
{
    let named = int_field(item, &C_NAME) == 1;
    let by_type = match fingerprint_type(fp) {
        Some(t) => {
            let b = int_field(item, &B_NAME);
            t == 16 || (12 <= t && t <= 15) || t == 19 || (t == 11 && (b == 18 || b == 23))
        },
        None => false,
    };
    (named || by_type) && !owned_by_player(field_ref(item, &GD_NAME)) && !owned_by_player(field_ref(item, &GID_NAME))
        && (has_field(item, &GD_NAME) || has_field(item, &GID_NAME))
}

fn emit_ground(c: &Catalog, ms: &Vec<(String, Json)>, out: &mut Vec<GameEvent>)
    ensures
        events_view(final(out)@) == events_view(old(out)@) + ground_views(*c, ms@),
{
    let ghost before = events_view(out@);
    let mut i: usize = 0;
    assert(ground_views(*c, ms@.take(0)) =~= Seq::<EventView>::empty());
    assert(events_view(out@) =~= before + ground_views(*c, ms@.take(0)));
    while i < ms.len()
        invariant
            i <= ms@.len(),
            events_view(out@) == before + ground_views(*c, ms@.take(i as int)),
        decreases ms@.len() - i,
    {
        proof {
            assert(ms@.take(i + 1).drop_last() == ms@.take(i as int));
        }
        let item = &ms[i].1;
        if let Json::Object(_) = item {
            if lies_ok(Some(ms[i].0.as_str()), item) {
                push_event(out, item_event(c, item, Some(ms[i].0.as_str()), true));
            }
        }
        i = i + 1;
        assert(events_view(out@) =~= before + ground_views(*c, ms@.take(i as int)));
    }
    assert(ms@.take(ms@.len() as int) == ms@);
}

fn emit_all(c: &Catalog, j: &Json, ground: bool, out: &mut Vec<GameEvent>)
    ensures
        events_view(final(out)@) == events_view(old(out)@) + member_views(*c, members_of(*j), ground),
{
    match j {
        Json::Object(ms) => emit_members(c, ms, ground, out),
        _ => {
            assert(member_views(*c, members_of(*j), ground) =~= Seq::<EventView>::empty());
            assert(events_view(out@) =~= events_view(out@) + Seq::<EventView>::empty());
        },
    }
}

fn route_says_pickup(d: &Json, idata: &Json) -> (r: bool)
    ensures
        r == inventory_route(*d, *idata),
{
    if field(idata, &PICKUP_FIELDS).is_some() {
        return true;
    }
    let mut ctx = match field(d, &ROUTE_FIELDS) {
        Some(f) => match f.get() {
            Json::Str(x) => copy_str(x.as_str()),
            _ => String::new(),
        },
        None => String::new(),
    };
    ctx.append(" ");
    let m = msg_text(d);
    ctx.append(m.as_str());
    let low = to_lower(ctx.as_str());
    let v = chars_of(low.as_str());
    let a = chars_of("inventory");
    let b = chars_of("pickup");
    crate::text::contains(v.as_slice(), a.as_slice()) || crate::text::contains(v.as_slice(), b.as_slice())
}

fn item_data_events(c: &Catalog, d: &Json, idata: &Json, own: Option<&str>, out: &mut Vec<GameEvent>)
    ensures
        events_view(final(out)@) == events_view(old(out)@) + ({
            if inventory_route(*d, *idata) {
                match field_val(*idata, nv(PICKUP_FIELDS)) {
                    Some(p) => single(*c, p, fp_view(own), false),
                    None => if nested_count(members_of(*idata)) > 0 {
                        stack_views(*c, members_of(*idata))
                    } else if item_like(*idata) {
                        single(*c, *idata, fp_view(own), false)
                    } else {
                        member_views(*c, members_of(*idata), false)
                    },
                }
            } else if field_raw(*d, nv(CLIENT_ENVELOPE_FIELDS)) is Some {
                Seq::empty()
            } else if item_like(*idata) {
                if ground_ok(fp_view(own), *idata) {
                    seq![item_view(*c, *idata, fp_view(own), true)]
                } else {
                    Seq::empty()
                }
            } else {
                ground_views(*c, members_of(*idata))
            }
        }),
{
    let ghost before = events_view(out@);
    let like = match idata {
        Json::Object(_) => has_field(idata, &ITEM_SIGNATURE_FIELDS) || has_field(idata, &ITEM_RARITY_FIELDS),
        _ => false,
    };
    if route_says_pickup(d, idata) {
        match field(idata, &PICKUP_FIELDS) {
            Some(p) => {
                emit(c, p.get(), own, false, out);
                return;
            },
            None => {},
        }
        let nested = match idata {
            Json::Object(ms) => count_nested(ms),
            _ => 0,
        };
        if nested > 0 {
            match idata {
                Json::Object(ms) => emit_stack(c, ms, out),
                _ => {},
            }
        } else if like {
            emit(c, idata, own, false, out);
        } else {
            emit_all(c, idata, false, out);
        }
        return;
    }
    if has_field(d, &CLIENT_ENVELOPE_FIELDS) {
        assert(events_view(out@) =~= before + Seq::<EventView>::empty());
        return;
    }
    if like {
        if lies_ok(own, idata) {
            push_event(out, item_event(c, idata, own, true));
        } else {
            assert(events_view(out@) =~= before + Seq::<EventView>::empty());
        }
        return;
    }
    match idata {
        Json::Object(ms) => emit_ground(c, ms, out),
        _ => {
            assert(ground_views(*c, members_of(*idata)) =~= Seq::<EventView>::empty());
            assert(events_view(out@) =~= before + Seq::<EventView>::empty());
        },
    }
}

fn added_items(c: &Catalog, d: &Json, out: &mut Vec<GameEvent>)
    ensures
        events_view(final(out)@) == events_view(old(out)@) + added_part(*c, *d),
{
    let ghost before = events_view(out@);
    let own_s: Option<String> = match field(d, &OWN_FP_FIELDS) {
        Some(f) => match f.get() {
            Json::Str(x) => if !x.as_str().is_empty() {
                Some(copy_str(x.as_str()))
            } else {
                None
            },
            _ => None,
        },
        None => None,
    };
    let own: Option<&str> = match &own_s {
        Some(x) => Some(x.as_str()),
        None => None,
    };
    assert(fp_view(own) == own_fp(*d));
    let null = Json::Null;
    let ops_f = field(d, &OPERATIONS_NAME);
    let ops: &Json = match &ops_f {
        Some(f) => f.get(),
        None => &null,
    };
    if has_field(d, &MARKET_FIELDS) || has_field(ops, &SPLIT_NAME) {
        assert(events_view(out@) =~= before + Seq::<EventView>::empty());
        return;
    }
    match field(ops, &ADD_NAME) {
        Some(add) => {
            emit_all(c, add.get(), false, out);
            return;
        },
        None => {},
    }
    match field(ops, &STACK_NAME) {
        Some(st) => match st.get() {
            Json::Object(ms) => {
                emit_stack(c, ms, out);
                return;
            },
            _ => {},
        },
        None => {},
    }
    match field(d, &ITEMS_ADDED_FIELDS) {
        Some(added) => {
            emit_all(c, added.get(), false, out);
            return;
        },
        None => {},
    }
    match field(d, &ITEM_DATA_FIELDS) {
        Some(idata) => {
            item_data_events(c, d, idata.get(), own, out);
            return;
        },
        None => {},
    }
    match field(d, &ITEM_WRAPPER_FIELDS) {
        Some(w) => {
            emit(c, w.get(), own, false, out);
            return;
        },
        None => {},
    }
    if has_field(d, &ITEM_NAMED_SIGNATURE_FIELDS) && has_field(d, &ITEM_RARITY_FIELDS) {
        emit(c, d, own, false, out);
    } else {
        assert(events_view(out@) =~= before + Seq::<EventView>::empty());
    }
}

fn gone_list(d: &Json) -> (r: Vec<String>)
    ensures
        texts_view(r@) == gone_fps(*d),
{
    let mut out: Vec<String> = Vec::new();
    let ops = match field(d, &OPERATIONS_NAME) {
        Some(o) => o,
        None => {
            assert(texts_view(out@) =~= Seq::<Seq<char>>::empty());
            return out;
        },
    };
    match field(ops.get(), &REMOVE_NAME) {
        Some(g) => match g.get() {
            Json::Array(gone) => {
                let mut i: usize = 0;
                assert(texts_view(out@) =~= strs_in(gone@.take(0)));
                while i < gone.len()
                    invariant
                        i <= gone@.len(),
                        texts_view(out@) == strs_in(gone@.take(i as int)),
                    decreases gone@.len() - i,
                {
                    proof {
                        assert(gone@.take(i + 1).drop_last() == gone@.take(i as int));
                    }
                    let ghost was = out@;
                    match &gone[i] {
                        Json::Str(x) => if !x.as_str().is_empty() {
                            out.push(copy_str(x.as_str()));
                        },
                        _ => {},
                    }
                    i = i + 1;
                    assert(texts_view(out@) =~= strs_in(gone@.take(i as int)));
                }
                assert(gone@.take(gone@.len() as int) == gone@);
            },
            Json::Object(gone) => {
                let mut i: usize = 0;
                assert(texts_view(out@) =~= keys_in(gone@.take(0)));
                while i < gone.len()
                    invariant
                        i <= gone@.len(),
                        texts_view(out@) == keys_in(gone@.take(i as int)),
                    decreases gone@.len() - i,
                {
                    proof {
                        assert(gone@.take(i + 1).drop_last() == gone@.take(i as int));
                    }
                    if !gone[i].0.as_str().is_empty() {
                        out.push(copy_str(gone[i].0.as_str()));
                    }
                    i = i + 1;
                    assert(texts_view(out@) =~= keys_in(gone@.take(i as int)));
                }
                assert(gone@.take(gone@.len() as int) == gone@);
            },
            _ => {
                assert(texts_view(out@) =~= Seq::<Seq<char>>::empty());
            },
        },
        None => {
            assert(texts_view(out@) =~= Seq::<Seq<char>>::empty());
        },
    }
    out
}

/// What left the bags, then what entered them.
pub fn item_events(c: &Catalog, d: &Json, out: &mut Vec<GameEvent>)
    ensures
        events_view(final(out)@) == events_view(old(out)@) + items_part(*c, *d),
{
    let ghost before = events_view(out@);
    let gone = gone_list(d);
    if gone.len() > 0 {
        push_event(out, GameEvent::ItemsLetGo(gone));
    }
    let ghost mid = events_view(out@);
    added_items(c, d, out);
    assert(events_view(out@) =~= before + items_part(*c, *d));
}

// ---------------------------------------------------------------------------
// A whole message
// ---------------------------------------------------------------------------

pub open spec fn gold_part(d: Json) -> Seq<EventView> {
    match gold_event(d) {
        Some(c) => seq![EventView::Gold(c)],
        None => Seq::empty(),
    }
}

/// A guild's experience total: the share this character's play earned it.
pub open spec fn guild_part(d: Json) -> Seq<EventView> {
    if field_raw(d, nv(XP_TOTAL_FIELDS)) is Some {
        seq![EventView::XpGain(character_share(xp_gain_of(d)) as i64)]
    } else {
        Seq::empty()
    }
}

/// Mail: spoken of as a word, or answered in a mail field; never what
/// somebody said in chat.
pub open spec fn mail_part(d: Json) -> Seq<EventView> {
    if !is_chat(d) && (says_mail(lowercase(message_of(d))) || field_raw(d, nv(MAIL_FIELDS)) is Some) {
        seq![EventView::Mail(mail_present(d))]
    } else {
        Seq::empty()
    }
}

pub open spec fn found_part(d: Json) -> Seq<EventView> {
    match announcement(message_of(d)) {
        Some((f, n)) => seq![EventView::Found { finder: f, name: n }],
        None => Seq::empty(),
    }
}

pub open spec fn region_part(d: Json) -> Seq<EventView> {
    match zone_question(d) {
        Some(r) => seq![EventView::ZoneRegion(r)],
        None => Seq::empty(),
    }
}

pub open spec fn whose_part(d: Json) -> Seq<EventView> {
    match account_said(d) {
        Some(a) => seq![EventView::WhoseAccount(a)],
        None => Seq::empty(),
    }
}

pub open spec fn zone_part(d: Json) -> Seq<EventView> {
    if field_raw(d, nv(SATANIC_ZONE_FIELDS)) is Some {
        seq![zone_event(d)]
    } else {
        Seq::empty()
    }
}

/// Everything one message says, in order; a message from the Steam overlay,
/// or one that is no object, says nothing.
pub open spec fn message_events(c: Catalog, d: Json) -> Seq<EventView> {
    match d {
        Json::Object(ms) => if first_key(ms@, "steam"@) is Some {
            Seq::empty()
        } else {
            gold_part(d) + guild_part(d) + heartbeat_part(d) + mail_part(d) + found_part(d) + items_part(c, d)
                + region_part(d) + whose_part(d) + zone_part(d) + account_part(d)
        },
        _ => Seq::empty(),
    }
}

fn gold_step(d: &Json, out: &mut Vec<GameEvent>)
    ensures
        events_view(final(out)@) == events_view(old(out)@) + gold_part(*d),
{
    let ghost before = events_view(out@);
    match gold_in(d) {
        Some(cur) => push_event(out, GameEvent::Gold(cur)),
        None => {},
    }
    assert(events_view(out@) =~= before + gold_part(*d));
}

fn guild_step(d: &Json, out: &mut Vec<GameEvent>)
    ensures
        events_view(final(out)@) == events_view(old(out)@) + guild_part(*d),
{
    let ghost before = events_view(out@);
    if has_field(d, &XP_TOTAL_FIELDS) {
        push_event(out, GameEvent::XpGain(guild_share_to_character(xp_gain(d))));
    }
    assert(events_view(out@) =~= before + guild_part(*d));
}

fn mail_step(d: &Json, out: &mut Vec<GameEvent>)
    ensures
        events_view(final(out)@) == events_view(old(out)@) + mail_part(*d),
{
    let ghost before = events_view(out@);
    let message = msg_text(d);
    let lower = to_lower(message.as_str());
    let chat = has_field(d, &CHAT_ROOM_FIELDS) && has_field(d, &CHAT_COLOR_FIELDS);
    if !chat && (mail_said(lower.as_str()) || has_field(d, &MAIL_FIELDS)) {
        push_event(out, GameEvent::Mail(mail_is_present(d)));
    }
    assert(events_view(out@) =~= before + mail_part(*d));
}

fn found_step(d: &Json, out: &mut Vec<GameEvent>)
    ensures
        events_view(final(out)@) == events_view(old(out)@) + found_part(*d),
{
    let ghost before = events_view(out@);
    let message = msg_text(d);
    match announced_item_name(message.as_str()) {
        Some((finder, name)) => push_event(out, GameEvent::Found { finder, name }),
        None => {},
    }
    assert(events_view(out@) =~= before + found_part(*d));
}

fn who_step(d: &Json, out: &mut Vec<GameEvent>)
    ensures
        events_view(final(out)@) == events_view(old(out)@) + region_part(*d) + whose_part(*d) + zone_part(*d),
{
    let ghost before = events_view(out@);
    match zone_request_region(d) {
        Some(r) => push_event(out, GameEvent::ZoneRegion(r)),
        None => {},
    }
    assert(events_view(out@) =~= before + region_part(*d));
    let ghost e1 = events_view(out@);
    match our_account(d) {
        Some(a) => push_event(out, GameEvent::WhoseAccount(a)),
        None => {},
    }
    assert(events_view(out@) =~= e1 + whose_part(*d));
    let ghost e2 = events_view(out@);
    if has_field(d, &SATANIC_ZONE_FIELDS) {
        push_event(out, satanic_event(d));
    }
    assert(events_view(out@) =~= e2 + zone_part(*d));
}

/// The events one message carries.
pub fn dict_to_events(c: &Catalog, d: &Json) -> (r: Vec<GameEvent>)
    ensures
        events_view(r@) == message_events(*c, *d),
{
    let mut out: Vec<GameEvent> = Vec::new();
    match d {
        Json::Object(ms) => {
            if crate::sets::find_key(ms, "steam").is_some() {
                assert(events_view(out@) =~= Seq::<EventView>::empty());
                return out;
            }
        },
        _ => {
            assert(events_view(out@) =~= Seq::<EventView>::empty());
            return out;
        },
    }
    assert(events_view(out@) =~= Seq::<EventView>::empty());
    gold_step(d, &mut out);
    guild_step(d, &mut out);
    heartbeat(d, &mut out);
    mail_step(d, &mut out);
    found_step(d, &mut out);
    item_events(c, d, &mut out);
    who_step(d, &mut out);
    account_in(d, &mut out);
    proof {
        let e = Seq::<EventView>::empty();
        assert(e + gold_part(*d) =~= gold_part(*d));
    }
    assert(events_view(out@) =~= message_events(*c, *d));
    out
}

// ---------------------------------------------------------------------------
// Messages, and arrays of them
// ---------------------------------------------------------------------------

/// What a value carries: a message's events, or those of every message an
/// array holds, however deep, in order.
pub open spec fn walked(c: Catalog, v: Json) -> Seq<EventView>
    decreases v,
{
    match v {
        Json::Object(_) => message_events(c, v),
        Json::Array(items) => walk_seq(c, items@),
        _ => Seq::empty(),
    }
}

pub open spec fn walk_seq(c: Catalog, s: Seq<Json>) -> Seq<EventView>
    decreases s,
{
    if s.len() == 0 {
        Seq::empty()
    } else {
        walk_seq(c, s.subrange(0, s.len() - 1)) + walked(c, s[s.len() - 1])
    }
}

#[verifier::spinoff_prover]
#[verifier::rlimit(30)]
fn walk(c: &Catalog, v: &Json, out: &mut Vec<GameEvent>)
    ensures
        events_view(final(out)@) == events_view(old(out)@) + walked(*c, *v),
    decreases v,
{
    let ghost before = events_view(out@);
    match v {
        Json::Object(_) => {
            let mut es = dict_to_events(c, v);
            let ghost got = es@;
            let ghost was = out@;
            out.append(&mut es);
            assert(out@ == was + got);
            assert(events_view(out@) =~= events_view(was) + events_view(got));
        },
        Json::Array(items) => {
            let mut i: usize = 0;
            assert(items@.subrange(0, 0) =~= Seq::<Json>::empty());
            assert(events_view(out@) =~= before + walk_seq(*c, items@.subrange(0, 0)));
            while i < items.len()
                invariant
                    i <= items@.len(),
                    *v == Json::Array(*items),
                    events_view(out@) == before + walk_seq(*c, items@.subrange(0, i as int)),
                decreases items@.len() - i,
            {
                proof {
                    let whole: Json = *v;
                    assert(whole->Array_0 == *items);
                    assert(decreases_to!(whole => whole->Array_0));
                    assert(decreases_to!(*items => items@));
                    assert(decreases_to!(items@ => items@[i as int]));
                    let s = items@.subrange(0, i + 1);
                    assert(s.subrange(0, s.len() - 1) =~= items@.subrange(0, i as int));
                    assert(s[s.len() - 1] == items@[i as int]);
                }
                walk(c, &items[i], out);
                i = i + 1;
            }
            assert(items@.subrange(0, items@.len() as int) =~= items@);
        },
        _ => {
            assert(events_view(out@) =~= before);
        },
    }
}

/// The events a batch of messages carries, in order.
pub fn events_from_messages(c: &Catalog, messages: &[Json]) -> (r: Vec<GameEvent>)
    ensures
        events_view(r@) == walk_seq(*c, messages@),
{
    let mut out: Vec<GameEvent> = Vec::new();
    let mut i: usize = 0;
    assert(messages@.subrange(0, 0) =~= Seq::<Json>::empty());
    assert(events_view(out@) =~= walk_seq(*c, messages@.subrange(0, 0)));
    while i < messages.len()
        invariant
            i <= messages@.len(),
            events_view(out@) == walk_seq(*c, messages@.subrange(0, i as int)),
        decreases messages@.len() - i,
    {
        proof {
            let s = messages@.subrange(0, i + 1);
            assert(s.subrange(0, s.len() - 1) =~= messages@.subrange(0, i as int));
            assert(s[s.len() - 1] == messages@[i as int]);
        }
        walk(c, &messages[i], &mut out);
        i = i + 1;
    }
    assert(messages@.subrange(0, messages@.len() as int) =~= messages@);
    out
}

} // verus!

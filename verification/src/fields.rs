//! Reading a message's fields. The game spells one field several ways
//! (`totalGuildXp`, `total_guild_xp`), so a field is asked for by a list of
//! names: the first spelled exactly is taken, else the first member whose key
//! reads the same once everything but ASCII letters and digits is dropped and
//! case is ignored.

use vstd::prelude::*;
use crate::json::{as_int, int_reading, Json};
use crate::sets::{find_key, first_key};
use crate::text::{ascii_lower, ascii_lower_char, chars_of, copy_str, is_alnum, trim_bounds, trimmed};
use crate::wire::{parse_text, parsed_text};

verus! {

/// A key with everything but ASCII letters and digits dropped, lowered.
pub open spec fn norm(s: Seq<char>) -> Seq<char>
    decreases s.len(),
{
    if s.len() == 0 {
        Seq::empty()
    } else if is_alnum(s.last()) {
        norm(s.drop_last()).push(ascii_lower(s.last()))
    } else {
        norm(s.drop_last())
    }
}

pub fn norm_chars(s: &str) -> (r: Vec<char>)
    ensures
        r@ == norm(s@),
{
    let v = chars_of(s);
    let mut r: Vec<char> = Vec::new();
    let mut i: usize = 0;
    while i < v.len()
        invariant
            i <= v@.len(),
            r@ == norm(v@.take(i as int)),
        decreases v@.len() - i,
    {
        let c = v[i];
        proof {
            assert(v@.take(i + 1).drop_last() == v@.take(i as int));
            assert(v@.take(i + 1).last() == c);
        }
        if ('0' <= c && c <= '9') || ('a' <= c && c <= 'z') || ('A' <= c && c <= 'Z') {
            r.push(ascii_lower_char(c));
        }
        i = i + 1;
    }
    assert(v@.take(v@.len() as int) == v@);
    r
}

/// Whether two keys read the same, case and punctuation aside.
pub fn norm_eq(a: &str, b: &str) -> (r: bool)
    ensures
        r == (norm(a@) == norm(b@)),
{
    let x = norm_chars(a);
    let y = norm_chars(b);
    if x.len() != y.len() {
        assert(x@.len() != y@.len());
        assert(x@ != y@);
        return false;
    }
    let mut i: usize = 0;
    while i < x.len()
        invariant
            x@ == norm(a@),
            y@ == norm(b@),
            x@.len() == y@.len(),
            i <= x@.len(),
            forall|j: int| 0 <= j < i ==> x@[j] == y@[j],
        decreases x@.len() - i,
    {
        if x[i] != y[i] {
            assert(x@[i as int] != y@[i as int]);
            return false;
        }
        i = i + 1;
    }
    assert(x@ =~= y@);
    true
}

/// The names a field is asked for by.
pub open spec fn names_view(names: Seq<&str>) -> Seq<Seq<char>> {
    Seq::new(names.len(), |i: int| names[i]@)
}

/// The first name with a member spelled exactly so, and where that member is.
pub open spec fn exact_hit(ms: Seq<(String, Json)>, names: Seq<Seq<char>>) -> Option<int>
    decreases names.len(),
{
    if names.len() == 0 {
        None
    } else {
        match first_key(ms, names[0]) {
            Some(i) => Some(i),
            None => exact_hit(ms, names.drop_first()),
        }
    }
}

/// Whether a key reads as one of the names.
pub open spec fn loosely_named(key: Seq<char>, names: Seq<Seq<char>>) -> bool {
    exists|k: int| 0 <= k < names.len() && norm(#[trigger] names[k]) == norm(key)
}

/// The first member, from `i` on, whose key reads as one of the names.
pub open spec fn loose_from(ms: Seq<(String, Json)>, names: Seq<Seq<char>>, i: int) -> Option<int>
    decreases ms.len() - i,
{
    if i < 0 || i >= ms.len() {
        None
    } else if loosely_named(ms[i].0@, names) {
        Some(i)
    } else {
        loose_from(ms, names, i + 1)
    }
}

/// Where the member a field is asked for stands.
pub open spec fn member_of(ms: Seq<(String, Json)>, names: Seq<Seq<char>>) -> Option<int> {
    match exact_hit(ms, names) {
        Some(i) => Some(i),
        None => loose_from(ms, names, 0),
    }
}

/// A field as the message holds it; only an object has fields.
pub open spec fn field_raw(j: Json, names: Seq<Seq<char>>) -> Option<Json> {
    match j {
        Json::Object(ms) => match member_of(ms@, names) {
            Some(i) => Some(ms@[i].1),
            None => None,
        },
        _ => None,
    }
}

/// Text that holds an object or an array is read as the JSON it holds.
pub open spec fn coerced(v: Json) -> Json {
    match v {
        Json::Str(s) => {
            let t = trimmed(s@);
            if t.len() > 0 && (t[0] == '{' || t[0] == '[') && parsed_text(t) is Some {
                parsed_text(t)->0
            } else {
                v
            }
        },
        _ => v,
    }
}

/// A field, with JSON held in text read as JSON.
pub open spec fn field_val(j: Json, names: Seq<Seq<char>>) -> Option<Json> {
    match field_raw(j, names) {
        Some(v) => Some(coerced(v)),
        None => None,
    }
}

/// A field's number, or 0.
pub open spec fn int_of(j: Json, names: Seq<Seq<char>>) -> int {
    match field_raw(j, names) {
        Some(v) => match int_reading(v) {
            Some(n) => n,
            None => 0,
        },
        None => 0,
    }
}

/// What `Display` writes for a JSON value that is not text. An array or an
/// object is read as no text at all.
pub open spec fn json_text(v: Json) -> Seq<char> {
    match v {
        Json::Null => "null"@,
        Json::Bool(b) => if b {
            "true"@
        } else {
            "false"@
        },
        Json::Number(n) => n.text@,
        Json::Str(s) => s@,
        _ => Seq::empty(),
    }
}

/// The message a packet carries, as text.
pub open spec fn message_of(d: Json) -> Seq<char> {
    match field_raw(d, seq!["message"@]) {
        Some(v) => json_text(v),
        None => Seq::empty(),
    }
}

fn exact_at(ms: &Vec<(String, Json)>, names: &[&str]) -> (r: Option<usize>)
    ensures
        match r {
            Some(i) => exact_hit(ms@, names_view(names@)) == Some(i as int) && i < ms@.len(),
            None => exact_hit(ms@, names_view(names@)) is None,
        },
{
    let ghost all = names_view(names@);
    assert(all.skip(0) =~= all);
    let mut k: usize = 0;
    while k < names.len()
        invariant
            k <= names@.len(),
            all == names_view(names@),
            exact_hit(ms@, all) == exact_hit(ms@, all.skip(k as int)),
        decreases names@.len() - k,
    {
        let ghost rest = all.skip(k as int);
        assert(rest[0] == names@[k as int]@);
        assert(rest.drop_first() == all.skip(k + 1));
        match find_key(ms, names[k]) {
            Some(i) => {
                return Some(i);
            },
            None => {},
        }
        k = k + 1;
    }
    assert(all.skip(k as int).len() == 0);
    None
}

fn loosely(key: &str, names: &[&str]) -> (r: bool)
    ensures
        r == loosely_named(key@, names_view(names@)),
{
    let mut k: usize = 0;
    while k < names.len()
        invariant
            k <= names@.len(),
            forall|j: int| 0 <= j < k ==> norm(#[trigger] names_view(names@)[j]) != norm(key@),
        decreases names@.len() - k,
    {
        if norm_eq(names[k], key) {
            assert(norm(names_view(names@)[k as int]) == norm(key@));
            return true;
        }
        k = k + 1;
    }
    false
}

/// Where the member a field is asked for stands.
pub fn member_at(ms: &Vec<(String, Json)>, names: &[&str]) -> (r: Option<usize>)
    ensures
        match r {
            Some(i) => member_of(ms@, names_view(names@)) == Some(i as int) && i < ms@.len(),
            None => member_of(ms@, names_view(names@)) is None,
        },
{
    if let Some(i) = exact_at(ms, names) {
        return Some(i);
    }
    let mut i: usize = 0;
    while i < ms.len()
        invariant
            i <= ms@.len(),
            exact_hit(ms@, names_view(names@)) is None,
            loose_from(ms@, names_view(names@), 0) == loose_from(ms@, names_view(names@), i as int),
        decreases ms@.len() - i,
    {
        if loosely(ms[i].0.as_str(), names) {
            assert(loose_from(ms@, names_view(names@), i as int) == Some(i as int));
            return Some(i);
        }
        i = i + 1;
    }
    None
}

/// A field as the message holds it.
pub fn field_ref<'a>(obj: &'a Json, names: &[&str]) -> (r: Option<&'a Json>)
    ensures
        match r {
            Some(v) => field_raw(*obj, names_view(names@)) == Some(*v),
            None => field_raw(*obj, names_view(names@)) is None,
        },
{
    match obj {
        Json::Object(ms) => match member_at(ms, names) {
            Some(i) => Some(&ms[i].1),
            None => None,
        },
        _ => None,
    }
}

/// Whether a message has a field.
pub fn has_field(obj: &Json, names: &[&str]) -> (r: bool)
    ensures
        r == field_raw(*obj, names_view(names@)) is Some,
{
    field_ref(obj, names).is_some()
}

/// A field's value: where it stands in the message, or the JSON a text held.
pub enum Found<'a> {
    At(&'a Json),
    Parsed(Json),
}

impl<'a> Found<'a> {
    pub open spec fn value(&self) -> Json {
        match self {
            Found::At(r) => **r,
            Found::Parsed(j) => *j,
        }
    }

    pub fn get(&self) -> (r: &Json)
        ensures
            *r == self.value(),
    {
        match self {
            Found::At(r) => r,
            Found::Parsed(j) => j,
        }
    }
}

/// A value, with JSON held in text read as JSON.
pub fn coerce<'a>(v: &'a Json) -> (r: Found<'a>)
    ensures
        r.value() == coerced(*v),
        r is At ==> coerced(*v) == *v,
{
    if let Json::Str(s) = v {
        let all = chars_of(s.as_str());
        let (a, b) = trim_bounds(all.as_slice());
        if a < b && (all[a] == '{' || all[a] == '[') {
            let t = crate::text::string_of_range(all.as_slice(), a, b);
            assert(t@ == trimmed(s@));
            assert(t@[0] == all@[a as int]);
            if let Some(p) = parse_text(t.as_str()) {
                return Found::Parsed(p);
            }
        } else {
            proof {
                if trimmed(s@).len() > 0 {
                    assert(trimmed(s@)[0] == all@[a as int]);
                }
            }
        }
    }
    Found::At(v)
}

/// A field, with JSON held in text read as JSON.
pub fn field<'a>(obj: &'a Json, names: &[&str]) -> (r: Option<Found<'a>>)
    ensures
        match r {
            Some(f) => field_val(*obj, names_view(names@)) == Some(f.value()),
            None => field_val(*obj, names_view(names@)) is None,
        },
{
    match field_ref(obj, names) {
        Some(v) => Some(coerce(v)),
        None => None,
    }
}

/// A field's number, or 0.
pub fn int_field(obj: &Json, names: &[&str]) -> (r: i64)
    ensures
        r == int_of(*obj, names_view(names@)),
{
    match field_ref(obj, names) {
        Some(v) => match as_int(v) {
            Some(n) => n,
            None => 0,
        },
        None => 0,
    }
}

/// What `Display` writes for a JSON value, for the scalars.
pub fn text_of(v: &Json) -> (r: String)
    ensures
        r@ == json_text(*v),
{
    match v {
        Json::Null => copy_str("null"),
        Json::Bool(b) => if *b {
            copy_str("true")
        } else {
            copy_str("false")
        },
        Json::Number(n) => copy_str(n.text.as_str()),
        Json::Str(s) => copy_str(s.as_str()),
        _ => String::new(),
    }
}

/// The message a packet carries, as text.
pub fn msg_text(d: &Json) -> (r: String)
    ensures
        r@ == message_of(*d),
{
    let names = ["message"];
    proof {
        reveal_strlit("message");
        assert(names_view(names@) =~= seq!["message"@]);
    }
    match field_ref(d, &names) {
        Some(v) => text_of(v),
        None => String::new(),
    }
}

} // verus!

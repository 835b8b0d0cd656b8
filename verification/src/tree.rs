//! A JSON value as plain data all the way down, and a copy that keeps it.

use vstd::prelude::*;
use crate::json::{Json, JsonNumber};
use crate::text::copy_str;

verus! {

/// A JSON value as plain data.
pub enum JsonView {
    Null,
    Bool(bool),
    Number(Option<i64>, Seq<char>),
    Str(Seq<char>),
    Array(Seq<JsonView>),
    Object(Seq<(Seq<char>, JsonView)>),
}

/// What a JSON value holds, all the way down.
pub open spec fn json_view(j: Json) -> JsonView
    decreases j, 1nat,
{
    match j {
        Json::Null => JsonView::Null,
        Json::Bool(b) => JsonView::Bool(b),
        Json::Number(n) => JsonView::Number(n.exact, n.text@),
        Json::Str(x) => JsonView::Str(x@),
        Json::Array(a) => JsonView::Array(items_view(a@)),
        Json::Object(o) => JsonView::Object(members_view(o@)),
    }
}

/// The elements of an array, each by what it holds.
pub open spec fn items_view(s: Seq<Json>) -> Seq<JsonView>
    decreases s, 0nat,
{
    if s.len() == 0 {
        Seq::empty()
    } else {
        items_view(s.subrange(0, s.len() - 1)).push(json_view(s[s.len() - 1]))
    }
}

/// The members of an object, each by its key and what it holds.
pub open spec fn members_view(s: Seq<(String, Json)>) -> Seq<(Seq<char>, JsonView)>
    decreases s, 0nat,
{
    if s.len() == 0 {
        Seq::empty()
    } else {
        members_view(s.subrange(0, s.len() - 1)).push((s[s.len() - 1].0@, json_view(s[s.len() - 1].1)))
    }
}

/// A copy of a JSON value that holds the same, all the way down.
pub fn json_copy(j: &Json) -> (r: Json)
    ensures
        json_view(r) == json_view(*j),
    decreases j,
{
    match j {
        Json::Null => Json::Null,
        Json::Bool(b) => Json::Bool(*b),
        Json::Number(n) => Json::Number(JsonNumber { exact: n.exact, text: copy_str(n.text.as_str()) }),
        Json::Str(x) => Json::Str(copy_str(x.as_str())),
        Json::Array(a) => {
            let mut out: Vec<Json> = Vec::new();
            let mut i: usize = 0;
            while i < a.len()
                invariant
                    *j == Json::Array(*a),
                    i <= a@.len(),
                    out@.len() == i,
                    items_view(out@) == items_view(a@.subrange(0, i as int)),
                decreases a@.len() - i,
            {
                assert(decreases_to!(*j => (*j)->Array_0));
                assert(decreases_to!(*a => a@));
                assert(decreases_to!(a@ => a@[i as int]));
                assert(decreases_to!(*j => a@[i as int]));
                let x = json_copy(&a[i]);
                let ghost before = out@;
                out.push(x);
                proof {
                    assert(out@.subrange(0, out@.len() - 1) =~= before);
                    assert(a@.subrange(0, i + 1).subrange(0, i as int) =~= a@.subrange(0, i as int));
                }
                i = i + 1;
            }
            assert(a@.subrange(0, a@.len() as int) =~= a@);
            Json::Array(out)
        },
        Json::Object(o) => {
            let mut out: Vec<(String, Json)> = Vec::new();
            let mut i: usize = 0;
            while i < o.len()
                invariant
                    *j == Json::Object(*o),
                    i <= o@.len(),
                    out@.len() == i,
                    members_view(out@) == members_view(o@.subrange(0, i as int)),
                decreases o@.len() - i,
            {
                assert(decreases_to!(*j => (*j)->Object_0));
                assert(decreases_to!(*o => o@));
                assert(decreases_to!(o@ => o@[i as int]));
                assert(decreases_to!(o@[i as int] => o@[i as int].1));
                assert(decreases_to!(*j => o@[i as int].1));
                let x = json_copy(&o[i].1);
                let k = copy_str(o[i].0.as_str());
                let ghost before = out@;
                out.push((k, x));
                proof {
                    assert(out@.subrange(0, out@.len() - 1) =~= before);
                    assert(o@.subrange(0, i + 1).subrange(0, i as int) =~= o@.subrange(0, i as int));
                }
                i = i + 1;
            }
            assert(o@.subrange(0, o@.len() as int) =~= o@);
            Json::Object(out)
        },
    }
}

} // verus!

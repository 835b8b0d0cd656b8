//! The two decoders a message's payload can need partway through reading it:
//! JSON text held inside a string, and a base64 blob holding JSON. Both are
//! other crates' work; what they return is named here and read as `Json`.

use vstd::prelude::*;
use base64::Engine;
use crate::json::{Json, JsonNumber};

verus! {

/// `serde_json::Value`, carried only inside the decoders below.
#[verifier::external_type_specification]
#[verifier::external_body]
pub struct ExValue(serde_json::Value);

/// What `serde_json::from_str` makes of a text, read as `Json`.
pub uninterp spec fn parsed_text(text: Seq<char>) -> Option<Json>;

/// What `serde_json::from_slice` makes of bytes, read as `Json`.
pub uninterp spec fn parsed_bytes(bytes: Seq<u8>) -> Option<Json>;

/// What the standard base64 alphabet, padded, decodes a text to.
pub uninterp spec fn base64_bytes(text: Seq<char>) -> Option<Seq<u8>>;

/// A `serde_json::Value` as `Json`, variant for variant: a number keeps the
/// integer `as_i64` gives and the text `Display` writes, an object its
/// members in the order the map hands them over. Shared by the two parsers
/// below; it makes no call of its own.
#[verifier::external_body]
fn json_of(v: serde_json::Value) -> Json {
    match v {
        serde_json::Value::Null => Json::Null,
        serde_json::Value::Bool(b) => Json::Bool(b),
        serde_json::Value::Number(n) => Json::Number(JsonNumber { exact: n.as_i64(), text: n.to_string() }),
        serde_json::Value::String(s) => Json::Str(s),
        serde_json::Value::Array(a) => Json::Array(a.into_iter().map(json_of).collect()),
        serde_json::Value::Object(m) => Json::Object(m.into_iter().map(|(k, x)| (k, json_of(x))).collect()),
    }
}

/// `serde_json::from_str` into a JSON value: `None` where the text is not
/// JSON. The contract names the result and says nothing more of it.
#[verifier::external_body]
pub(crate) fn parse_text(text: &str) -> (r: Option<Json>)
    ensures
        r == parsed_text(text@),
{
    serde_json::from_str::<serde_json::Value>(text).ok().map(json_of)
}

/// `serde_json::from_slice` into a JSON value: `None` where the bytes are not
/// JSON. The contract names the result and says nothing more of it.
#[verifier::external_body]
pub(crate) fn parse_bytes(bytes: &[u8]) -> (r: Option<Json>)
    ensures
        r == parsed_bytes(bytes@),
{
    serde_json::from_slice::<serde_json::Value>(bytes).ok().map(json_of)
}

/// `base64`'s standard engine decoding a text: `None` where it is not base64.
/// The contract names the result and says nothing more of it.
#[verifier::external_body]
pub(crate) fn decode_base64(text: &str) -> (r: Option<Vec<u8>>)
    ensures
        match r {
            Some(b) => base64_bytes(text@) == Some(b@),
            None => base64_bytes(text@) is None,
        },
{
    base64::engine::general_purpose::STANDARD.decode(text.as_bytes()).ok()
}


/// What `String::from_utf8_lossy` makes of bytes: the text they spell, with
/// each run that is not UTF-8 replaced.
pub uninterp spec fn lossy_text(bytes: Seq<u8>) -> Seq<char>;

/// `String::from_utf8_lossy`. The contract names the text and says nothing
/// more of it.
#[verifier::external_body]
pub(crate) fn utf8_lossy(bytes: &[u8]) -> (r: String)
    ensures
        r@ == lossy_text(bytes@),
{
    String::from_utf8_lossy(bytes).into_owned()
}

/// The name and value pairs `form_urlencoded::parse` reads out of a query
/// string's bytes, percent-decoded, in the order they stand.
pub uninterp spec fn url_pairs(text: Seq<char>) -> Seq<(Seq<char>, Seq<char>)>;

pub open spec fn pairs_view(v: Seq<(String, String)>) -> Seq<(Seq<char>, Seq<char>)> {
    v.map_values(|p: (String, String)| (p.0@, p.1@))
}

/// `form_urlencoded::parse` over a text's bytes, each pair owned. The
/// contract names the pairs and says nothing more of them.
#[verifier::external_body]
pub(crate) fn url_decode(text: &str) -> (r: Vec<(String, String)>)
    ensures
        pairs_view(r@) == url_pairs(text@),
{
    form_urlencoded::parse(text.as_bytes()).map(|(k, v)| (k.into_owned(), v.into_owned())).collect()
}

} // verus!

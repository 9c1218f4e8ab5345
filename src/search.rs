//! The envelope of a place lookup response.

use vstd::prelude::*;
use crate::json::{Json, member};
use crate::place::{DecodeError, Place, places_decode, decode_places};

verus! {

#[verifier::external_type_specification]
#[verifier::external_body]
pub struct ExValue(serde_json::Value);

/// The compact JSON text that serde_json writes for a value, or nothing
/// where a number text is not one serde_json reads.
pub uninterp spec fn json_text(j: Json) -> Option<Seq<char>>;

/// Text that serde_json writes inside string quotes unchanged: no `"`, no
/// `\\`, no control character below U+0020.
pub open spec fn needs_no_escape(s: Seq<char>) -> bool {
    forall|i: int|
        0 <= i < s.len() ==> (#[trigger] s[i]) != '"' && s[i] != '\\' && (s[i] as u32) >= 0x20
}

/// Carries a value over into a `serde_json::Value`, one for one, members in
/// order; relies on `serde_json::Number`'s `FromStr` to read each number
/// text, and gives `None` where one does not read.
#[verifier::external_body]
fn json_value(j: &Json) -> Option<serde_json::Value> {
    Some(
        match j {
            Json::Null => serde_json::Value::Null,
            Json::Bool(b) => serde_json::Value::Bool(*b),
            Json::Number(t) => serde_json::Value::Number(t.parse().ok()?),
            Json::Str(s) => serde_json::Value::String(s.clone()),
            Json::Array(items) => serde_json::Value::Array(
                items.iter().map(json_value).collect::<Option<Vec<_>>>()?,
            ),
            Json::Object(ms) => serde_json::Value::Object(
                ms.iter().map(|(k, v)| json_value(v).map(|v| (k.clone(), v))).collect::<Option<_>>()?,
            ),
        },
    )
}

/// Relies on serde_json's `Display` for `Value`, its compact writer: the
/// result depends on the value alone. A string is written between double
/// quotes (`format_escaped_str`), and a character that its escape table
/// leaves alone is written as it is.
#[verifier::external_body]
fn to_json_text(j: &Json) -> (r: Option<String>)
    ensures
        match r {
            Some(t) => json_text(*j) == Some(t@),
            None => json_text(*j) is None,
        },
        j is Str ==> r is Some,
        j is Str ==> r->Some_0@.len() >= 2 && r->Some_0@[0] == '"' && r->Some_0@.last() == '"',
        (j is Str && needs_no_escape(j->Str_0@)) ==> r->Some_0@ == seq!['"'] + j->Str_0@ + seq![
            '"',
        ],
{
    json_value(j).map(|v| v.to_string())
}

/// The decoded answer of a lookup: the request URL the service echoes, to
/// repeat the same lookup, and the places found, in order.
#[derive(Debug)]
pub struct SearchResult {
    /// The JSON text of `query.url`: for a string, the literal with its quotes.
    pub url: String,
    pub results: Vec<Place>,
}

/// Whether `j` is the JSON form of `r`: `query.url` is present and its JSON
/// text, as serde_json writes it, is `r.url`, and `result.places` is an array of the places of `r`.
pub open spec fn search_result_decodes(j: Json, r: SearchResult) -> bool {
    &&& (member(j, "query"@) matches Some(q) && (member(q, "url"@) matches Some(u) && json_text(u)
        == Some(r.url@)))
    &&& (member(j, "result"@) matches Some(res) && (member(res, "places"@) matches Some(ps)
        && places_decode(ps, r.results@)))
}

impl SearchResult {
    /// Decodes a lookup response. Members other than `query.url` and
    /// `result.places` are ignored.
    pub fn from_json(j: &Json) -> (r: Result<SearchResult, DecodeError>)
        ensures
            match r {
                Ok(s) => search_result_decodes(*j, s),
                Err(e) => e == DecodeError::MalformedSearchResult && forall|s: SearchResult|
                    !#[trigger] search_result_decodes(*j, s),
            },
    {
        let url = match j.get("query") {
            Some(q) => match q.get("url") {
                Some(u) => match to_json_text(u) {
                    Some(t) => t,
                    None => return Err(DecodeError::MalformedSearchResult),
                },
                None => return Err(DecodeError::MalformedSearchResult),
            },
            None => return Err(DecodeError::MalformedSearchResult),
        };
        let results = match j.get("result") {
            Some(res) => match res.get("places") {
                Some(ps) => match decode_places(j, ps) {
                    Ok(v) => v,
                    Err(_) => {
                        assert forall|s: SearchResult| !#[trigger] search_result_decodes(*j, s) by {
                            assert(!places_decode(*ps, s.results@));
                        }
                        return Err(DecodeError::MalformedSearchResult);
                    },
                },
                None => return Err(DecodeError::MalformedSearchResult),
            },
            None => return Err(DecodeError::MalformedSearchResult),
        };
        Ok(SearchResult { url, results })
    }
}

} // verus!

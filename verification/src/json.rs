//! The trusted boundary to the JSON library.  The translation service
//! answers with a JSON document; the library reads exactly one string field
//! out of it, addressed by a JSON Pointer path.  Parsing is delegated to
//! serde_json behind one wrapper; what it returns is named here so that the
//! callers' contracts can be exact.

use vstd::prelude::*;

verus! {

#[verifier::external_type_specification]
#[verifier::external_body]
pub struct ExJsonError(serde_json::Error);

/// Whether a text parses as a JSON document.  Parsing depends on the text
/// alone, so the outcome has a name.
pub uninterp spec fn json_wellformed(s: Seq<char>) -> bool;

/// The string value a JSON Pointer path reaches in a well-formed document
/// `s`, or `None` where the path is absent or reaches a non-string value.
/// The lookup depends on the document and the path alone.
pub uninterp spec fn json_string_at(s: Seq<char>, path: Seq<char>) -> Option<Seq<char>>;

/// Relies on serde_json::from_str::<serde_json::Value>, Value::pointer and
/// Value::as_str: `from_str` returns `Err` exactly on texts that are not
/// JSON; `pointer` resolves a `/`-separated path through objects and
/// arrays, returning `None` where a step is absent; `as_str` returns the
/// contained string only for a JSON string value.
#[verifier::external_body]
pub(crate) fn json_string_at_path(body: &str, path: &str) -> (r: Result<
    Option<String>,
    serde_json::Error,
>)
    ensures
        r is Ok <==> json_wellformed(body@),
        r matches Ok(found) ==> match json_string_at(body@, path@) {
            Some(t) => found matches Some(x) && x@ == t,
            None => found is None,
        },
{
    match serde_json::from_str::<serde_json::Value>(body) {
        Err(e) => Err(e),
        Ok(v) => match v.pointer(path) {
            None => Ok(None),
            Some(t) => match t.as_str() {
                None => Ok(None),
                Some(s) => Ok(Some(s.to_string())),
            },
        },
    }
}

} // verus!

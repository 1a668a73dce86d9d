//! JSON texts of lists of strings, read and written by `serde_json`.

use vstd::prelude::*;

verus! {

/// What `serde_json::from_str` makes of a text when asked for a list of
/// strings: the list, or `None` where it rejects the text.
pub uninterp spec fn json_strings(text: Seq<char>) -> Option<Seq<Seq<char>>>;

/// What `serde_json::to_string` makes of a list of strings: the JSON
/// text, or `None` where it fails.
pub uninterp spec fn strings_json(items: Seq<Seq<char>>) -> Option<Seq<char>>;

/// `serde_json::Error`, of which nothing is known here: it is carried
/// from the failed call to where its text is taken.
#[verifier::external_type_specification]
#[verifier::external_body]
pub struct ExJsonError(serde_json::Error);

/// Calls `serde_json::from_str` for a `Vec<String>`. The contract names
/// the outcome: it is a function of the text alone, and the call fails
/// exactly where that function has no value.
#[verifier::external_body]
pub(crate) fn strings_from_json(text: &str) -> (r: Result<Vec<String>, serde_json::Error>)
    ensures
        r is Ok <==> json_strings(text@) is Some,
        r matches Ok(items) ==> json_strings(text@) == Some(items.deep_view()),
{
    serde_json::from_str::<Vec<String>>(text)
}

/// Calls `serde_json::to_string` on a `Vec<String>`. The contract names
/// the outcome: it is a function of the list alone, and the call fails
/// exactly where that function has no value.
#[verifier::external_body]
pub(crate) fn strings_to_json(items: &Vec<String>) -> (r: Result<String, serde_json::Error>)
    ensures
        r is Ok <==> strings_json(items.deep_view()) is Some,
        r matches Ok(text) ==> strings_json(items.deep_view()) == Some(text@),
{
    serde_json::to_string(items)
}

/// The text that `serde_json::Error` displays. Nothing is claimed of it.
#[verifier::external_body]
pub(crate) fn json_error_text(e: &serde_json::Error) -> (text: String) {
    e.to_string()
}

} // verus!

//! JSON, as the `serde_json` crate reads and writes it.

use crate::profiles::opt_view;
use vstd::prelude::*;

verus! {

/// Whether `serde_json` can read a text as a value.
pub uninterp spec fn is_json(text: Seq<char>) -> bool;

/// `serde_json::from_str` for a `serde_json::Value`: whether it succeeds, which
/// depends on the text alone.
#[verifier::external_body]
pub(crate) fn parses(text: &str) -> (r: bool)
    ensures
        r == is_json(text@),
{
    serde_json::from_str::<serde_json::Value>(text).is_ok()
}

/// The number that `serde_json` reads in a text as a `u64`.
pub uninterp spec fn number_in(text: Seq<char>) -> Option<u64>;

/// `serde_json::from_str` for a `u64`: the number, or nothing where it fails, which
/// depends on the text alone.
#[verifier::external_body]
pub(crate) fn read_number(text: &str) -> (r: Option<u64>)
    ensures
        r == number_in(text@),
{
    serde_json::from_str::<u64>(text).ok()
}

/// The truth value that `serde_json` reads in a text as a `bool`.
pub uninterp spec fn bool_in(text: Seq<char>) -> Option<bool>;

/// `serde_json::from_str` for a `bool`: the value, or nothing where it fails, which
/// depends on the text alone.
#[verifier::external_body]
pub(crate) fn read_bool(text: &str) -> (r: Option<bool>)
    ensures
        r == bool_in(text@),
{
    serde_json::from_str::<bool>(text).ok()
}

/// What `serde_json` writes for a text: a JSON string.
pub uninterp spec fn json_of(text: Seq<char>) -> Seq<char>;

/// `serde_json::to_string` for a `str`: the JSON string, which depends on the text alone.
/// For a `str` it never fails.
#[verifier::external_body]
pub(crate) fn write_string(text: &str) -> (r: String)
    ensures
        r@ == json_of(text@),
{
    serde_json::to_string(text).unwrap()
}

/// The text in a member of the JSON object that `serde_json` reads in a text.
pub uninterp spec fn text_member(text: Seq<char>, name: Seq<char>) -> Option<Seq<char>>;

/// `serde_json::from_str` for a `serde_json::Value`, then `Value::get` and
/// `Value::as_str`: the text of the member `name`, or nothing where the text is no
/// JSON, or there is no such member, or it holds no text. This depends on the two
/// texts alone.
#[verifier::external_body]
pub(crate) fn read_text_member(text: &str, name: &str) -> (r: Option<String>)
    ensures
        opt_view(r) == text_member(text@, name@),
{
    let value = serde_json::from_str::<serde_json::Value>(text).ok()?;
    value.get(name)?.as_str().map(|s| s.to_string())
}

} // verus!

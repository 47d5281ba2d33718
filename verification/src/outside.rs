//! What the library takes on trust from the crates it is built on: their
//! types, and the contracts of the functions it calls in them. Nothing in
//! this file is proved.
use crate::value_map::{entries_map, entry_views};
use vstd::prelude::*;

verus! {

/// `uuid::Uuid`, an identifier of 128 bits. The library hands such values on
/// and never looks inside one.
#[verifier::external_type_specification]
#[verifier::external_body]
pub struct ExUuid(uuid::Uuid);

/// `serde_value::Value`, a structured value. The library stores such values
/// and never looks inside one.
#[verifier::external_type_specification]
#[verifier::external_body]
pub struct ExValue(serde_value::Value);

/// `serde_json::Value`, a JSON value. The library stores such values and
/// never looks inside one.
#[verifier::external_type_specification]
#[verifier::external_body]
pub struct ExJsonValue(serde_json::Value);

/// `cdumay_error::Error`, an error with a kind, a message and details.
#[verifier::external_type_specification]
#[verifier::external_body]
pub struct ExError(cdumay_error::Error);

/// Calls `Uuid::new_v4`, which makes an identifier from the system's random
/// numbers. Nothing is claimed of the identifier it returns.
#[verifier::external_body]
pub(crate) fn new_uuid() -> (id: uuid::Uuid) {
    uuid::Uuid::new_v4()
}

/// `Clone` for `serde_value::Value` is derived: the clone is the same value.
pub assume_specification[ <serde_value::Value as Clone>::clone ](
    value: &serde_value::Value,
) -> (copy: serde_value::Value)
    ensures
        copy == *value,
;

/// `Clone` for `serde_json::Value` is derived: the clone is the same value.
pub assume_specification[ <serde_json::Value as Clone>::clone ](
    value: &serde_json::Value,
) -> (copy: serde_json::Value)
    ensures
        copy == *value,
;

/// The status code of an error: what `ErrorKind::code` gives for its kind.
pub uninterp spec fn error_code(error: cdumay_error::Error) -> u16;

/// The message of an error: the characters of its field `message`.
pub uninterp spec fn error_message(error: cdumay_error::Error) -> Seq<char>;

/// The details of an error: what the map in its field `details` holds, by
/// the characters of each key, where the error has details.
pub uninterp spec fn error_details(error: cdumay_error::Error) -> Option<
    Map<Seq<char>, serde_value::Value>,
>;

/// Takes a `cdumay_error::Error` apart: the code that `ErrorKind::code` gives
/// for its kind, its message, and its details as the list of entries that the
/// map of details hands out. The three are the code, the message and the
/// details of the error, which the library knows by name only; a map hands
/// out each of its keys once, so the list describes the map.
#[verifier::external_body]
pub(crate) fn error_parts(error: cdumay_error::Error) -> (parts: (
    u16,
    String,
    Option<Vec<(String, serde_value::Value)>>,
))
    ensures
        parts.0 == error_code(error),
        parts.1@ == error_message(error),
        match parts.2 {
            Some(entries) => error_details(error) == Some(entries_map(entry_views(entries@))),
            None => error_details(error) is None,
        },
{
    let code = error.kind.code();
    let details = error.details.map(|entries| entries.into_iter().collect());
    (code, error.message, details)
}

/// The text that the `{:?}` format writes for a string: the string between
/// double quotes, with the quotes and backslashes in it, and the characters
/// that cannot be printed, written as escapes.
pub uninterp spec fn debug_quoted(text: Seq<char>) -> Seq<char>;

/// Formats a string slice with `{:?}` (`<str as core::fmt::Debug>::fmt`).
/// The result is a function of the slice's characters alone; it is known to
/// the library by name only.
#[verifier::external_body]
pub(crate) fn debug_quote(text: &str) -> (quoted: String)
    ensures
        quoted@ == debug_quoted(text@),
{
    format!("{:?}", text)
}

} // verus!

//! What this library takes on trust: the contracts of the functions it
//! calls in `chrono` and of one function of the standard library. Nothing
//! here is proved; everything else in the crate is proved from it.
use chrono::{NaiveDateTime, ParseError};
use vstd::prelude::*;

verus! {

/// `chrono::ParseError`, why a text did not parse as a date and time.
#[verifier::external_type_specification]
#[verifier::external_body]
pub struct ExParseError(ParseError);

/// The whole seconds from the start of 1970 to the date and time that
/// `chrono` reads in `text` under `format`; nothing where it reads none.
pub uninterp spec fn stamp_seconds(text: Seq<char>, format: Seq<char>) -> Option<i64>;

/// The lowercase form that the standard library gives to `text`.
pub uninterp spec fn lowercase_of(text: Seq<char>) -> Seq<char>;

/// `NaiveDateTime::parse_from_str` reads `text` under the `strftime` format
/// `format`; `and_utc().timestamp()` then counts the whole seconds from
/// 1970-01-01 00:00:00 to what was read, any fraction of a second left
/// out. Whether a time is read, and which, depends on the two texts alone.
#[verifier::external_body]
pub(crate) fn read_seconds(text: &str, format: &str) -> (seconds: Result<i64, ParseError>)
    ensures
        match seconds {
            Ok(count) => stamp_seconds(text@, format@) == Some(count),
            Err(_) => stamp_seconds(text@, format@) is None,
        },
{
    match NaiveDateTime::parse_from_str(text, format) {
        Ok(time) => Ok(time.and_utc().timestamp()),
        Err(error) => Err(error),
    }
}

/// `str::to_lowercase`: the lowercase form of `text`, which depends on
/// `text` alone.
#[verifier::external_body]
pub(crate) fn to_lowercase(text: &str) -> (lowered: String)
    ensures
        lowered@ == lowercase_of(text@),
{
    text.to_lowercase()
}

} // verus!

//! RFC 3339 time stamps, read with `chrono`. The items here are trusted:
//! their contract is read off the `chrono` source and is not proved.
use vstd::prelude::*;

use chrono::{DateTime, ParseError};

verus! {

#[verifier::external_type_specification]
#[verifier::external_body]
pub struct ExParseError(ParseError);

/// The Unix time, in whole seconds, of an RFC 3339 date-time, or `None` where
/// `chrono` refuses the text.
pub uninterp spec fn rfc3339_seconds(text: Seq<char>) -> Option<i64>;

/// `DateTime::parse_from_rfc3339` followed by `timestamp`: the whole seconds
/// since the Unix epoch of the instant that `text` names. Which texts parse,
/// and to what, is `rfc3339_seconds`; the one fact stated beside it is that
/// `chrono` refuses text shorter than a date and a time (19 bytes), the
/// empty text among it.
#[verifier::external_body]
pub(crate) fn parse_rfc3339_seconds(text: &str) -> (r: Result<i64, ParseError>)
    ensures
        r is Ok <==> rfc3339_seconds(text@) is Some,
        r matches Ok(t) ==> rfc3339_seconds(text@) == Some(t),
        text@.len() == 0 ==> r is Err,
{
    match DateTime::parse_from_rfc3339(text) {
        Ok(instant) => Ok(instant.timestamp()),
        Err(e) => Err(e),
    }
}

} // verus!

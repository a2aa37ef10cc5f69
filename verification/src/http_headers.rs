//! The HTTP header map that the Alpaca requests carry, from the `http`
//! types that `reqwest` re-exports. Every item here is trusted: its contract
//! is read off the `http` source and is not proved.
use vstd::prelude::*;

use reqwest::header::{HeaderMap, HeaderValue, InvalidHeaderValue};
use vstd::string::StringSliceAdditionalSpecFns;

verus! {

#[verifier::external_type_specification]
#[verifier::external_body]
#[verifier::reject_recursive_types(T)]
pub struct ExHeaderMap<T>(HeaderMap<T>);

#[verifier::external_type_specification]
#[verifier::external_body]
pub struct ExHeaderValue(HeaderValue);

#[verifier::external_type_specification]
#[verifier::external_body]
pub struct ExInvalidHeaderValue(InvalidHeaderValue);

/// What a header map holds: for each header name, in lower case, the bytes
/// of each of its values.
pub uninterp spec fn header_entries(map: HeaderMap) -> Map<Seq<char>, Seq<Seq<u8>>>;

/// The bytes that a header value holds.
pub uninterp spec fn header_value_bytes(value: HeaderValue) -> Seq<u8>;

/// A byte that `HeaderValue` accepts: a tab, or anything from a space upward but DEL.
pub open spec fn header_value_byte_ok(b: u8) -> bool {
    (b >= 32 && b != 127) || b == 9
}

/// Text whose UTF-8 bytes all make a valid header value.
pub open spec fn header_value_ok(bytes: Seq<u8>) -> bool {
    forall|i: int| 0 <= i < bytes.len() ==> header_value_byte_ok(#[trigger] bytes[i])
}

/// A character allowed in a header name (an RFC 7230 `tchar`).
pub open spec fn header_name_char(c: char) -> bool {
    ||| ('a' <= c && c <= 'z')
    ||| ('A' <= c && c <= 'Z')
    ||| ('0' <= c && c <= '9')
    ||| c == '!' || c == '#' || c == '$' || c == '%' || c == '&' || c == '\''
    ||| c == '*' || c == '+' || c == '-' || c == '.' || c == '^' || c == '_'
    ||| c == '`' || c == '|' || c == '~'
}

/// A header name that `HeaderMap::insert` takes from a static string without
/// panicking: one to 64 name characters.
pub open spec fn header_name_ok(name: Seq<char>) -> bool {
    &&& 1 <= name.len() <= 64
    &&& forall|i: int| 0 <= i < name.len() ==> header_name_char(#[trigger] name[i])
}

/// ASCII letters turned to lower case, every other character kept.
pub open spec fn ascii_lower(s: Seq<char>) -> Seq<char> {
    s.map_values(|c: char| if 'A' <= c && c <= 'Z' { ((c as u32) + 32) as char } else { c })
}

/// `HeaderMap::new`: an empty map.
#[verifier::external_body]
pub(crate) fn header_map_new() -> (fresh: HeaderMap)
    ensures
        header_entries(fresh).dom() =~= Set::<Seq<char>>::empty(),
{
    HeaderMap::new()
}

/// `HeaderValue::from_str`: succeeds exactly when every byte of `text` is a
/// tab or at least a space and not DEL; the value then holds those bytes.
#[verifier::external_body]
pub(crate) fn header_value_from_str(text: &str) -> (r: Result<HeaderValue, InvalidHeaderValue>)
    ensures
        r is Ok <==> header_value_ok(text.spec_bytes()),
        r matches Ok(value) ==> header_value_bytes(value) == text.spec_bytes(),
{
    HeaderValue::from_str(text)
}

/// `HeaderMap::insert` with a static name: the name is taken in lower case
/// and the value replaces every earlier value of that name. It panics on an
/// invalid name, and when the map outgrows its largest capacity, which no map
/// of fewer than 1024 names can do; `requires` leaves both out. The earlier
/// value that `insert` returns is dropped.
#[verifier::external_body]
pub(crate) fn header_map_insert(map: &mut HeaderMap, name: &'static str, value: HeaderValue)
    requires
        header_name_ok(name@),
        header_entries(*old(map)).len() < 1024,
    ensures
        header_entries(*final(map)) == header_entries(*old(map)).insert(
            ascii_lower(name@),
            seq![header_value_bytes(value)],
        ),
{
    map.insert(name, value);
}

} // verus!

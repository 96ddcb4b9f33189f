//! The parts of an HTTP/1 request, as the HTTP library takes them.
use http::{HeaderMap, HeaderName, HeaderValue, Method, Uri};
use vstd::prelude::*;

verus! {

/// A map of header fields of the HTTP library.
#[verifier::external_type_specification]
#[verifier::external_body]
#[verifier::reject_recursive_types(T)]
pub struct ExHeaderMap<T>(http::HeaderMap<T>);

/// The value of a header field of the HTTP library.
#[verifier::external_type_specification]
#[verifier::external_body]
pub struct ExHeaderValue(http::HeaderValue);

/// What a map of header fields holds: under each name, its first value.
pub uninterp spec fn header_fields(map: HeaderMap<HeaderValue>) -> Map<Seq<u8>, Seq<u8>>;

/// No header fields.
pub open spec fn no_fields() -> Map<Seq<u8>, Seq<u8>> {
    Map::empty()
}

/// Whether a text is a URI.
pub uninterp spec fn is_uri(text: Seq<char>) -> bool;

/// Whether a byte may stand in a token of HTTP.
pub open spec fn is_token_byte(b: u8) -> bool {
    ||| 0x30 <= b <= 0x39
    ||| 0x41 <= b <= 0x5a
    ||| 0x5e <= b <= 0x7a
    ||| b == 0x21
    ||| 0x23 <= b <= 0x27
    ||| b == 0x2a
    ||| b == 0x2b
    ||| b == 0x2d
    ||| b == 0x2e
    ||| b == 0x7c
    ||| b == 0x7e
}

/// Whether bytes are the name of a method: a token of HTTP.
pub open spec fn is_method(bytes: Seq<u8>) -> bool {
    bytes.len() > 0 && forall|i: int| 0 <= i < bytes.len() ==> is_token_byte(#[trigger] bytes[i])
}

/// Whether a byte may stand in the name of a header field in lower case: a double quote may, and
/// capital letters may not.
pub open spec fn is_name_byte(b: u8) -> bool {
    (is_token_byte(b) || b == 0x22) && !(0x41 <= b <= 0x5a)
}

/// Whether bytes are the name of a header field in lower case.
pub open spec fn is_field_name(bytes: Seq<u8>) -> bool {
    &&& 0 < bytes.len() <= 65535
    &&& forall|i: int| 0 <= i < bytes.len() ==> is_name_byte(#[trigger] bytes[i])
}

/// Whether bytes are the value of a header field: no control characters but tabulators.
pub open spec fn is_field_value(bytes: Seq<u8>) -> bool {
    forall|i: int|
        0 <= i < bytes.len() ==> ((#[trigger] bytes[i]) >= 0x20 && bytes[i] != 0x7f) || bytes[i]
            == 0x09
}

/// Whether bytes can be seen: characters of ASCII that are no control characters but tabulators.
pub open spec fn is_visible(bytes: Seq<u8>) -> bool {
    forall|i: int|
        0 <= i < bytes.len() ==> 0x20 <= (#[trigger] bytes[i]) < 0x7f || bytes[i] == 0x09
}

/// `http::Method::from_bytes`: succeeds on a token of HTTP, and on nothing else.
#[verifier::external_body]
pub(crate) fn method_is_valid(bytes: &[u8]) -> (valid: bool)
    ensures
        valid == is_method(bytes@),
{
    Method::from_bytes(bytes).is_ok()
}

/// `http::HeaderName::from_lowercase`: succeeds on a name that is not empty or too long and has
/// none but the characters for which `is_name_byte` holds.
#[verifier::external_body]
pub(crate) fn name_is_valid(bytes: &[u8]) -> (valid: bool)
    ensures
        valid == is_field_name(bytes@),
{
    HeaderName::from_lowercase(bytes).is_ok()
}

/// `http::HeaderValue::from_bytes`: succeeds on bytes without control characters other than
/// tabulators.
#[verifier::external_body]
pub(crate) fn value_is_valid(bytes: &[u8]) -> (valid: bool)
    ensures
        valid == is_field_value(bytes@),
{
    HeaderValue::from_bytes(bytes).is_ok()
}

/// `http::HeaderValue::to_str`: succeeds on visible characters of ASCII and tabulators.
#[verifier::external_body]
pub(crate) fn value_is_visible(bytes: &[u8]) -> (visible: bool)
    requires
        is_field_value(bytes@),
    ensures
        visible == is_visible(bytes@),
{
    HeaderValue::from_bytes(bytes).unwrap().to_str().is_ok()
}

/// `http::HeaderMap::new`: holds nothing.
#[verifier::external_body]
pub(crate) fn new_fields() -> (map: HeaderMap<HeaderValue>)
    ensures
        header_fields(map) == no_fields(),
{
    HeaderMap::new()
}

/// `http::HeaderMap::try_insert`: sets the value of a name and forgets the values that it had. It
/// fails where the map is full, which does not happen below six thousand names; then the map
/// stays as it is. When exactly a larger map is full depends on how its names are spread.
#[verifier::external_body]
pub(crate) fn insert_field(map: &mut HeaderMap<HeaderValue>, name: &[u8], value: &[u8]) -> (done:
    bool)
    requires
        is_field_name(name@),
        is_field_value(value@),
    ensures
        done ==> header_fields(*final(map)) == header_fields(*old(map)).insert(name@, value@),
        !done ==> header_fields(*final(map)) == header_fields(*old(map)),
        header_fields(*old(map)).dom().len() < 6000 ==> done,
{
    let name = HeaderName::from_lowercase(name).unwrap();
    let value = HeaderValue::from_bytes(value).unwrap();
    map.try_insert(name, value).is_ok()
}

/// `http::Uri::from_str`: succeeds on a URI.
#[verifier::external_body]
pub(crate) fn uri_is_valid(text: &str) -> (valid: bool)
    ensures
        valid == is_uri(text@),
{
    text.parse::<Uri>().is_ok()
}

}

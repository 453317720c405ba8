//! Header maps of the `http` crate, by the names and bytes they hold.

use vstd::prelude::*;
use vstd::string::StringSliceAdditionalSpecFns;

verus! {

/// One header value: a byte string.
#[verifier::external_type_specification]
#[verifier::external_body]
pub struct ExHeaderValue(http::HeaderValue);

/// Header names with their values.
#[verifier::external_type_specification]
#[verifier::external_body]
#[verifier::reject_recursive_types(T)]
pub struct ExHeaderMap<T>(http::HeaderMap<T>);

/// The bytes that a header value holds.
pub uninterp spec fn header_bytes(value: http::HeaderValue) -> Seq<u8>;

/// The names that a header map holds, in lower case, each with its first value.
pub uninterp spec fn header_fields(headers: http::HeaderMap<http::HeaderValue>) -> Map<
    Seq<char>,
    Seq<u8>,
>;

/// Whether `name` is a header name in the form that a header map stores.
pub open spec fn is_field_name(name: Seq<char>) -> bool {
    &&& 0 < name.len() <= 64
    &&& forall|i: int|
        0 <= i < name.len() ==> ('a' <= #[trigger] name[i] <= 'z' || '0' <= name[i] <= '9'
            || name[i] == '-')
}

/// Whether every character may stand in a header value: none is a control
/// character other than the tab.
pub open spec fn is_header_text(text: Seq<char>) -> bool {
    forall|i: int|
        0 <= i < text.len() ==> (#[trigger] text[i] >= ' ' && text[i] != '\x7f' || text[i] == '\t')
}

/// Whether every byte is a visible ASCII character, a space or a tab.
pub open spec fn is_visible(bytes: Seq<u8>) -> bool {
    forall|i: int| 0 <= i < bytes.len() ==> (32 <= #[trigger] bytes[i] < 127 || bytes[i] == 9)
}

/// The characters of an ASCII byte string.
pub open spec fn ascii_text(bytes: Seq<u8>) -> Seq<char> {
    Seq::new(bytes.len(), |i: int| bytes[i] as char)
}

/// Rendered error of a text that is no header value.
pub const INVALID_HEADER_VALUE: &'static str = "failed to parse header value";

/// Calls `http::HeaderValue::from_str`, which refuses control characters other
/// than the tab and otherwise holds the UTF-8 bytes of the text.
#[verifier::external_body]
pub(crate) fn header_value(text: &str) -> (value: Result<http::HeaderValue, String>)
    ensures
        match value {
            Ok(value) => is_header_text(text@) && header_bytes(value) == text.spec_bytes(),
            Err(cause) => !is_header_text(text@) && cause@ == INVALID_HEADER_VALUE@,
        },
{
    http::HeaderValue::from_str(text).map_err(|err| err.to_string())
}

/// Calls `http::HeaderValue::from_static`, which holds the bytes of the text and
/// panics where one of them is not visible ASCII.
#[verifier::external_body]
pub(crate) fn static_header_value(text: &'static str) -> (value: http::HeaderValue)
    requires
        is_visible(text.spec_bytes()),
    ensures
        header_bytes(value) == text.spec_bytes(),
{
    http::HeaderValue::from_static(text)
}

/// Calls `http::HeaderValue::to_str`, which succeeds on visible ASCII only.
#[verifier::external_body]
pub(crate) fn header_text(value: &http::HeaderValue) -> (text: Option<String>)
    ensures
        match text {
            Some(text) => is_visible(header_bytes(*value)) && text@ == ascii_text(
                header_bytes(*value),
            ),
            None => !is_visible(header_bytes(*value)),
        },
{
    value.to_str().ok().map(|text| text.to_owned())
}

/// Cloning a `http::HeaderValue` keeps its bytes.
pub assume_specification[ <http::HeaderValue as Clone>::clone ](
    value: &http::HeaderValue,
) -> (res: http::HeaderValue)
    ensures
        header_bytes(res) == header_bytes(*value),
;

/// Calls `http::HeaderMap::new`: the map holds no name.
#[verifier::external_body]
pub(crate) fn header_map() -> (headers: http::HeaderMap)
    ensures
        header_fields(headers).dom() == Set::<Seq<char>>::empty(),
{
    http::HeaderMap::new()
}

/// Calls `http::HeaderMap::get`: the first value under the name, if there is one.
#[verifier::external_body]
pub(crate) fn header_get<'a>(headers: &'a http::HeaderMap, name: &str) -> (value: Option<
    &'a http::HeaderValue,
>)
    requires
        is_field_name(name@),
    ensures
        match value {
            Some(value) => header_fields(*headers).contains_key(name@) && header_bytes(*value)
                == header_fields(*headers)[name@],
            None => !header_fields(*headers).contains_key(name@),
        },
{
    headers.get(name)
}

/// Calls `http::HeaderMap::insert`: the value replaces whatever the name held.
/// The bound on the number of names stays far below the size at which the map
/// refuses to grow.
#[verifier::external_body]
pub(crate) fn header_insert(
    headers: &mut http::HeaderMap,
    name: &'static str,
    value: http::HeaderValue,
)
    requires
        is_field_name(name@),
        header_fields(*old(headers)).dom().finite(),
        header_fields(*old(headers)).len() < 16,
    ensures
        header_fields(*final(headers)) == header_fields(*old(headers)).insert(
            name@,
            header_bytes(value),
        ),
{
    headers.insert(http::HeaderName::from_static(name), value);
}

/// A text can stand in a header exactly where none of its characters is a control
/// character, by code below 32 or 127, other than the tab.
pub proof fn law_header_text_by_code(text: Seq<char>)
    ensures
        is_header_text(text) <==> forall|i: int|
            0 <= i < text.len() ==> {
                let code = #[trigger] text[i] as int;
                code == 9 || 32 <= code && code != 127
            },
{
}

} // verus!

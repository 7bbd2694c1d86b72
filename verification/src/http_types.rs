//! The header and status types of the HTTP stack, as this crate sees them.
//!
//! Header names, header values and header maps are made and read by the
//! `http` crate, which `reqwest` re-exports. Verus does not look inside them:
//! every function of this module states what the outside code does and is
//! believed, not proved. The rest of the crate is verified against these
//! statements.

use crate::text::lowercase;
use vstd::prelude::*;
use vstd::utf8::encode_utf8;

verus! {

/// A header name of the `http` crate, carried as it is.
#[verifier::external_type_specification]
#[verifier::external_body]
pub struct ExHeaderName(reqwest::header::HeaderName);

/// A header value of the `http` crate, carried as it is.
#[verifier::external_type_specification]
#[verifier::external_body]
pub struct ExHeaderValue(reqwest::header::HeaderValue);

/// The header map of the `http` crate, carried as it is.
#[verifier::external_type_specification]
#[verifier::external_body]
#[verifier::reject_recursive_types(T)]
pub struct ExHeaderMap<T>(reqwest::header::HeaderMap<T>);

/// The text of a header name, which is always in lower case.
pub uninterp spec fn name_text(name: reqwest::header::HeaderName) -> Seq<char>;

/// The bytes of a header value.
pub uninterp spec fn value_bytes(value: reqwest::header::HeaderValue) -> Seq<u8>;

/// What a header map holds: for each name in it, the first value stored
/// under that name.
pub uninterp spec fn header_fields(map: reqwest::header::HeaderMap) -> Map<Seq<char>, Seq<u8>>;

/// The multi-line debug rendering of a header map.
pub uninterp spec fn header_listing(map: reqwest::header::HeaderMap) -> Seq<char>;

/// The standard reason phrase of a status code, where it has one.
pub uninterp spec fn canonical_reason_of(code: u16) -> Option<Seq<char>>;

/// A header map that holds at most this many names has room for one more:
/// an insertion into it cannot reach the size limit of the map, which for a
/// map with many colliding names lies at a fifth of its 32768 slots. A map
/// whose names do not collide takes more, but how many depends on the names.
pub const HEADER_ROOM: usize = 6553;

/// The longest header name, in bytes.
pub const MAX_NAME_LEN: usize = 65535;

/// The characters of a header name: letters, digits and the marks that
/// are no separators.
pub open spec fn is_token_char(c: char) -> bool {
    ||| 'a' <= c <= 'z'
    ||| 'A' <= c <= 'Z'
    ||| '0' <= c <= '9'
    ||| c == '!'
    ||| c == '#'
    ||| c == '$'
    ||| c == '%'
    ||| c == '&'
    ||| c == '\''
    ||| c == '*'
    ||| c == '+'
    ||| c == '-'
    ||| c == '.'
    ||| c == '^'
    ||| c == '_'
    ||| c == '`'
    ||| c == '|'
    ||| c == '~'
}

/// A legal header name: not empty, not too long, made of token characters.
pub open spec fn is_header_name(s: Seq<char>) -> bool {
    &&& 0 < s.len() <= MAX_NAME_LEN
    &&& forall|i: int| 0 <= i < s.len() ==> is_token_char(#[trigger] s[i])
}

/// The characters of a header value: the tab and everything from the space
/// on, but for the delete character.
pub open spec fn is_value_char(c: char) -> bool {
    c == '\t' || (' ' <= c && c as u32 != 0x7f)
}

/// A legal header value: any text without control characters other than tabs.
pub open spec fn is_header_value(s: Seq<char>) -> bool {
    forall|i: int| 0 <= i < s.len() ==> is_value_char(#[trigger] s[i])
}

/// The mapping without any header.
pub open spec fn field_map_empty() -> Map<Seq<char>, Seq<u8>> {
    Map::empty()
}

/// A byte that stands for a visible ASCII character, a space or a tab.
pub open spec fn is_visible_byte(b: u8) -> bool {
    32 <= b < 127 || b == 9
}

/// Bytes that can be shown as text: each of them is visible ASCII.
pub open spec fn is_visible(bytes: Seq<u8>) -> bool {
    forall|i: int| 0 <= i < bytes.len() ==> is_visible_byte(#[trigger] bytes[i])
}

/// The text that visible ASCII bytes stand for.
pub open spec fn ascii_text(bytes: Seq<u8>) -> Seq<char> {
    Seq::new(bytes.len(), |i: int| bytes[i] as char)
}

/// `HeaderMap::new`: a map that holds nothing.
#[verifier::external_body]
pub(crate) fn empty_headers() -> (r: reqwest::header::HeaderMap)
    ensures
        header_fields(r) == field_map_empty(),
{
    reqwest::header::HeaderMap::new()
}

/// `HeaderName::from_bytes` on the bytes of `s`. It accepts a name of 1 to
/// 65535 bytes, each of which is a token character, and puts it in lower
/// case. A character outside ASCII has only bytes from 128 on, none of
/// which is a token character, so the condition is stated over characters.
#[verifier::external_body]
pub(crate) fn name_from_text(s: &str) -> (r: Option<reqwest::header::HeaderName>)
    ensures
        r is Some <==> is_header_name(s@),
        r matches Some(name) ==> name_text(name) == lowercase(s@),
{
    reqwest::header::HeaderName::from_bytes(s.as_bytes()).ok()
}

/// `HeaderValue::from_str`. It accepts a text in which every byte is a tab,
/// or at least 32 and not 127, and keeps the bytes of the text. The bytes of
/// a character outside ASCII are all 128 or more, so the condition is stated
/// over characters.
#[verifier::external_body]
pub(crate) fn value_from_text(s: &str) -> (r: Option<reqwest::header::HeaderValue>)
    ensures
        r is Some <==> is_header_value(s@),
        r matches Some(value) ==> value_bytes(value) == encode_utf8(s@),
{
    reqwest::header::HeaderValue::from_str(s).ok()
}

/// `HeaderMap::try_insert`, which says whether the map took the header.
/// Where it did, `value` is the only value under `name` and the other names
/// keep theirs; where the map had reached its size limit, it holds what it
/// held. A map with at most `HEADER_ROOM` names always takes one more.
#[verifier::external_body]
pub(crate) fn try_insert_field(
    map: &mut reqwest::header::HeaderMap,
    name: reqwest::header::HeaderName,
    value: reqwest::header::HeaderValue,
) -> (r: bool)
    ensures
        r ==> header_fields(*final(map)) == header_fields(*old(map)).insert(
            name_text(name),
            value_bytes(value),
        ),
        !r ==> header_fields(*final(map)) == header_fields(*old(map)),
        header_fields(*old(map)).dom().len() <= HEADER_ROOM ==> r,
{
    map.try_insert(name, value).is_ok()
}

/// `HeaderMap::get` with a text as the key. The text is read as a header
/// name, in any case of its letters; the result is the first value stored
/// under that name, and `None` where the text is no legal name or the map
/// has no such name.
#[verifier::external_body]
pub(crate) fn lookup<'a>(
    map: &'a reqwest::header::HeaderMap,
    name: &str,
) -> (r: Option<&'a reqwest::header::HeaderValue>)
    ensures
        r is Some <==> (is_header_name(name@) && header_fields(*map).contains_key(
            lowercase(name@),
        )),
        r matches Some(value) ==> value_bytes(*value) == header_fields(*map)[lowercase(name@)],
{
    map.get(name)
}

/// `HeaderValue::to_str`: the value as text, where each of its bytes is
/// visible ASCII, a space or a tab.
#[verifier::external_body]
pub(crate) fn value_text(value: &reqwest::header::HeaderValue) -> (r: Option<String>)
    ensures
        r is Some <==> is_visible(value_bytes(*value)),
        r matches Some(s) ==> s@ == ascii_text(value_bytes(*value)),
{
    value.to_str().ok().map(|s| s.to_string())
}

/// The `Debug` rendering of a `HeaderMap` in its multi-line form, which lists
/// the map's entries in the order in which the map walks them.
#[verifier::external_body]
pub(crate) fn listing(map: &reqwest::header::HeaderMap) -> (r: String)
    ensures
        r@ == header_listing(*map),
{
    format!("{:#?}", map)
}

/// `StatusCode::canonical_reason` for the status code with number `code`; a
/// number that is no status code has no reason phrase.
#[verifier::external_body]
pub(crate) fn reason_phrase(code: u16) -> (r: Option<String>)
    ensures
        r is Some <==> canonical_reason_of(code) is Some,
        r matches Some(s) ==> canonical_reason_of(code) == Some(s@),
{
    reqwest::StatusCode::from_u16(code).ok().and_then(|s| s.canonical_reason()).map(
        |p| p.to_string(),
    )
}

} // verus!

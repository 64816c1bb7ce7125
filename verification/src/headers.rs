//! Header maps of the HTTP layer, as far as the forwarder reads and edits
//! them. The map itself is the HTTP library's; what is said of it here is
//! said over the values it holds under each name.

use vstd::prelude::*;
use vstd::string::StringSliceAdditionalSpecFns;
use axum::http::HeaderMap;
use axum::http::HeaderValue;

verus! {

/// The HTTP library's header value, an opaque string of bytes.
#[verifier::external_type_specification]
#[verifier::external_body]
pub struct ExHeaderValue(HeaderValue);

/// The HTTP library's header map, a multimap from header names to values.
#[verifier::external_type_specification]
#[verifier::external_body]
#[verifier::reject_recursive_types(T)]
pub struct ExHeaderMap<T>(HeaderMap<T>);

/// What a header map holds: under each header name, written in lower case,
/// the bytes of its values, the first one first.
pub uninterp spec fn header_values(map: HeaderMap<HeaderValue>) -> Map<Seq<char>, Seq<Seq<u8>>>;

/// How many header names a header map holds, each counted once however many
/// values it has.
pub uninterp spec fn header_count(map: HeaderMap<HeaderValue>) -> nat;

/// A header map that holds fewer names than this always takes one more.
/// The map can refuse a name only when it has to grow beyond its largest
/// table, and it has to grow only when it holds at least a fifth of that
/// table's slots.
pub const HEADER_ROOM: usize = 6554;

/// The map has room for two more names.
pub open spec fn has_room_for_two(map: HeaderMap<HeaderValue>) -> bool {
    header_count(map) + 1 < HEADER_ROOM
}

/// A character that a header name may hold: a lower-case letter, a digit, or
/// one of the punctuation marks of an HTTP token.
pub open spec fn is_name_char(c: char) -> bool {
    ||| 'a' as u32 <= c as u32 <= 'z' as u32
    ||| '0' as u32 <= c as u32 <= '9' as u32
    ||| c == '!'
    ||| c == '#'
    ||| c == '$'
    ||| c == '%'
    ||| c == '&'
    ||| c == '\''
    ||| c == '*'
    ||| c == '+'
    ||| c == '-'
    ||| c == '.'
    ||| c == '^'
    ||| c == '_'
    ||| c == '`'
    ||| c == '|'
    ||| c == '~'
}

/// A short header name in lower case: not empty, at most 64 characters, all
/// of them name characters. The header map keeps such a name as it is
/// written.
pub open spec fn is_header_name(name: Seq<char>) -> bool {
    &&& 1 <= name.len() <= 64
    &&& forall|i: int| 0 <= i < name.len() ==> is_name_char(#[trigger] name[i])
}

/// A byte that a header value may hold: a tab, or anything from the space
/// upwards but the delete character.
pub open spec fn is_value_byte(b: u8) -> bool {
    (b >= 32 && b != 127) || b == 9
}

/// Bytes that make a header value.
pub open spec fn is_header_value(bytes: Seq<u8>) -> bool {
    forall|i: int| 0 <= i < bytes.len() ==> is_value_byte(#[trigger] bytes[i])
}

/// A byte of visible text: a tab, or a printable ASCII character.
pub open spec fn is_text_byte(b: u8) -> bool {
    (b >= 32 && b < 127) || b == 9
}

/// The first value under `name` as text: present where the map holds the
/// name and the value is visible text throughout.
pub open spec fn first_text(values: Map<Seq<char>, Seq<Seq<u8>>>, name: Seq<char>) -> Option<
    Seq<char>,
> {
    if values.contains_key(name) && values[name].len() > 0 && forall|i: int|
        0 <= i < values[name][0].len() ==> is_text_byte(#[trigger] values[name][0][i]) {
        Some(values[name][0].map_values(|b: u8| b as char))
    } else {
        None
    }
}

/// How an attempt to set a header ended.
#[derive(Clone, Copy, Debug, PartialEq, Eq, Structural)]
pub enum HeaderEdit {
    /// The header now has the one value given.
    Done,
    /// The text is no header value; the map is as it was.
    BadValue,
    /// The map has no room left; it is as it was.
    Full,
}

/// Sets the header `name` to the single value `value`.
///
/// Builds the value with `HeaderValue::from_str`, which accepts exactly the
/// texts whose bytes are all value bytes, and stores it with
/// `HeaderMap::try_insert`, which replaces every value the name had and
/// fails, leaving the map alone, only for want of room. A map that holds
/// fewer than `HEADER_ROOM` names never fails so, and the edit adds at most
/// one name.
#[verifier::external_body]
pub(crate) fn set_header(map: &mut HeaderMap<HeaderValue>, name: &'static str, value: &str) -> (edit:
    HeaderEdit)
    requires
        is_header_name(name@),
    ensures
        (edit == HeaderEdit::BadValue) == !is_header_value(value.spec_bytes()),
        edit == HeaderEdit::Done ==> header_values(*final(map)) == header_values(*old(map)).insert(
            name@,
            seq![value.spec_bytes()],
        ),
        edit != HeaderEdit::Done ==> header_values(*final(map)) == header_values(*old(map)),
        header_count(*old(map)) < HEADER_ROOM ==> edit != HeaderEdit::Full,
        header_count(*final(map)) <= header_count(*old(map)) + 1,
{
    match HeaderValue::from_str(value) {
        Ok(v) => match map.try_insert(name, v) {
            Ok(_) => HeaderEdit::Done,
            Err(_) => HeaderEdit::Full,
        },
        Err(_) => HeaderEdit::BadValue,
    }
}

/// Removes the header `name` with all its values (`HeaderMap::remove`). The
/// map holds no more names than before.
#[verifier::external_body]
pub(crate) fn remove_header(map: &mut HeaderMap<HeaderValue>, name: &str)
    requires
        is_header_name(name@),
    ensures
        header_values(*final(map)) == header_values(*old(map)).remove(name@),
        header_count(*final(map)) <= header_count(*old(map)),
{
    map.remove(name);
}

/// The first value of the header `name`, where it is visible text.
///
/// `HeaderMap::get` hands out the first value under the name, and
/// `HeaderValue::to_str` accepts it if every byte is a text byte.
#[verifier::external_body]
pub(crate) fn header_text(map: &HeaderMap<HeaderValue>, name: &str) -> (text: Option<String>)
    requires
        is_header_name(name@),
    ensures
        match text {
            Some(t) => first_text(header_values(*map), name@) == Some(t@),
            None => first_text(header_values(*map), name@) is None,
        },
{
    match map.get(name) {
        Some(value) => match value.to_str() {
            Ok(text) => Some(text.to_string()),
            Err(_) => None,
        },
        None => None,
    }
}

/// A copy of the map, holding what it holds, under as many names
/// (`HeaderMap::clone`).
#[verifier::external_body]
pub(crate) fn copy_headers(map: &HeaderMap<HeaderValue>) -> (copy: HeaderMap<HeaderValue>)
    ensures
        header_values(copy) == header_values(*map),
        header_count(copy) == header_count(*map),
{
    map.clone()
}

/// The header names that the balancer reads or edits are short header
/// names in lower case.
pub proof fn lemma_known_names()
    ensures
        is_header_name("host"@),
        is_header_name("referer"@),
        is_header_name("accept-encoding"@),
        is_header_name("content-security-policy"@),
        is_header_name("x-frame-options"@),
        is_header_name("user-agent"@),
{
    reveal_strlit("host");
    reveal_strlit("referer");
    reveal_strlit("accept-encoding");
    reveal_strlit("content-security-policy");
    reveal_strlit("x-frame-options");
    reveal_strlit("user-agent");
}

/// Whether the text can be a header value.
pub fn is_value_text(value: &str) -> (ok: bool)
    ensures
        ok == is_header_value(value.spec_bytes()),
{
    let bytes = value.as_bytes();
    let mut i: usize = 0;
    while i < bytes.len()
        invariant
            i <= bytes.len(),
            bytes@ == value.spec_bytes(),
            forall|j: int| 0 <= j < i ==> is_value_byte(#[trigger] bytes@[j]),
        decreases bytes.len() - i,
    {
        let b = bytes[i];
        if !((b >= 32 && b != 127) || b == 9) {
            return false;
        }
        i = i + 1;
    }
    true
}

} // verus!

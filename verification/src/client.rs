//! Client identities: a stable digest of where a request comes from and
//! what sent it, used as the key of the affinity map.

use vstd::prelude::*;
use vstd::string::StringSliceAdditionalSpecFns;
use vstd::utf8::encode_utf8;
use axum::http::HeaderMap;
use axum::http::HeaderValue;
use crate::headers::{first_text, header_text, header_values, lemma_known_names};
use crate::text::join;

verus! {

/// The MD5 digest of a string of bytes: sixteen bytes.
pub uninterp spec fn md5_digest(data: Seq<u8>) -> Seq<u8>;

/// The MD5 digest of `data`, as `md5::compute` gives it.
#[verifier::external_body]
fn md5_of(data: &[u8]) -> (digest: [u8; 16])
    ensures
        digest@ == md5_digest(data@),
{
    md5::compute(data).0
}

/// The lower-case hexadecimal digit for a value from 0 to 15.
pub open spec fn hex_digit(nibble: int) -> char {
    if nibble < 10 {
        (48 + nibble) as u8 as char
    } else {
        (87 + nibble) as u8 as char
    }
}

/// Bytes written in lower-case hexadecimal, two digits for each byte, the
/// high half first.
pub open spec fn hex_lower(bytes: Seq<u8>) -> Seq<char> {
    Seq::new(
        2 * bytes.len(),
        |i: int|
            if i % 2 == 0 {
                hex_digit(bytes[i / 2] as int / 16)
            } else {
                hex_digit(bytes[i / 2] as int % 16)
            },
    )
}

/// The identity of a client: the digest of its address followed by its
/// user-agent text, in hexadecimal.
pub open spec fn client_key(ip: Seq<char>, user_agent: Seq<char>) -> Seq<char> {
    hex_lower(md5_digest(encode_utf8(ip + user_agent)))
}

/// The user-agent text of a request: the first `user-agent` header where it
/// is visible text, else nothing.
pub open spec fn user_agent_of(values: Map<Seq<char>, Seq<Seq<u8>>>) -> Seq<char> {
    match first_text(values, "user-agent"@) {
        Some(text) => text,
        None => Seq::empty(),
    }
}

/// The hexadecimal digit for a value below sixteen.
fn digit(nibble: u8) -> (c: char)
    requires
        nibble < 16,
    ensures
        c == hex_digit(nibble as int),
{
    if nibble < 10 {
        (48 + nibble) as char
    } else {
        (87 + nibble) as char
    }
}

/// Writes a digest in lower-case hexadecimal.
pub fn to_hex(digest: &[u8; 16]) -> (text: String)
    ensures
        text@ == hex_lower(digest@),
{
    let mut text = String::new();
    let mut i: usize = 0;
    while i < 16
        invariant
            i <= 16,
            text@.len() == 2 * i,
            forall|j: int| 0 <= j < 2 * i ==> text@[j] == hex_lower(digest@)[j],
        decreases 16 - i,
    {
        let b = digest[i];
        text.push(digit(b / 16));
        text.push(digit(b % 16));
        i = i + 1;
    }
    assert(text@ =~= hex_lower(digest@));
    text
}

/// The identity of the client at address `ip` that names itself
/// `user_agent`.
pub fn client_id(ip: &str, user_agent: &str) -> (id: String)
    ensures
        id@ == client_key(ip@, user_agent@),
        id@.len() == 32,
{
    let raw = join(ip, user_agent);
    let digest = md5_of(raw.as_str().as_bytes());
    to_hex(&digest)
}

/// The identity of the client at address `ip` whose request came with
/// these headers.
pub fn get_client_id(ip: &str, headers: &HeaderMap<HeaderValue>) -> (id: String)
    ensures
        id@ == client_key(ip@, user_agent_of(header_values(*headers))),
        id@.len() == 32,
{
    proof {
        lemma_known_names();
    }
    match header_text(headers, "user-agent") {
        Some(user_agent) => client_id(ip, user_agent.as_str()),
        None => {
            let id = client_id(ip, "");
            proof {
                reveal_strlit("");
                assert(ip@ + ""@ =~= ip@ + Seq::<char>::empty());
            }
            id
        },
    }
}

} // verus!

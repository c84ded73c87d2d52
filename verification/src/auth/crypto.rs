//! Digests, tags and encodings that other crates compute.

use base64::engine::general_purpose::URL_SAFE_NO_PAD;
use base64::Engine;
use hmac::{Hmac, KeyInit, Mac};
use sha2::{Digest, Sha256};
use vstd::prelude::*;

use crate::number::{all_hex, hex_lower, hex_value};

verus! {

/// The HMAC-SHA-256 tag of a message under a key.
pub uninterp spec fn hmac_tag(key: Seq<u8>, message: Seq<u8>) -> Seq<u8>;

/// `hmac::Hmac<Sha256>`: the tag that `finalize` gives after `new_from_slice` and one `update`.
/// A key of any length is taken. The contract says that the tag has 32 bytes and depends on key
/// and message alone.
#[verifier::external_body]
pub(crate) fn hmac_sha256(key: &[u8], message: &[u8]) -> (r: Vec<u8>)
    ensures
        r@ == hmac_tag(key@, message@),
        r@.len() == 32,
{
    let mut mac = Hmac::<Sha256>::new_from_slice(key).unwrap();
    mac.update(message);
    mac.finalize().into_bytes().to_vec()
}

/// `hmac::Mac::verify_slice`: whether `tag` is the whole tag of the message under the key.
#[verifier::external_body]
pub(crate) fn hmac_verify(key: &[u8], message: &[u8], tag: &[u8]) -> (r: bool)
    ensures
        r == (tag@ == hmac_tag(key@, message@)),
{
    let mut mac = Hmac::<Sha256>::new_from_slice(key).unwrap();
    mac.update(message);
    mac.verify_slice(tag).is_ok()
}

/// The SHA-256 digest of data.
pub uninterp spec fn sha256_of(data: Seq<u8>) -> Seq<u8>;

/// `sha2::Sha256::digest`: the digest of data, which has 32 bytes and depends on the data alone.
#[verifier::external_body]
pub(crate) fn sha256(data: &[u8]) -> (r: Vec<u8>)
    ensures
        r@ == sha256_of(data@),
        r@.len() == 32,
{
    Sha256::digest(data).to_vec()
}

/// Bytes as lower-case hexadecimal digits, two for each byte, the higher one first.
pub open spec fn hex_text(bytes: Seq<u8>) -> Seq<char> {
    Seq::new(
        2 * bytes.len(),
        |i: int|
            if i % 2 == 0 {
                hex_lower((bytes[i / 2] / 16) as nat)
            } else {
                hex_lower((bytes[i / 2] % 16) as nat)
            },
    )
}

/// `hex::encode`: bytes as lower-case hexadecimal digits.
#[verifier::external_body]
pub(crate) fn hex_encode(bytes: &[u8]) -> (r: String)
    requires
        bytes@.len() <= 0x2000_0000,
    ensures
        r@ == hex_text(bytes@),
{
    hex::encode(bytes)
}

/// The text is an even number of hexadecimal digits, in either case.
pub open spec fn is_hex_text(s: Seq<char>) -> bool {
    s.len() % 2 == 0 && all_hex(s)
}

/// The bytes that pairs of hexadecimal digits denote.
pub open spec fn hex_bytes(s: Seq<char>) -> Seq<u8> {
    Seq::new(
        s.len() / 2,
        |i: int| (16 * hex_value(s[2 * i]) + hex_value(s[2 * i + 1])) as u8,
    )
}

/// `hex::decode`: the bytes that hexadecimal digits denote, and nothing for any other text.
#[verifier::external_body]
pub(crate) fn hex_decode(s: &str) -> (r: Option<Vec<u8>>)
    ensures
        match r {
            Some(b) => is_hex_text(s@) && b@ == hex_bytes(s@),
            None => !is_hex_text(s@),
        },
{
    hex::decode(s).ok()
}

/// A character of the URL-safe alphabet of base64.
pub open spec fn is_base64url(c: char) -> bool {
    'A' <= c <= 'Z' || 'a' <= c <= 'z' || '0' <= c <= '9' || c == '-' || c == '_'
}

/// What bytes are in URL-safe base64 without padding.
pub uninterp spec fn base64url(bytes: Seq<u8>) -> Seq<char>;

/// What a text denotes in URL-safe base64 without padding, or how the failure to read it is
/// reported.
pub uninterp spec fn base64url_read(text: Seq<char>) -> Result<Seq<u8>, Seq<char>>;

/// A text is read as these bytes.
pub open spec fn reads_as(text: Seq<char>, bytes: Seq<u8>) -> bool {
    base64url_read(text) == Ok::<Seq<u8>, Seq<char>>(bytes)
}

/// `base64::Engine::encode` of `URL_SAFE_NO_PAD`: bytes in base64, of which the contract says
/// that it depends on the bytes alone, has characters of the URL-safe alphabet only, and is read
/// back as the bytes.
#[verifier::external_body]
pub(crate) fn base64_encode(bytes: &[u8]) -> (r: String)
    requires
        bytes@.len() <= 0x4000_0000,
    ensures
        r@ == base64url(bytes@),
        forall|i: int| 0 <= i < r@.len() ==> is_base64url(#[trigger] r@[i]),
        reads_as(r@, bytes@),
{
    URL_SAFE_NO_PAD.encode(bytes)
}

/// The view of what was read.
pub open spec fn bytes_view(r: Result<Vec<u8>, String>) -> Result<Seq<u8>, Seq<char>> {
    match r {
        Ok(b) => Ok(b@),
        Err(e) => Err(e@),
    }
}

/// `base64::Engine::decode` of `URL_SAFE_NO_PAD`: the bytes that a text denotes, or the text of
/// the error. The contract says that either depends on the text alone.
#[verifier::external_body]
pub(crate) fn base64_decode(text: &str) -> (r: Result<Vec<u8>, String>)
    ensures
        bytes_view(r) == base64url_read(text@),
{
    URL_SAFE_NO_PAD.decode(text).map_err(|e| e.to_string())
}

/// How a character stands in a JSON string: a quote, a backslash and a control character are
/// escaped, any other stands for itself.
pub open spec fn json_escape(c: char) -> Seq<char> {
    if c == '"' {
        seq!['\\', '"']
    } else if c == '\\' {
        seq!['\\', '\\']
    } else if c == '\u{8}' {
        seq!['\\', 'b']
    } else if c == '\t' {
        seq!['\\', 't']
    } else if c == '\n' {
        seq!['\\', 'n']
    } else if c == '\u{c}' {
        seq!['\\', 'f']
    } else if c == '\r' {
        seq!['\\', 'r']
    } else if ' ' > c {
        seq!['\\', 'u', '0', '0', hex_lower(c as u32 as nat / 16), hex_lower(c as u32 as nat % 16)]
    } else {
        seq![c]
    }
}

/// The characters of a text as they stand in a JSON string.
pub open spec fn json_escaped(s: Seq<char>) -> Seq<char>
    decreases s.len(),
{
    if s.len() == 0 {
        Seq::empty()
    } else {
        json_escape(s[0]) + json_escaped(s.drop_first())
    }
}

/// A text as a JSON string, with its quotes.
pub open spec fn json_string(s: Seq<char>) -> Seq<char> {
    seq!['"'] + json_escaped(s) + seq!['"']
}

/// `serde_json::to_string` of a text: the text as a JSON string, with the short escapes where
/// there are such, and `\u` with lower-case digits for the other control characters.
#[verifier::external_body]
pub(crate) fn json_quote(s: &str) -> (r: String)
    requires
        s@.len() <= 0x1000_0000,
    ensures
        r@ == json_string(s@),
{
    serde_json::to_string(s).unwrap()
}

} // verus!

//! What is taken from other crates and from the standard library on trust:
//! each function here makes one outside call, and its contract says what is
//! relied on.

use vstd::prelude::*;
use vstd::utf8::{decode_utf8, valid_utf8};

use crate::text;

verus! {

// ---------------------------------------------------------------------------
// base64
// ---------------------------------------------------------------------------

/// The characters of the URL-safe base64 alphabet.
pub open spec fn is_url_safe(c: char) -> bool {
    'A' <= c <= 'Z' || 'a' <= c <= 'z' || '0' <= c <= '9' || c == '-' || c == '_'
}

/// Nothing but characters of the URL-safe base64 alphabet.
pub open spec fn url_safe(s: Seq<char>) -> bool {
    forall|i: int| 0 <= i < s.len() ==> is_url_safe(#[trigger] s[i])
}

/// The base64 text of some bytes, in the URL-safe alphabet without padding.
pub uninterp spec fn base64_text(bytes: Seq<u8>) -> Seq<char>;

/// The bytes that a base64 text stands for, if it is one.
pub uninterp spec fn base64_bytes(text: Seq<char>) -> Option<Seq<u8>>;

/// `base64::Engine::encode` on the engine `URL_SAFE_NO_PAD`. The text is a
/// function of the bytes, is made of the alphabet's characters alone (there
/// is no padding), and decodes to the bytes again.
#[verifier::external_body]
pub(crate) fn base64_encode(bytes: &[u8]) -> (text: String)
    ensures
        text@ == base64_text(bytes@),
        url_safe(text@),
        base64_bytes(text@) == Some(bytes@),
{
    base64::Engine::encode(&base64::engine::general_purpose::URL_SAFE_NO_PAD, bytes)
}

/// `base64::Engine::decode` on the engine `URL_SAFE_NO_PAD`: the bytes, or
/// None where the text is no base64 of that kind.
#[verifier::external_body]
pub(crate) fn base64_decode(text: &str) -> (bytes: Option<Vec<u8>>)
    ensures
        match bytes {
            Some(bytes) => base64_bytes(text@) == Some(bytes@),
            None => base64_bytes(text@) is None,
        },
{
    base64::Engine::decode(&base64::engine::general_purpose::URL_SAFE_NO_PAD, text).ok()
}

// ---------------------------------------------------------------------------
// hmac and sha2
// ---------------------------------------------------------------------------

/// The HMAC-SHA-256 of some data under a key.
pub uninterp spec fn hmac_sha256(key: Seq<u8>, data: Seq<u8>) -> Seq<u8>;

/// `hmac::Hmac::<sha2::Sha256>`: made from a key, which may be of any length,
/// updated with the data and finalized. The code is a function of the two.
#[verifier::external_body]
pub(crate) fn mac_of(key: &[u8], data: &[u8]) -> (code: Vec<u8>)
    ensures
        code@ == hmac_sha256(key@, data@),
        code@.len() == 32,
{
    let mut mac = <hmac::Hmac<sha2::Sha256> as hmac::Mac>::new_from_slice(key)
        .expect("hmac accepts any key length");
    hmac::Mac::update(&mut mac, data);
    hmac::Mac::finalize(mac).into_bytes().to_vec()
}

// ---------------------------------------------------------------------------
// rand
// ---------------------------------------------------------------------------

/// `rand::RngCore::fill_bytes` on `rand::rng()`: as many random bytes as
/// asked for. Nothing is said of their values.
#[verifier::external_body]
pub(crate) fn random_bytes(count: usize) -> (bytes: Vec<u8>)
    requires
        count <= isize::MAX,
    ensures
        bytes@.len() == count,
{
    let mut bytes = vec![0u8; count];
    rand::RngCore::fill_bytes(&mut rand::rng(), &mut bytes);
    bytes
}

// ---------------------------------------------------------------------------
// std
// ---------------------------------------------------------------------------

/// `std::time::SystemTime::now`, in whole seconds since the Unix epoch; zero
/// for a clock before it. Nothing is said of the value.
#[verifier::external_body]
pub(crate) fn unix_seconds() -> (seconds: u64) {
    std::time::SystemTime::now()
        .duration_since(std::time::UNIX_EPOCH)
        .map(|d| d.as_secs())
        .unwrap_or(0)
}

/// `String::from_utf8`: the text that the bytes encode, exactly where they
/// are valid UTF-8.
#[verifier::external_body]
pub(crate) fn utf8_text(bytes: Vec<u8>) -> (text: Option<String>)
    ensures
        match text {
            Some(text) => valid_utf8(bytes@) && text@ == decode_utf8(bytes@),
            None => !valid_utf8(bytes@),
        },
{
    String::from_utf8(bytes).ok()
}

/// The lower-case form of a character beyond ASCII, by Unicode's mapping.
pub uninterp spec fn lowercase_of(c: char) -> Seq<char>;

/// The lower-case form of a character.
pub open spec fn lower_form(c: char) -> Seq<char> {
    if c as u32 <= 0x7f {
        seq![text::lower(c)]
    } else {
        lowercase_of(c)
    }
}

/// No ASCII capital.
pub open spec fn no_capitals(s: Seq<char>) -> bool {
    forall|i: int| 0 <= i < s.len() ==> !('A' <= #[trigger] s[i] <= 'Z')
}

/// `char::to_lowercase`: the characters of the lower-case form, which is a
/// function of the character. For an ASCII character it is the one ASCII
/// character of `text::lower`; for another it is what Unicode maps it to.
/// No ASCII capital is in lower case, so none comes out.
#[verifier::external_body]
pub(crate) fn lowercase(c: char) -> (chars: Vec<char>)
    ensures
        chars@ == (if c as u32 <= 0x7f {
            seq![text::lower(c)]
        } else {
            lowercase_of(c)
        }),
        no_capitals(chars@),
{
    c.to_lowercase().collect()
}

/// A text as `Debug` shows it: quoted and escaped.
pub uninterp spec fn debug_of(s: Seq<char>) -> Seq<char>;

/// The `Debug` form of a `str`, by `format!`. It is a function of the text.
#[verifier::external_body]
pub(crate) fn debug_text(s: &str) -> (shown: String)
    ensures
        shown@ == debug_of(s@),
{
    format!("{s:?}")
}

// ---------------------------------------------------------------------------
// uuid
// ---------------------------------------------------------------------------

/// The lower-case hexadecimal digit of a number below sixteen.
pub open spec fn hex_lower(n: nat) -> char {
    if n < 10 {
        (0x30 + n) as char
    } else {
        (0x57 + n) as char
    }
}

/// The last `len` lower-case hexadecimal digits of a number.
pub open spec fn hex_digits(n: nat, len: nat) -> Seq<char>
    decreases len,
{
    if len == 0 {
        Seq::empty()
    } else {
        hex_digits(n / 16, (len - 1) as nat).push(hex_lower(n % 16))
    }
}

/// An identifier as thirty-two hexadecimal digits.
pub open spec fn id_digits(id: u128) -> Seq<char> {
    hex_digits(id as nat, 32)
}

/// An identifier as it is usually written: digits in five groups.
pub open spec fn id_text(id: u128) -> Seq<char> {
    let d = id_digits(id);
    d.subrange(0, 8) + "-"@ + d.subrange(8, 12) + "-"@ + d.subrange(12, 16) + "-"@ + d.subrange(
        16,
        20,
    ) + "-"@ + d.subrange(20, 32)
}

/// `uuid::Uuid::from_u128` and its `simple` form: the digits.
#[verifier::external_body]
pub(crate) fn simple_id(id: u128) -> (digits: String)
    ensures
        digits@ == id_digits(id),
{
    uuid::Uuid::from_u128(id).simple().to_string()
}

/// `uuid::Uuid::from_u128` and its `Display`: the digits in five groups.
#[verifier::external_body]
pub(crate) fn written_id(id: u128) -> (written: String)
    ensures
        written@ == id_text(id),
{
    uuid::Uuid::from_u128(id).to_string()
}

/// The identifier that a text writes, in any of the accepted forms, or what
/// is wrong with the text.
pub uninterp spec fn id_in(text: Seq<char>) -> Result<u128, Seq<char>>;

/// The view of what parsing an identifier gave.
pub open spec fn id_result(result: Result<u128, String>) -> Result<u128, Seq<char>> {
    match result {
        Ok(id) => Ok(id),
        Err(message) => Err(message@),
    }
}

/// `uuid::Uuid::parse_str`: the identifier, or the `Display` of the error.
/// Which it is is a function of the text.
#[verifier::external_body]
pub(crate) fn parse_id(text: &str) -> (id: Result<u128, String>)
    ensures
        id_result(id) == id_in(text@),
{
    uuid::Uuid::parse_str(text).map(|id| id.as_u128()).map_err(|error| error.to_string())
}

// ---------------------------------------------------------------------------
// serde_json
// ---------------------------------------------------------------------------

/// One character inside a JSON string.
pub open spec fn json_char(c: char) -> Seq<char> {
    let n = c as nat;
    if c == '"' {
        seq!['\\', '"']
    } else if c == '\\' {
        seq!['\\', '\\']
    } else if n == 8 {
        seq!['\\', 'b']
    } else if n == 9 {
        seq!['\\', 't']
    } else if n == 10 {
        seq!['\\', 'n']
    } else if n == 12 {
        seq!['\\', 'f']
    } else if n == 13 {
        seq!['\\', 'r']
    } else if n < 32 {
        seq!['\\', 'u', '0', '0', hex_lower(n / 16), hex_lower(n % 16)]
    } else {
        seq![c]
    }
}

/// The inside of a JSON string.
pub open spec fn json_chars(s: Seq<char>) -> Seq<char>
    decreases s.len(),
{
    if s.len() == 0 {
        Seq::empty()
    } else {
        json_chars(s.drop_last()) + json_char(s.last())
    }
}

/// A text as a JSON string: quoted, with quotes, backslashes and control
/// characters escaped.
pub open spec fn json_string(s: Seq<char>) -> Seq<char> {
    seq!['"'] + json_chars(s) + seq!['"']
}

/// `serde_json::to_string` on a `str`, which does not fail: the JSON string.
#[verifier::external_body]
pub(crate) fn quoted(s: &str) -> (quoted: String)
    ensures
        quoted@ == json_string(s@),
{
    serde_json::to_string(s).expect("a string serializes")
}

} // verus!

//! Encodings and digests computed by outside crates.
use base64::Engine;
use sha2::Digest;
use vstd::prelude::*;

verus! {

use vstd::string::StringSliceAdditionalSpecFns;

/// The character of a six-bit value in the URL-safe base64 alphabet:
/// `A`-`Z`, `a`-`z`, `0`-`9`, then `-` and `_`.
pub open spec fn base64_url_char(v: int) -> char {
    if v < 26 {
        (65 + v) as char
    } else if v < 52 {
        (97 + (v - 26)) as char
    } else if v < 62 {
        (48 + (v - 52)) as char
    } else if v == 62 {
        '-'
    } else {
        '_'
    }
}

/// URL-safe base64 without padding: each group of three bytes becomes four
/// characters of six bits each, most significant first; two bytes left at
/// the end become three characters and one byte two, the last one padded
/// with zero bits.
pub open spec fn base64_url_nopad(bytes: Seq<u8>) -> Seq<char>
    decreases bytes.len(),
{
    if bytes.len() == 0 {
        Seq::empty()
    } else if bytes.len() == 1 {
        let a = bytes[0] as int;
        seq![base64_url_char(a / 4), base64_url_char((a % 4) * 16)]
    } else if bytes.len() == 2 {
        let a = bytes[0] as int;
        let b = bytes[1] as int;
        seq![base64_url_char(a / 4), base64_url_char((a % 4) * 16 + b / 16), base64_url_char((b % 16) * 4)]
    } else {
        let a = bytes[0] as int;
        let b = bytes[1] as int;
        let c = bytes[2] as int;
        seq![
            base64_url_char(a / 4),
            base64_url_char((a % 4) * 16 + b / 16),
            base64_url_char((b % 16) * 4 + c / 64),
            base64_url_char(c % 64),
        ] + base64_url_nopad(bytes.skip(3))
    }
}

/// URL-safe base64 without padding takes four characters for every three
/// bytes, rounded up.
pub proof fn lemma_base64_url_len(bytes: Seq<u8>)
    ensures
        base64_url_nopad(bytes).len() == (bytes.len() * 4 + 2) / 3,
    decreases bytes.len(),
{
    if bytes.len() >= 3 {
        lemma_base64_url_len(bytes.skip(3));
    }
}

/// The SHA-256 digest that `sha2::Sha256::digest` computes of a byte string.
pub uninterp spec fn sha256(bytes: Seq<u8>) -> Seq<u8>;

/// The lower-case hex text that `sha1_smol::Sha1::from(..).digest()` displays for a byte string.
pub uninterp spec fn sha1_hex(bytes: Seq<u8>) -> Seq<char>;

/// Calls `URL_SAFE_NO_PAD.encode` of the `base64` crate: the result is the
/// bytes' URL-safe base64 text without padding. The crate panics when the encoded length
/// overflows `usize`, which the bound on the input rules out.
#[verifier::external_body]
pub(crate) fn encode_base64_url(bytes: &[u8]) -> (r: String)
    requires
        bytes@.len() <= usize::MAX / 2,
    ensures
        r@ == base64_url_nopad(bytes@),
{
    base64::engine::general_purpose::URL_SAFE_NO_PAD.encode(bytes)
}

/// Calls `sha2::Sha256::digest`: the result is the named digest, 32 bytes long.
#[verifier::external_body]
pub(crate) fn digest_sha256(bytes: &[u8]) -> (r: Vec<u8>)
    ensures
        r@ == sha256(bytes@),
        r@.len() == 32,
{
    sha2::Sha256::digest(bytes).to_vec()
}

/// Calls `sha1_smol::Sha1::from(..).digest()` and formats the digest with
/// `Display`: the result is the named hex text.
#[verifier::external_body]
pub(crate) fn sha1_hex_of(bytes: &[u8]) -> (r: String)
    ensures
        r@ == sha1_hex(bytes@),
{
    format!("{}", sha1_smol::Sha1::from(bytes).digest())
}

/// Calls `rand::random::<u8>()`; the byte is random, so nothing is promised of
/// it. The crate panics only if the operating system's random source fails.
#[verifier::external_body]
pub(crate) fn random_byte() -> u8 {
    rand::random::<u8>()
}

/// Bytes that `urlencoding::encode` leaves as they are: ASCII letters, digits and `-._~`.
pub open spec fn url_safe_byte(b: u8) -> bool {
    (48 <= b <= 57) || (65 <= b <= 90) || (97 <= b <= 122) || b == 45 || b == 46 || b == 95 || b == 126
}

/// An upper-case hex digit.
pub open spec fn upper_hex_digit(d: int) -> char {
    if d < 10 {
        (48 + d) as char
    } else {
        (55 + d) as char
    }
}

/// Percent-encoding as `urlencoding::encode` does it: every byte of the UTF-8
/// text that is not URL-safe becomes `%` and two upper-case hex digits.
pub open spec fn percent_encoded(bytes: Seq<u8>) -> Seq<char>
    decreases bytes.len(),
{
    if bytes.len() == 0 {
        Seq::empty()
    } else {
        let b = bytes.last();
        let tail = if url_safe_byte(b) {
            seq![b as char]
        } else {
            seq!['%', upper_hex_digit(b as int / 16), upper_hex_digit(b as int % 16)]
        };
        percent_encoded(bytes.drop_last()) + tail
    }
}

/// Calls `urlencoding::encode`: per that crate's source, every byte of the
/// UTF-8 text except ASCII alphanumerics and `-._~` is written as `%XX` with
/// upper-case hex digits.
#[verifier::external_body]
pub(crate) fn url_encode(s: &str) -> (r: String)
    ensures
        r@ == percent_encoded(s.spec_bytes()),
{
    urlencoding::encode(s).into_owned()
}

} // verus!

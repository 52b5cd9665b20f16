//! PKCE (RFC 7636) with the S256 method: a random verifier and its
//! challenge, the unpadded URL-safe Base64 of the verifier's SHA-256.

use vstd::prelude::*;

use base64::engine::general_purpose::URL_SAFE_NO_PAD;
use base64::Engine;
use rand::RngCore;
use sha2::Digest;
use vstd::utf8::encode_utf8;

verus! {

/// A code verifier and its challenge.
#[derive(Debug, Clone, PartialEq, Eq)]
pub struct PkcePair {
    pub code_verifier: String,
    pub code_challenge: String,
}

/// The character of a 6-bit value in the URL-safe Base64 alphabet
/// (RFC 4648 section 5).
pub open spec fn b64_char(v: int) -> char {
    if v < 26 {
        ((65 + v) as u32) as char
    } else if v < 52 {
        ((97 + v - 26) as u32) as char
    } else if v < 62 {
        ((48 + v - 52) as u32) as char
    } else if v == 62 {
        '-'
    } else {
        '_'
    }
}

/// Unpadded URL-safe Base64 (RFC 4648 section 5, without `=`): each group of
/// three bytes gives four characters, a final group of two bytes three, and
/// a final single byte two.
pub open spec fn base64url(s: Seq<u8>) -> Seq<char>
    decreases s.len(),
{
    if s.len() == 0 {
        Seq::empty()
    } else if s.len() == 1 {
        let a = s[0] as int;
        seq![b64_char(a / 4), b64_char((a % 4) * 16)]
    } else if s.len() == 2 {
        let a = s[0] as int;
        let b = s[1] as int;
        seq![b64_char(a / 4), b64_char((a % 4) * 16 + b / 16), b64_char((b % 16) * 4)]
    } else {
        let a = s[0] as int;
        let b = s[1] as int;
        let c = s[2] as int;
        seq![
            b64_char(a / 4),
            b64_char((a % 4) * 16 + b / 16),
            b64_char((b % 16) * 4 + c / 64),
            b64_char(c % 64),
        ] + base64url(s.skip(3))
    }
}

/// The SHA-256 digest of a byte string (FIPS 180-4), as computed by `sha2`.
pub uninterp spec fn sha256_of(bytes: Seq<u8>) -> Seq<u8>;

/// Encodes bytes as unpadded URL-safe Base64 (`base64`'s `URL_SAFE_NO_PAD`
/// engine, whose `encode` follows RFC 4648 section 5 and writes no padding).
#[verifier::external_body]
fn base64url_encode(bytes: &[u8]) -> (r: String)
    ensures
        r@ == base64url(bytes@),
{
    URL_SAFE_NO_PAD.encode(bytes)
}

/// The SHA-256 digest of `bytes` (`sha2::Sha256::digest`), 32 bytes long.
#[verifier::external_body]
fn sha256(bytes: &[u8]) -> (r: Vec<u8>)
    ensures
        r@ == sha256_of(bytes@),
        r@.len() == 32,
{
    sha2::Sha256::digest(bytes).to_vec()
}

/// The error when the operating system's random source cannot be read.
pub const RANDOM_UNAVAILABLE: &'static str = "the operating system's random source is unavailable";

/// `n` bytes from the operating system's random source
/// (`rand::rngs::OsRng`'s `try_fill_bytes`); `None` when the source fails.
/// Nothing is stated of the bytes: they are random.
#[verifier::external_body]
pub(crate) fn os_random_bytes(n: usize) -> (r: Option<Vec<u8>>)
    ensures
        r matches Some(b) ==> b@.len() == n,
{
    let mut bytes = vec![0u8; n];
    match rand::rngs::OsRng.try_fill_bytes(&mut bytes) {
        Ok(()) => Some(bytes),
        Err(_) => None,
    }
}

/// Unpadded URL-safe Base64 of bytes.
pub fn encode_base64url(bytes: &Vec<u8>) -> (r: String)
    ensures
        r@ == base64url(bytes@),
{
    base64url_encode(bytes.as_slice())
}

/// The S256 challenge of a verifier.
pub open spec fn challenge_of(verifier: Seq<char>) -> Seq<char> {
    base64url(sha256_of(encode_utf8(verifier)))
}

/// The length of unpadded Base64 of `n` bytes: `4n/3` rounded up.
pub proof fn lemma_base64url_len(s: Seq<u8>)
    ensures
        base64url(s).len() == (4 * s.len() + 2) / 3,
    decreases s.len(),
{
    if s.len() >= 3 {
        lemma_base64url_len(s.skip(3));
    }
}

/// The pair of a given verifier and its S256 challenge.
pub fn challenge_for_verifier(code_verifier: &str) -> (r: PkcePair)
    ensures
        r.code_verifier@ == code_verifier@,
        r.code_challenge@ == challenge_of(code_verifier@),
{
    let digest = sha256(code_verifier.as_bytes());
    PkcePair {
        code_verifier: code_verifier.to_owned(),
        code_challenge: encode_base64url(&digest),
    }
}

/// A fresh pair: the verifier encodes 32 random bytes (43 characters) and
/// the challenge is the verifier's S256 challenge. Fails with
/// `RANDOM_UNAVAILABLE` when the random source cannot be read.
pub fn generate_pkce_pair() -> (r: Result<PkcePair, String>)
    ensures
        r matches Ok(p) ==> {
            &&& p.code_challenge@ == challenge_of(p.code_verifier@)
            &&& p.code_verifier@.len() == 43
            &&& exists|bytes: Seq<u8>| bytes.len() == 32 && p.code_verifier@ == base64url(bytes)
        },
        r matches Err(e) ==> e@ == RANDOM_UNAVAILABLE@,
{
    let bytes = match os_random_bytes(32) {
        Some(b) => b,
        None => {
            return Err(RANDOM_UNAVAILABLE.to_owned());
        },
    };
    let code_verifier = encode_base64url(&bytes);
    proof {
        lemma_base64url_len(bytes@);
    }
    Ok(challenge_for_verifier(code_verifier.as_str()))
}

} // verus!

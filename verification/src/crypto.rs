//! Hashing, message authentication, key derivation and identifiers.
//!
//! The digests themselves are computed by the `sha3`, `hmac` and `pbkdf2`
//! crates; each is known here by name only. What this module proves is how the
//! results are encoded and combined.

use crate::errors::SharedError;
use crate::text::{digit_char, owned, to_chars};
use vstd::prelude::*;

verus! {

/// Rounds of key derivation used where the caller has no reason to choose.
pub const DEFAULT_PBKDF2_ITERATIONS: u32 = 100_000;

/// Length in bytes of a derived key where the caller has no reason to choose.
pub const DEFAULT_KEY_LENGTH: usize = 32;

// ---------------------------------------------------------------------------
// Hexadecimal
// ---------------------------------------------------------------------------

/// The lower-case hexadecimal digit for `n`, where `0 <= n < 16`.
pub open spec fn hex_digit(n: int) -> char {
    if n < 10 {
        digit_char(n)
    } else if n == 10 {
        'a'
    } else if n == 11 {
        'b'
    } else if n == 12 {
        'c'
    } else if n == 13 {
        'd'
    } else if n == 14 {
        'e'
    } else {
        'f'
    }
}

/// Two lower-case hexadecimal digits for each byte, the high half first.
pub open spec fn hex_lower(bytes: Seq<u8>) -> Seq<char>
    decreases bytes.len(),
{
    if bytes.len() == 0 {
        seq![]
    } else {
        hex_lower(bytes.drop_last()) + seq![
            hex_digit(bytes.last() as int / 16),
            hex_digit(bytes.last() as int % 16),
        ]
    }
}

/// A hexadecimal text is twice as long as the bytes it stands for.
pub proof fn lemma_hex_len(bytes: Seq<u8>)
    ensures
        hex_lower(bytes).len() == 2 * bytes.len(),
    decreases bytes.len(),
{
    if bytes.len() > 0 {
        lemma_hex_len(bytes.drop_last());
    }
}

/// Distinct hexadecimal digits stand for distinct values.
proof fn lemma_hex_digit_injective(a: int, b: int)
    requires
        0 <= a < 16,
        0 <= b < 16,
        hex_digit(a) == hex_digit(b),
    ensures
        a == b,
{
}

/// Byte sequences with the same hexadecimal text are equal.
pub proof fn lemma_hex_injective(a: Seq<u8>, b: Seq<u8>)
    requires
        hex_lower(a) == hex_lower(b),
    ensures
        a == b,
    decreases a.len(),
{
    lemma_hex_len(a);
    lemma_hex_len(b);
    if a.len() == 0 {
        assert(a =~= b);
    } else {
        lemma_hex_len(a.drop_last());
        lemma_hex_len(b.drop_last());
        let ha = hex_lower(a);
        let hb = hex_lower(b);
        let n = ha.len() as int;
        assert(ha[n - 2] == hex_digit(a.last() as int / 16));
        assert(ha[n - 1] == hex_digit(a.last() as int % 16));
        assert(hb[n - 2] == hex_digit(b.last() as int / 16));
        assert(hb[n - 1] == hex_digit(b.last() as int % 16));
        lemma_hex_digit_injective(a.last() as int / 16, b.last() as int / 16);
        lemma_hex_digit_injective(a.last() as int % 16, b.last() as int % 16);
        assert(a.last() == b.last());
        assert(hex_lower(a.drop_last()) =~= ha.take(n - 2));
        assert(hex_lower(b.drop_last()) =~= hb.take(n - 2));
        lemma_hex_injective(a.drop_last(), b.drop_last());
        assert(a =~= a.drop_last().push(a.last()));
        assert(b =~= b.drop_last().push(b.last()));
    }
}

/// `hex::encode` writes each byte as two lower-case hexadecimal digits.
#[verifier::external_body]
fn hex_encode(data: &[u8]) -> (r: String)
    ensures
        r@ == hex_lower(data@),
{
    hex::encode(data)
}

// ---------------------------------------------------------------------------
// Digests
// ---------------------------------------------------------------------------

/// The SHA3-256 digest of a byte sequence.
pub uninterp spec fn sha3_256_digest(data: Seq<u8>) -> Seq<u8>;

/// The SHA3-512 digest of a byte sequence.
pub uninterp spec fn sha3_512_digest(data: Seq<u8>) -> Seq<u8>;

/// The HMAC tag of `data` under `key`, with SHA3-256 as the hash.
pub uninterp spec fn hmac_sha3_256_tag(key: Seq<u8>, data: Seq<u8>) -> Seq<u8>;

/// The first `length` bytes that PBKDF2 derives from a password and a salt in
/// the given number of rounds, with HMAC-SHA3-256 as the pseudo-random function.
pub uninterp spec fn pbkdf2_sha3_256(
    password: Seq<u8>,
    salt: Seq<u8>,
    rounds: u32,
    length: usize,
) -> Seq<u8>;

/// Computes the SHA3-256 digest with `sha3::Sha3_256`: 32 bytes that depend on
/// the data alone.
#[verifier::external_body]
pub fn sha3_256(data: &[u8]) -> (r: Vec<u8>)
    ensures
        r@ == sha3_256_digest(data@),
        r@.len() == 32,
{
    let mut hasher = <sha3::Sha3_256 as sha3::Digest>::new();
    sha3::Digest::update(&mut hasher, data);
    sha3::Digest::finalize(hasher).to_vec()
}

/// The SHA3-256 digest of `data` in hexadecimal.
pub fn sha3_256_hex(data: &[u8]) -> (r: String)
    ensures
        r@ == hex_lower(sha3_256_digest(data@)),
        r@.len() == 64,
{
    let digest = sha3_256(data);
    proof {
        lemma_hex_len(digest@);
    }
    hex_encode(digest.as_slice())
}

/// Computes the SHA3-512 digest with `sha3::Sha3_512`: 64 bytes that depend on
/// the data alone.
#[verifier::external_body]
pub fn sha3_512(data: &[u8]) -> (r: Vec<u8>)
    ensures
        r@ == sha3_512_digest(data@),
        r@.len() == 64,
{
    let mut hasher = <sha3::Sha3_512 as sha3::Digest>::new();
    sha3::Digest::update(&mut hasher, data);
    sha3::Digest::finalize(hasher).to_vec()
}

/// The SHA3-512 digest of `data` in hexadecimal.
pub fn sha3_512_hex(data: &[u8]) -> (r: String)
    ensures
        r@ == hex_lower(sha3_512_digest(data@)),
        r@.len() == 128,
{
    let digest = sha3_512(data);
    proof {
        lemma_hex_len(digest@);
    }
    hex_encode(digest.as_slice())
}

/// Computes the tag with `hmac::Hmac<sha3::Sha3_256>`. Its constructor takes a
/// key of any length, so a tag always comes back: 32 bytes that depend on the
/// key and the data alone.
#[verifier::external_body]
fn hmac_tag(key: &[u8], data: &[u8]) -> (r: Option<Vec<u8>>)
    ensures
        r is Some,
        r.unwrap()@ == hmac_sha3_256_tag(key@, data@),
        r.unwrap()@.len() == 32,
{
    let mut mac = <hmac::Hmac<sha3::Sha3_256> as hmac::Mac>::new_from_slice(key).ok()?;
    hmac::Mac::update(&mut mac, data);
    Some(hmac::Mac::finalize(mac).into_bytes().to_vec())
}

/// The HMAC-SHA3-256 tag of `data` under `key`.
pub fn hmac_sha3_256(key: &[u8], data: &[u8]) -> (r: Result<Vec<u8>, SharedError>)
    ensures
        r matches Ok(tag) && tag@ == hmac_sha3_256_tag(key@, data@) && tag@.len() == 32,
{
    match hmac_tag(key, data) {
        Some(tag) => Ok(tag),
        None => Err(SharedError::Crypto(owned("Invalid key length"))),
    }
}

/// The HMAC-SHA3-256 tag of `data` under `key`, in hexadecimal.
pub fn hmac_sha3_256_hex(key: &[u8], data: &[u8]) -> (r: Result<String, SharedError>)
    ensures
        r matches Ok(text) && text@ == hex_lower(hmac_sha3_256_tag(key@, data@)) && text@.len()
            == 64,
{
    match hmac_sha3_256(key, data) {
        Ok(tag) => {
            proof {
                lemma_hex_len(tag@);
            }
            Ok(hex_encode(tag.as_slice()))
        },
        Err(e) => Err(e),
    }
}

/// `subtle::ConstantTimeEq::ct_eq` on byte slices tells whether they are equal.
#[verifier::external_body]
fn ct_eq_bytes(a: &[u8], b: &[u8]) -> (r: bool)
    ensures
        r == (a@ == b@),
{
    subtle::ConstantTimeEq::ct_eq(a, b).into()
}

/// Whether two byte sequences are equal. For equal lengths the time taken does
/// not depend on where they differ.
pub fn constant_time_compare(a: &[u8], b: &[u8]) -> (r: bool)
    ensures
        r == (a@ == b@),
{
    if a.len() != b.len() {
        return false;
    }
    ct_eq_bytes(a, b)
}

/// Whether `expected_mac` is the HMAC-SHA3-256 tag of `data` under `key`.
pub fn verify_hmac_sha3_256(key: &[u8], data: &[u8], expected_mac: &[u8]) -> (r: Result<
    bool,
    SharedError,
>)
    ensures
        r matches Ok(same) && same == (expected_mac@ == hmac_sha3_256_tag(key@, data@)),
{
    match hmac_sha3_256(key, data) {
        Ok(computed) => Ok(constant_time_compare(computed.as_slice(), expected_mac)),
        Err(e) => Err(e),
    }
}

/// Derives a key with `pbkdf2::pbkdf2_hmac` over `sha3::Sha3_256`: as many
/// bytes as asked for, which depend on the four arguments alone.
#[verifier::external_body]
pub fn derive_key(password: &[u8], salt: &[u8], iterations: u32, output_length: usize) -> (r: Vec<
    u8,
>)
    ensures
        r@ == pbkdf2_sha3_256(password@, salt@, iterations, output_length),
        r@.len() == output_length,
{
    let mut output = vec![0u8; output_length];
    pbkdf2::pbkdf2_hmac::<sha3::Sha3_256>(password, salt, iterations, &mut output);
    output
}

/// The derived key in hexadecimal.
pub fn derive_key_hex(password: &[u8], salt: &[u8], iterations: u32, output_length: usize) -> (r:
    String)
    ensures
        r@ == hex_lower(pbkdf2_sha3_256(password@, salt@, iterations, output_length)),
        r@.len() == 2 * output_length,
{
    let key = derive_key(password, salt, iterations, output_length);
    proof {
        lemma_hex_len(key@);
    }
    hex_encode(key.as_slice())
}

// ---------------------------------------------------------------------------
// Identifiers
// ---------------------------------------------------------------------------

/// A fresh random UUID from `uuid::Uuid::new_v4`, in its hyphenated form of 36
/// characters. Two calls give different values with overwhelming likelihood,
/// which no contract can state.
#[verifier::external_body]
pub fn generate_uuid() -> (r: String)
    ensures
        r@.len() == 36,
{
    uuid::Uuid::new_v4().to_string()
}

/// The 16 bytes of a fresh random UUID from `uuid::Uuid::new_v4`.
#[verifier::external_body]
fn uuid_bytes() -> (r: Vec<u8>)
    ensures
        r@.len() == 16,
{
    uuid::Uuid::new_v4().as_bytes().to_vec()
}

/// `length` random bytes.
pub fn generate_salt(length: usize) -> (salt: Vec<u8>)
    ensures
        salt@.len() == length,
{
    let mut salt: Vec<u8> = Vec::new();
    while salt.len() < length
        invariant
            salt@.len() <= length,
        decreases length - salt@.len(),
    {
        let block = uuid_bytes();
        let ghost before = salt@.len();
        let mut i: usize = 0;
        while i < block.len() && salt.len() < length
            invariant
                i <= block.len(),
                salt@.len() <= length,
                block@.len() == 16,
                salt@.len() == before + i,
            decreases block.len() - i,
        {
            salt.push(block[i]);
            i += 1;
        }
        assert(i > 0);
    }
    salt
}

/// A text all of whose characters are ASCII.
pub open spec fn all_ascii(s: Seq<char>) -> bool {
    forall|i: int| 0 <= i < s.len() ==> (#[trigger] s[i] as u32) < 128
}

/// A text all of whose characters come from `alphabet`.
pub open spec fn drawn_from(s: Seq<char>, alphabet: Seq<char>) -> bool {
    forall|i: int| 0 <= i < s.len() ==> alphabet.contains(#[trigger] s[i])
}

/// The 64 characters that `nanoid` uses by default: `_`, `-`, the digits and
/// the ASCII letters.
pub open spec fn is_nanoid_default_char(c: char) -> bool {
    c == '_' || c == '-' || ('0' <= c && c <= '9') || ('a' <= c && c <= 'z') || ('A' <= c && c
        <= 'Z')
}

/// A random identifier from `nanoid::format` over the given alphabet. The
/// outside function asserts that the alphabet has at most 255 characters, and
/// finishes when the identifier has `length` bytes: it needs a non-empty ASCII
/// alphabet and a positive length to return at all.
#[verifier::external_body]
pub fn generate_nanoid_custom(alphabet: &[char], length: usize) -> (r: String)
    requires
        0 < alphabet@.len() <= 255,
        all_ascii(alphabet@),
        0 < length <= usize::MAX / 8,
    ensures
        r@.len() == length,
        drawn_from(r@, alphabet@),
{
    nanoid::format(nanoid::rngs::default, alphabet, length)
}

/// A random identifier of `length` characters from `nanoid::format` over the
/// crate's default alphabet `nanoid::alphabet::SAFE`.
#[verifier::external_body]
pub fn generate_nanoid_with_length(length: usize) -> (r: String)
    requires
        0 < length <= usize::MAX / 8,
    ensures
        r@.len() == length,
        forall|i: int| 0 <= i < r@.len() ==> is_nanoid_default_char(#[trigger] r@[i]),
{
    nanoid::format(nanoid::rngs::default, &nanoid::alphabet::SAFE, length)
}

/// A random identifier of 21 characters over the default alphabet.
pub fn generate_nanoid() -> (r: String)
    ensures
        r@.len() == 21,
        forall|i: int| 0 <= i < r@.len() ==> is_nanoid_default_char(#[trigger] r@[i]),
{
    generate_nanoid_with_length(21)
}

/// The digits, the upper-case and the lower-case ASCII letters, in this order.
pub open spec fn url_safe_alphabet() -> Seq<char> {
    "0123456789ABCDEFGHIJKLMNOPQRSTUVWXYZabcdefghijklmnopqrstuvwxyz"@
}

/// A random identifier of `length` characters, each a digit or an ASCII letter.
pub fn generate_url_safe_id(length: usize) -> (r: String)
    requires
        0 < length <= usize::MAX / 8,
    ensures
        r@.len() == length,
        drawn_from(r@, url_safe_alphabet()),
{
    let alphabet = to_chars("0123456789ABCDEFGHIJKLMNOPQRSTUVWXYZabcdefghijklmnopqrstuvwxyz");
    proof {
        reveal_strlit("0123456789ABCDEFGHIJKLMNOPQRSTUVWXYZabcdefghijklmnopqrstuvwxyz");
        assert(alphabet@.len() == 62);
        assert(all_ascii(alphabet@));
    }
    generate_nanoid_custom(alphabet.as_slice(), length)
}

} // verus!

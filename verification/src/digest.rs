//! Digests, MACs and the text forms of bytes: hexadecimal, written here,
//! and Base64, SHA-1 HMAC, SHA-256 and MD5, from their crates.

use vstd::prelude::*;
use sha2::Digest;
use hmac::Mac;
use base64::Engine;
use crate::text::string_of;

verus! {

/// The lower-case hexadecimal digit of a value below 16.
pub open spec fn lower_hex_digit(d: u8) -> char {
    if d < 10 { (48 + d) as char } else { (87 + d) as char }
}

/// Bytes in lower-case hexadecimal, two digits each, high digit first
/// (`hex::encode`, `{:x}`).
pub open spec fn hex_lower(bytes: Seq<u8>) -> Seq<char>
    decreases bytes.len(),
{
    if bytes.len() == 0 {
        Seq::empty()
    } else {
        let b = bytes.last();
        hex_lower(bytes.drop_last()) + seq![lower_hex_digit(b / 16), lower_hex_digit(b % 16)]
    }
}

fn hex_char(d: u8) -> (c: char)
    requires
        d < 16,
    ensures
        c == lower_hex_digit(d),
{
    if d < 10 { (48 + d) as char } else { (87 + d) as char }
}

/// Writes bytes in lower-case hexadecimal.
pub fn hex_encode(bytes: &[u8]) -> (r: String)
    ensures
        r@ == hex_lower(bytes@),
        r@.len() == 2 * bytes@.len(),
{
    let mut out: Vec<char> = Vec::new();
    let mut i: usize = 0;
    assert(bytes@.take(0) =~= Seq::<u8>::empty());
    while i < bytes.len()
        invariant
            i <= bytes.len(),
            out@ == hex_lower(bytes@.take(i as int)),
            out@.len() == 2 * i,
        decreases bytes.len() - i,
    {
        let b = bytes[i];
        assert(bytes@.take(i + 1).drop_last() =~= bytes@.take(i as int));
        out.push(hex_char(b / 16));
        out.push(hex_char(b % 16));
        assert(out@ =~= hex_lower(bytes@.take(i as int)) + seq![lower_hex_digit(b / 16), lower_hex_digit(b % 16)]);
        i = i + 1;
    }
    assert(bytes@.take(bytes.len() as int) =~= bytes@);
    string_of(&out)
}

/// The HMAC of `msg` under `key` with SHA-1.
pub uninterp spec fn hmac_sha1(key: Seq<u8>, msg: Seq<u8>) -> Seq<u8>;

/// `hmac::Hmac::<sha1::Sha1>`: `new_from_slice`, `update`, then
/// `finalize().into_bytes()`. Claimed: the 20-byte tag is the named function
/// of key and message. `new_from_slice` accepts a key of any length for an
/// HMAC (its source always returns `Ok`); the `None` arm is never taken.
#[verifier::external_body]
pub(crate) fn hmac_sha1_tag(key: &[u8], msg: &[u8]) -> (r: Option<Vec<u8>>)
    ensures
        r is Some,
        r matches Some(t) ==> t@ == hmac_sha1(key@, msg@) && t@.len() == 20,
{
    match hmac::Hmac::<sha1::Sha1>::new_from_slice(key) {
        Ok(mut m) => {
            m.update(msg);
            Some(m.finalize().into_bytes().to_vec())
        },
        Err(_) => None,
    }
}

/// The SHA-256 digest of bytes.
pub uninterp spec fn sha256(bytes: Seq<u8>) -> Seq<u8>;

/// `sha2::Sha256::digest`. Claimed: the 32-byte digest is the named
/// function of the bytes.
#[verifier::external_body]
pub(crate) fn sha256_digest(bytes: &[u8]) -> (r: Vec<u8>)
    ensures
        r@ == sha256(bytes@),
        r@.len() == 32,
{
    sha2::Sha256::digest(bytes).to_vec()
}

/// The MD5 digest of bytes.
pub uninterp spec fn md5(bytes: Seq<u8>) -> Seq<u8>;

/// `md5::compute`. Claimed: the 16-byte digest is the named function of
/// the bytes.
#[verifier::external_body]
pub(crate) fn md5_digest(bytes: &[u8]) -> (r: Vec<u8>)
    ensures
        r@ == md5(bytes@),
        r@.len() == 16,
{
    md5::compute(bytes).0.to_vec()
}

/// The character of a six-bit value in the standard Base64 alphabet:
/// `A`-`Z`, `a`-`z`, `0`-`9`, `+`, `/`.
pub open spec fn base64_char(v: int) -> char {
    if v < 26 {
        (65 + v) as char
    } else if v < 52 {
        (97 + v - 26) as char
    } else if v < 62 {
        (48 + v - 52) as char
    } else if v == 62 {
        '+'
    } else {
        '/'
    }
}

/// The standard padded Base64 text of bytes (RFC 4648): each group of
/// three bytes as four characters of six bits each, a last group of one or
/// two bytes filled with zero bits and padded with `=` to four characters.
pub open spec fn base64_text(bytes: Seq<u8>) -> Seq<char>
    decreases bytes.len(),
{
    if bytes.len() == 0 {
        Seq::empty()
    } else if bytes.len() == 1 {
        let b0 = bytes[0] as int;
        seq![base64_char(b0 / 4), base64_char((b0 % 4) * 16), '=', '=']
    } else if bytes.len() == 2 {
        let b0 = bytes[0] as int;
        let b1 = bytes[1] as int;
        seq![base64_char(b0 / 4), base64_char((b0 % 4) * 16 + b1 / 16), base64_char((b1 % 16) * 4), '=']
    } else {
        let b0 = bytes[0] as int;
        let b1 = bytes[1] as int;
        let b2 = bytes[2] as int;
        seq![base64_char(b0 / 4), base64_char((b0 % 4) * 16 + b1 / 16), base64_char((b1 % 16) * 4 + b2 / 64),
            base64_char(b2 % 64)] + base64_text(bytes.subrange(3, bytes.len() as int))
    }
}

/// `base64::engine::general_purpose::STANDARD.encode`. Claimed: the text
/// is the standard padded Base64 of the bytes.
#[verifier::external_body]
pub(crate) fn base64_encode(bytes: &[u8]) -> (r: String)
    ensures
        r@ == base64_text(bytes@),
{
    base64::engine::general_purpose::STANDARD.encode(bytes)
}

/// `rand::RngCore::fill_bytes` on `rand::thread_rng()`: `n` random bytes.
/// Of the bytes only their number is claimed.
#[verifier::external_body]
pub(crate) fn random_bytes(n: usize) -> (r: Vec<u8>)
    ensures
        r@.len() == n,
{
    let mut buf = vec![0u8; n];
    rand::RngCore::fill_bytes(&mut rand::thread_rng(), &mut buf);
    buf
}

/// A random token: `n` random bytes in lower-case hexadecimal.
pub fn random_hex(n: usize) -> (r: String)
    ensures
        exists|b: Seq<u8>| b.len() == n && r@ == #[trigger] hex_lower(b),
        r@.len() == 2 * n,
{
    let b = random_bytes(n);
    let r = hex_encode(b.as_slice());
    assert(r@ == hex_lower(b@));
    r
}

/// The eight bytes of `v`, least significant first (`to_le_bytes`).
pub open spec fn le_bytes(v: u64, n: nat) -> Seq<u8>
    decreases n,
{
    if n == 0 { Seq::empty() } else { seq![(v % 256) as u8] + le_bytes(v / 256, (n - 1) as nat) }
}

/// The little-endian bytes of a 64-bit value.
pub fn u64_le_bytes(v: u64) -> (r: Vec<u8>)
    ensures
        r@ == le_bytes(v, 8),
{
    let mut out: Vec<u8> = Vec::new();
    let mut x = v;
    let mut k: usize = 0;
    while k < 8
        invariant
            k <= 8,
            out@ + le_bytes(x, (8 - k) as nat) == le_bytes(v, 8),
        decreases 8 - k,
    {
        let ghost before = out@;
        out.push((x % 256) as u8);
        assert(le_bytes(x, (8 - k) as nat) == seq![(x % 256) as u8] + le_bytes(x / 256, (8 - k - 1) as nat));
        assert(out@ + le_bytes(x / 256, (8 - k - 1) as nat) =~= before + le_bytes(x, (8 - k) as nat));
        x = x / 256;
        k = k + 1;
    }
    assert(out@ + le_bytes(x, 0) =~= out@);
    out
}

/// `rand::Rng::gen_range(0..n)` on the thread's generator: an index below
/// `n`. Claimed: the result is below `n`; which one is chance.
#[verifier::external_body]
pub(crate) fn random_below(n: usize) -> (r: usize)
    requires
        n > 0,
    ensures
        r < n,
{
    rand::Rng::gen_range(&mut rand::thread_rng(), 0..n)
}

/// A random text of `length` characters, each drawn from `charset`.
pub fn random_text(charset: &Vec<char>, length: usize) -> (r: String)
    requires
        charset@.len() > 0,
    ensures
        r@.len() == length,
        forall|k: int| 0 <= k < length ==> charset@.contains(#[trigger] r@[k]),
{
    let mut out: Vec<char> = Vec::new();
    let mut i: usize = 0;
    while i < length
        invariant
            i <= length,
            charset@.len() > 0,
            out@.len() == i,
            forall|k: int| 0 <= k < i ==> charset@.contains(#[trigger] out@[k]),
        decreases length - i,
    {
        let idx = random_below(charset.len());
        let c = charset[idx];
        assert(charset@[idx as int] == c);
        out.push(c);
        assert(out@[i as int] == c);
        i = i + 1;
    }
    string_of(&out)
}

} // verus!

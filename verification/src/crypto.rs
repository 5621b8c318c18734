use vstd::prelude::*;
use ring::rand::SecureRandom;
use crate::text::{chars_of, string_of, bytes_of, push_chars};

verus! {

/// What ring's SHA-256 digest of these bytes is.
pub uninterp spec fn sha256_of(data: Seq<u8>) -> Seq<u8>;

/// Calls `ring::digest::digest(&SHA256, data)`; the digest is named, and its
/// documented length of 32 bytes is stated.
#[verifier::external_body]
pub(crate) fn sha256(data: &[u8]) -> (r: Vec<u8>)
    ensures
        r@ == sha256_of(data@),
        r@.len() == 32,
{
    ring::digest::digest(&ring::digest::SHA256, data).as_ref().to_vec()
}

/// Fills `n` bytes from `ring::rand::SystemRandom`. The bytes come from the
/// system's generator, so only their number is stated; a failed fill leaves
/// zeros, as the error is ignored.
#[verifier::external_body]
pub(crate) fn random_bytes(n: usize) -> (r: Vec<u8>)
    ensures
        r@.len() == n,
{
    let mut b = vec![0u8; n];
    let _ = ring::rand::SystemRandom::new().fill(&mut b);
    b
}

pub open spec fn b64url_alphabet() -> Seq<char> {
    "ABCDEFGHIJKLMNOPQRSTUVWXYZabcdefghijklmnopqrstuvwxyz0123456789-_"@
}

/// The base64url symbols of the first group (up to three bytes) of `d`.
pub open spec fn b64url_head(d: Seq<u8>) -> Seq<char> {
    let t = b64url_alphabet();
    let b0 = d[0] as int;
    let b1 = if d.len() > 1 { d[1] as int } else { 0 };
    let b2 = if d.len() > 2 { d[2] as int } else { 0 };
    let v = b0 * 65536 + b1 * 256 + b2;
    let h2 = seq![t[(v / 262144) % 64], t[(v / 4096) % 64]];
    let h3 = if d.len() > 1 { h2.push(t[(v / 64) % 64]) } else { h2 };
    if d.len() > 2 { h3.push(t[v % 64]) } else { h3 }
}

/// Unpadded base64url (RFC 4648 §5) of a byte sequence, three bytes at a time.
pub open spec fn b64url(d: Seq<u8>) -> Seq<char>
    decreases d.len(),
{
    if d.len() == 0 {
        seq![]
    } else if d.len() <= 3 {
        b64url_head(d)
    } else {
        b64url_head(d) + b64url(d.subrange(3, d.len() as int))
    }
}

fn b64_symbol(table: &Vec<char>, x: u32) -> (c: char)
    requires
        table@ == b64url_alphabet(),
        table@.len() == 64,
    ensures
        c == b64url_alphabet()[(x % 64) as int],
{
    table[(x % 64) as usize]
}

fn b64_group(table: &Vec<char>, data: &[u8], i: usize) -> (r: Vec<char>)
    requires
        table@ == b64url_alphabet(),
        table@.len() == 64,
        i < data@.len(),
    ensures
        r@ == b64url_head(data@.subrange(i as int, data@.len() as int)),
{
    let n = data.len();
    let ghost d = data@.subrange(i as int, n as int);
    let b0 = data[i] as u32;
    let b1: u32 = if n - i > 1 { data[i + 1] as u32 } else { 0 };
    let b2: u32 = if n - i > 2 { data[i + 2] as u32 } else { 0 };
    let v: u32 = b0 * 65536 + b1 * 256 + b2;
    let mut out: Vec<char> = Vec::new();
    out.push(b64_symbol(table, v / 262144));
    out.push(b64_symbol(table, v / 4096));
    if n - i > 1 {
        out.push(b64_symbol(table, v / 64));
    }
    if n - i > 2 {
        out.push(b64_symbol(table, v));
    }
    assert(out@ =~= b64url_head(d));
    out
}

/// Unpadded base64url encoding.
pub fn b64url_nopad(data: &[u8]) -> (r: String)
    ensures
        r@ == b64url(data@),
{
    proof {
        reveal_strlit("ABCDEFGHIJKLMNOPQRSTUVWXYZabcdefghijklmnopqrstuvwxyz0123456789-_");
    }
    let table = chars_of("ABCDEFGHIJKLMNOPQRSTUVWXYZabcdefghijklmnopqrstuvwxyz0123456789-_");
    let mut out: Vec<char> = Vec::new();
    let mut i: usize = 0;
    let n = data.len();
    assert(data@.subrange(0, n as int) =~= data@);
    while i < n
        invariant
            n == data@.len(),
            i <= n,
            table@ == b64url_alphabet(),
            table@.len() == 64,
            b64url(data@) == out@ + b64url(data@.subrange(i as int, n as int)),
        decreases n - i,
    {
        let g = b64_group(&table, data, i);
        let ghost rest = data@.subrange(i as int, n as int);
        push_chars(&mut out, g.as_slice());
        if n - i <= 3 {
            assert(data@.subrange(n as int, n as int) =~= Seq::<u8>::empty());
            i = n;
        } else {
            assert(rest.subrange(3, rest.len() as int) =~= data@.subrange(i + 3, n as int));
            i = i + 3;
        }
        assert(b64url(data@) =~= out@ + b64url(data@.subrange(i as int, n as int)));
    }
    string_of(out.as_slice())
}

pub open spec fn hex_digit_lower(v: int) -> char {
    if v < 10 { (48 + v) as char } else { (87 + v) as char }
}

pub open spec fn hex_digit_upper(v: int) -> char {
    if v < 10 { (48 + v) as char } else { (55 + v) as char }
}

/// Two lower-case hex digits per byte (`format!("{:02x}", b)` for each byte).
pub open spec fn hex_lower(d: Seq<u8>) -> Seq<char>
    decreases d.len(),
{
    if d.len() == 0 {
        seq![]
    } else {
        seq![hex_digit_lower((d[0] / 16) as int), hex_digit_lower((d[0] % 16) as int)] + hex_lower(d.drop_first())
    }
}

pub fn hex_char_lower(v: u8) -> (c: char)
    requires
        v < 16,
    ensures
        c == hex_digit_lower(v as int),
{
    if v < 10 { (48 + v) as char } else { (87 + v) as char }
}

pub fn hex_char_upper(v: u8) -> (c: char)
    requires
        v < 16,
    ensures
        c == hex_digit_upper(v as int),
{
    if v < 10 { (48 + v) as char } else { (55 + v) as char }
}

proof fn lemma_hex_lower_push(d: Seq<u8>, i: int)
    requires
        0 <= i < d.len(),
    ensures
        hex_lower(d.take(i + 1)) == hex_lower(d.take(i)) + seq![
            hex_digit_lower((d[i] / 16) as int),
            hex_digit_lower((d[i] % 16) as int),
        ],
    decreases i,
{
    if i == 0 {
        assert(d.take(1).drop_first() =~= Seq::<u8>::empty());
        assert(hex_lower(d.take(0)) =~= Seq::<char>::empty());
        assert(hex_lower(d.take(1).drop_first()) =~= Seq::<char>::empty());
    } else {
        lemma_hex_lower_push(d.drop_first(), i - 1);
        assert(d.take(i + 1).drop_first() =~= d.drop_first().take(i));
        assert(d.take(i).drop_first() =~= d.drop_first().take(i - 1));
        assert(d.take(i + 1)[0] == d[0]);
        assert(d.take(i)[0] == d[0]);
    }
}

/// Lower-case hex of a byte sequence.
pub fn to_hex_lower(d: &[u8]) -> (r: String)
    ensures
        r@ == hex_lower(d@),
{
    let mut out: Vec<char> = Vec::new();
    let mut i: usize = 0;
    while i < d.len()
        invariant
            i <= d@.len(),
            out@ == hex_lower(d@.take(i as int)),
        decreases d@.len() - i,
    {
        proof {
            lemma_hex_lower_push(d@, i as int);
        }
        out.push(hex_char_lower(d[i] / 16));
        out.push(hex_char_lower(d[i] % 16));
        i = i + 1;
        assert(out@ =~= hex_lower(d@.take(i as int)));
    }
    assert(d@.take(d@.len() as int) =~= d@);
    string_of(out.as_slice())
}

/// A fresh secret in hex: 32 bytes from the system generator, 64 lower-case
/// hex digits (the engine's bearer token).
pub fn random_hex_token() -> (r: String)
    ensures
        exists|b: Seq<u8>| b.len() == 32 && r@ == hex_lower(b),
{
    let b = random_bytes(32);
    to_hex_lower(b.as_slice())
}

/// Lower-case hex SHA-256 of `data`.
/// Lower-case hex has two characters per byte.
pub proof fn lemma_hex_lower_len(d: Seq<u8>)
    ensures
        hex_lower(d).len() == 2 * d.len(),
    decreases d.len(),
{
    if d.len() > 0 {
        lemma_hex_lower_len(d.drop_first());
    }
}

pub fn sha256_hex(data: &[u8]) -> (r: String)
    ensures
        r@ == hex_lower(sha256_of(data@)),
        r@.len() == 64,
{
    let d = sha256(data);
    proof {
        lemma_hex_lower_len(d@);
    }
    to_hex_lower(d.as_slice())
}

/// base64url(SHA-256(input)): the PKCE S256 `code_challenge` of a verifier.
pub fn b64url_sha256(input: &str) -> (r: String)
    ensures
        r@ == b64url(sha256_of(vstd::utf8::encode_utf8(input@))),
{
    let b = bytes_of(input);
    let d = sha256(b.as_slice());
    b64url_nopad(d.as_slice())
}

/// A fresh secret: 32 bytes from the system generator, base64url-encoded.
pub fn random_token() -> (r: String)
    ensures
        exists|b: Seq<u8>| b.len() == 32 && r@ == b64url(b),
{
    let b = random_bytes(32);
    b64url_nopad(b.as_slice())
}

pub open spec fn password_alphabet() -> Seq<char> {
    "abcdefghjkmnpqrstuvwxyzABCDEFGHJKLMNPQRSTUVWXYZ23456789"@
}

/// The password that a sequence of random bytes selects: each byte picks
/// `alphabet[byte % 55]`.
pub open spec fn password_from(b: Seq<u8>) -> Seq<char> {
    Seq::new(b.len(), |i: int| password_alphabet()[b[i] as int % 55])
}

/// A password for people to type: 20 characters from a 55-letter alphabet
/// without look-alikes (no i, l, o, I, O, 0, 1).
pub fn random_password() -> (r: String)
    ensures
        exists|b: Seq<u8>| b.len() == 20 && r@ == password_from(b),
{
    proof {
        reveal_strlit("abcdefghjkmnpqrstuvwxyzABCDEFGHJKLMNPQRSTUVWXYZ23456789");
    }
    let a = chars_of("abcdefghjkmnpqrstuvwxyzABCDEFGHJKLMNPQRSTUVWXYZ23456789");
    let b = random_bytes(20);
    let mut out: Vec<char> = Vec::new();
    let mut i: usize = 0;
    while i < b.len()
        invariant
            a@ == password_alphabet(),
            a@.len() == 55,
            i <= b@.len(),
            out@ == password_from(b@.take(i as int)),
        decreases b@.len() - i,
    {
        out.push(a[(b[i] % 55) as usize]);
        i = i + 1;
        assert(out@ =~= password_from(b@.take(i as int)));
    }
    assert(b@.take(b@.len() as int) =~= b@);
    string_of(out.as_slice())
}

} // verus!

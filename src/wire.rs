//! The postcard encoding of the scalar fields that protocol messages are made
//! of: variable-length integers, strings and fixed 32-byte digests.
use vstd::prelude::*;
use vstd::utf8::*;

verus! {

/// A content digest: 32 bytes.
pub type Digest = [u8; 32];

/// The bytes of `n` as a varint: seven bits per byte, least significant group
/// first, the high bit set on every byte but the last.
pub open spec fn varint_bytes(n: nat) -> Seq<u8>
    decreases n,
{
    if n < 128 {
        seq![n as u8]
    } else {
        seq![(n % 128 + 128) as u8] + varint_bytes(n / 128)
    }
}

/// The length of the varint at the start of `b`: up to and including the first
/// byte whose high bit is clear, when that byte is one of the first `max`.
pub open spec fn varint_len(b: Seq<u8>, max: nat) -> Option<nat>
    decreases max,
{
    if max == 0 || b.len() == 0 {
        None
    } else if b[0] < 128 {
        Some(1)
    } else {
        match varint_len(b.drop_first(), (max - 1) as nat) {
            Some(k) => Some(k + 1),
            None => None,
        }
    }
}

/// The value carried by the low seven bits of the first `k` bytes of `b`,
/// least significant group first.
pub open spec fn varint_value(b: Seq<u8>, k: nat) -> nat
    decreases k,
{
    if k == 0 || b.len() == 0 {
        0
    } else {
        (b[0] % 128) as nat + 128 * varint_value(b.drop_first(), (k - 1) as nat)
    }
}

/// A varint read from the start of `b` for an integer type whose encoding takes
/// at most `max` bytes and whose last possible byte holds at most `last_max`:
/// the value and the number of bytes it took.
pub open spec fn take_varint(b: Seq<u8>, max: nat, last_max: nat) -> Option<(nat, nat)> {
    match varint_len(b, max) {
        Some(k) => if k < max || b[k - 1] <= last_max {
            Some((varint_value(b, k), k))
        } else {
            None
        },
        None => None,
    }
}

/// A `u32` read as a varint: at most five bytes, the fifth at most 0x0f.
#[verifier::opaque]
pub open spec fn take_u32_spec(b: Seq<u8>) -> Option<(nat, nat)> {
    take_varint(b, 5, 15)
}

/// A `u64` (and a length, a `usize` on a 64-bit target) read as a varint: at
/// most ten bytes, the tenth at most 1.
#[verifier::opaque]
pub open spec fn take_u64_spec(b: Seq<u8>) -> Option<(nat, nat)> {
    take_varint(b, 10, 1)
}

/// A string: its UTF-8 length as a varint, then its UTF-8 bytes.
pub open spec fn str_bytes(s: Seq<char>) -> Seq<u8> {
    varint_bytes(encode_utf8(s).len()) + encode_utf8(s)
}

/// A string read from the start of `b`, and the number of bytes it took: the
/// length must be followed by that many bytes of valid UTF-8.
#[verifier::opaque]
pub open spec fn take_str_spec(b: Seq<u8>) -> Option<(Seq<char>, nat)> {
    match take_u64_spec(b) {
        Some((len, k)) => if k + len <= b.len() && valid_utf8(b.subrange(k as int, (k + len) as int)) {
            Some((decode_utf8(b.subrange(k as int, (k + len) as int)), k + len))
        } else {
            None
        },
        None => None,
    }
}

/// The largest value, plus one, that a varint of at most `max` bytes carries
/// when its last possible byte holds at most `last_max`.
pub open spec fn varint_cap(max: nat, last_max: nat) -> nat
    decreases max,
{
    if max <= 1 {
        last_max + 1
    } else {
        128 * varint_cap((max - 1) as nat, last_max)
    }
}

/// A varint that was written for `n` reads back as `n`, whatever follows it,
/// and takes exactly the bytes that were written.
pub proof fn lemma_varint_round_trip(n: nat, rest: Seq<u8>, max: nat, last_max: nat)
    requires
        1 <= max,
        last_max < 128,
        n < varint_cap(max, last_max),
    ensures
        take_varint(varint_bytes(n) + rest, max, last_max) == Some((n, varint_bytes(n).len())),
    decreases n,
{
    let b = varint_bytes(n) + rest;
    if n < 128 {
        if max == 1 {
            assert(n <= last_max);
        }
        assert(b[0] == n as u8);
        assert(varint_len(b, max) == Some(1nat));
        assert(varint_value(b.drop_first(), 0) == 0);
        assert(varint_value(b, 1) == n);
    } else {
        let m = n / 128;
        if max == 1 {
            assert(false);
        }
        assert(m < varint_cap((max - 1) as nat, last_max)) by (nonlinear_arith)
            requires
                n < 128 * varint_cap((max - 1) as nat, last_max),
                m == n / 128,
        ;
        lemma_varint_round_trip(m, rest, (max - 1) as nat, last_max);
        let t = varint_bytes(m) + rest;
        assert(b.drop_first() =~= t);
        assert(b[0] == (n % 128 + 128) as u8);
        let k = varint_bytes(m).len();
        assert(varint_len(t, (max - 1) as nat) == Some(k));
        assert(varint_len(b, max) == Some(k + 1));
        assert(b[(k + 1) - 1] == t[k - 1]);
        assert(varint_value(t, k) == m);
        assert(varint_value(b, k + 1) == (n % 128) + 128 * m);
        assert((n % 128) + 128 * m == n) by (nonlinear_arith)
            requires
                m == n / 128,
        ;
    }
}

/// The `u32` form of the round trip: every `u32` is within reach.
pub proof fn lemma_u32_round_trip(v: u32, rest: Seq<u8>)
    ensures
        take_u32_spec(varint_bytes(v as nat) + rest) == Some((v as nat, varint_bytes(v as nat).len())),
{
    reveal(take_u32_spec);
    reveal_with_fuel(varint_cap, 5);
    lemma_varint_round_trip(v as nat, rest, 5, 15);
}

/// The `u64` form of the round trip: every `u64` is within reach.
pub proof fn lemma_u64_round_trip(v: nat, rest: Seq<u8>)
    requires
        v <= u64::MAX,
    ensures
        take_u64_spec(varint_bytes(v) + rest) == Some((v, varint_bytes(v).len())),
{
    reveal(take_u64_spec);
    reveal_with_fuel(varint_cap, 10);
    lemma_varint_round_trip(v, rest, 10, 1);
}

/// A string that was written reads back as itself, whatever follows it.
pub proof fn lemma_str_round_trip(s: Seq<char>, rest: Seq<u8>)
    requires
        encode_utf8(s).len() <= u64::MAX,
    ensures
        take_str_spec(str_bytes(s) + rest) == Some((s, str_bytes(s).len())),
{
    broadcast use encode_utf8_valid_utf8, encode_utf8_decode_utf8;

    reveal(take_str_spec);

    let u = encode_utf8(s);
    let v = varint_bytes(u.len());
    let b = str_bytes(s) + rest;
    assert(b =~= v + (u + rest));
    lemma_u64_round_trip(u.len(), u + rest);
    assert(b.subrange(v.len() as int, (v.len() + u.len()) as int) =~= u);
}

/// Relies on postcard::to_allocvec for a `u32`: a varint, and infallible when
/// writing to a `Vec`.
#[verifier::external_body]
pub(crate) fn encode_u32(v: u32) -> (r: Vec<u8>)
    ensures
        r@ == varint_bytes(v as nat),
{
    postcard::to_allocvec(&v).unwrap_or_default()
}

/// Relies on postcard::to_allocvec for a `u64`: a varint, and infallible when
/// writing to a `Vec`.
#[verifier::external_body]
pub(crate) fn encode_u64(v: u64) -> (r: Vec<u8>)
    ensures
        r@ == varint_bytes(v as nat),
{
    postcard::to_allocvec(&v).unwrap_or_default()
}

/// Relies on postcard::to_allocvec for a `str`: the UTF-8 length as a varint,
/// then the UTF-8 bytes, and infallible when writing to a `Vec`.
#[verifier::external_body]
pub(crate) fn encode_str(s: &str) -> (r: Vec<u8>)
    ensures
        r@ == str_bytes(s@),
{
    postcard::to_allocvec(s).unwrap_or_default()
}

/// Relies on postcard::to_allocvec for a `[u8; 32]`: a tuple of 32 bytes, each
/// written as it is, and infallible when writing to a `Vec`.
#[verifier::external_body]
pub(crate) fn encode_digest(d: &Digest) -> (r: Vec<u8>)
    ensures
        r@ == d@,
{
    postcard::to_allocvec(d).unwrap_or_default()
}

/// Relies on postcard::take_from_bytes for a `u32`: a varint of at most five
/// bytes, and the bytes after it.
#[verifier::external_body]
pub(crate) fn take_u32(b: &[u8]) -> (r: Option<(u32, &[u8])>)
    ensures
        match take_u32_spec(b@) {
            Some((v, k)) => r matches Some((x, rest)) && x as nat == v && rest@ == b@.skip(k as int),
            None => r is None,
        },
{
    postcard::take_from_bytes::<u32>(b).ok()
}

/// Relies on postcard::take_from_bytes for a `u64`: a varint of at most ten
/// bytes, and the bytes after it.
#[verifier::external_body]
pub(crate) fn take_u64(b: &[u8]) -> (r: Option<(u64, &[u8])>)
    ensures
        match take_u64_spec(b@) {
            Some((v, k)) => r matches Some((x, rest)) && x as nat == v && rest@ == b@.skip(k as int),
            None => r is None,
        },
{
    postcard::take_from_bytes::<u64>(b).ok()
}

/// Relies on postcard::take_from_bytes for a `String`: a varint length, then
/// that many bytes, which must be valid UTF-8; and the bytes after them.
#[verifier::external_body]
pub(crate) fn take_string(b: &[u8]) -> (r: Option<(String, &[u8])>)
    ensures
        match take_str_spec(b@) {
            Some((v, k)) => r matches Some((x, rest)) && x@ == v && rest@ == b@.skip(k as int),
            None => r is None,
        },
{
    postcard::take_from_bytes::<String>(b).ok()
}

/// Relies on postcard::take_from_bytes for a `[u8; 32]`: the next 32 bytes as
/// they are, and the bytes after them.
#[verifier::external_body]
pub(crate) fn take_digest(b: &[u8]) -> (r: Option<(Digest, &[u8])>)
    ensures
        if b@.len() >= 32 {
            r matches Some((x, rest)) && x@ == b@.take(32) && rest@ == b@.skip(32)
        } else {
            r is None
        },
{
    postcard::take_from_bytes::<[u8; 32]>(b).ok()
}

} // verus!

//! The pure byte-order codec.
//!
//! A wire value of width `w` is exactly `w` bytes, interpreted in base 256
//! under a chosen [`Endianness`]. The spec functions here define that
//! interpretation once; the executable functions encode and decode every
//! supported width against them, and the public lemmas state the round-trip
//! and truncation laws.

use crate::endian::Endianness;
use vstd::arithmetic::div_mod::{
    lemma_breakdown, lemma_div_multiples_vanish_fancy, lemma_mod_division_less_than_divisor,
    lemma_mod_mod, lemma_mod_multiples_vanish, lemma_small_mod,
};
use vstd::prelude::*;

verus! {

/// 256 raised to `w`: the number of distinct values a `w`-byte buffer holds.
pub open spec fn pow256(w: nat) -> nat
    decreases w,
{
    if w == 0 {
        1
    } else {
        256 * pow256((w - 1) as nat)
    }
}

/// The value of `s` read as a base-256 number, least significant byte first.
pub open spec fn le_value(s: Seq<u8>) -> nat
    decreases s.len(),
{
    if s.len() == 0 {
        0
    } else {
        s[0] as nat + 256 * le_value(s.drop_first())
    }
}

/// The value of `s` read as a base-256 number, most significant byte first.
pub open spec fn be_value(s: Seq<u8>) -> nat
    decreases s.len(),
{
    if s.len() == 0 {
        0
    } else {
        256 * be_value(s.drop_last()) + s.last() as nat
    }
}

/// The `w` low-order base-256 digits of `v`, least significant first.
pub open spec fn le_bytes(v: nat, w: nat) -> Seq<u8>
    decreases w,
{
    if w == 0 {
        Seq::empty()
    } else {
        seq![(v % 256) as u8] + le_bytes(v / 256, (w - 1) as nat)
    }
}

/// The `w` low-order base-256 digits of `v`, most significant first.
pub open spec fn be_bytes(v: nat, w: nat) -> Seq<u8>
    decreases w,
{
    if w == 0 {
        Seq::empty()
    } else {
        be_bytes(v / 256, (w - 1) as nat).push((v % 256) as u8)
    }
}

/// The numeric value of the buffer `s` under the ordering `e`.
pub open spec fn wire_value(s: Seq<u8>, e: Endianness) -> nat {
    match e {
        Endianness::Big => be_value(s),
        Endianness::Little => le_value(s),
    }
}

/// The `w`-byte encoding of `v` under the ordering `e`. Only `v % pow256(w)`
/// is representable; higher-order digits of `v` are dropped.
pub open spec fn wire_bytes(v: nat, w: nat, e: Endianness) -> Seq<u8> {
    match e {
        Endianness::Big => be_bytes(v, w),
        Endianness::Little => le_bytes(v, w),
    }
}

/// The signed reading of the unsigned value `u` of a `w`-byte buffer:
/// two's complement, sign-extended from the most significant present byte.
pub open spec fn signed_value(u: nat, w: nat) -> int {
    if u < pow256(w) / 2 {
        u as int
    } else {
        u - pow256(w)
    }
}

/// The two's-complement representative of the signed value `v` in `w` bytes:
/// `v` reduced into `[0, pow256(w))`.
pub open spec fn unsigned_rep(v: int, w: nat) -> nat {
    (v % (pow256(w) as int)) as nat
}

pub proof fn lemma_pow256_pos(w: nat)
    ensures
        pow256(w) >= 1,
    decreases w,
{
    if w > 0 {
        lemma_pow256_pos((w - 1) as nat);
    }
}

pub proof fn lemma_pow256_increases(a: nat, b: nat)
    requires
        a <= b,
    ensures
        pow256(a) <= pow256(b),
    decreases b,
{
    if a < b {
        lemma_pow256_increases(a, (b - 1) as nat);
        lemma_pow256_pos((b - 1) as nat);
    }
}

/// A `w`-byte buffer can hold nothing at or above `pow256(w)`.
pub proof fn lemma_le_value_bound(s: Seq<u8>)
    ensures
        le_value(s) < pow256(s.len()),
    decreases s.len(),
{
    if s.len() > 0 {
        lemma_le_value_bound(s.drop_first());
    }
}

/// A `w`-byte buffer can hold nothing at or above `pow256(w)`.
pub proof fn lemma_be_value_bound(s: Seq<u8>)
    ensures
        be_value(s) < pow256(s.len()),
    decreases s.len(),
{
    if s.len() > 0 {
        lemma_be_value_bound(s.drop_last());
    }
}

pub proof fn lemma_wire_value_bound(s: Seq<u8>, e: Endianness)
    ensures
        wire_value(s, e) < pow256(s.len()),
{
    lemma_le_value_bound(s);
    lemma_be_value_bound(s);
}

pub proof fn lemma_le_bytes_len(v: nat, w: nat)
    ensures
        le_bytes(v, w).len() == w,
    decreases w,
{
    if w > 0 {
        lemma_le_bytes_len(v / 256, (w - 1) as nat);
    }
}

pub proof fn lemma_be_bytes_len(v: nat, w: nat)
    ensures
        be_bytes(v, w).len() == w,
    decreases w,
{
    if w > 0 {
        lemma_be_bytes_len(v / 256, (w - 1) as nat);
    }
}

pub proof fn lemma_wire_bytes_len(v: nat, w: nat, e: Endianness)
    ensures
        wire_bytes(v, w, e).len() == w,
{
    lemma_le_bytes_len(v, w);
    lemma_be_bytes_len(v, w);
}

/// Decoding an encoding recovers the value reduced modulo the width's range:
/// the truncation law, of which the round trip on representable values is
/// the special case.
proof fn lemma_le_decode_encode(v: nat, w: nat)
    ensures
        le_value(le_bytes(v, w)) == v % pow256(w),
    decreases w,
{
    if w == 0 {
        lemma_mod_division_less_than_divisor(v as int, 1);
    } else {
        let rest = le_bytes(v / 256, (w - 1) as nat);
        let whole = seq![(v % 256) as u8] + rest;
        assert(whole.drop_first() =~= rest);
        lemma_le_decode_encode(v / 256, (w - 1) as nat);
        lemma_pow256_pos((w - 1) as nat);
        lemma_breakdown(v as int, 256, pow256((w - 1) as nat) as int);
    }
}

proof fn lemma_be_decode_encode(v: nat, w: nat)
    ensures
        be_value(be_bytes(v, w)) == v % pow256(w),
    decreases w,
{
    if w == 0 {
        lemma_mod_division_less_than_divisor(v as int, 1);
    } else {
        let rest = be_bytes(v / 256, (w - 1) as nat);
        let whole = rest.push((v % 256) as u8);
        lemma_be_bytes_len(v / 256, (w - 1) as nat);
        assert(whole.drop_last() =~= rest);
        lemma_be_decode_encode(v / 256, (w - 1) as nat);
        lemma_pow256_pos((w - 1) as nat);
        lemma_breakdown(v as int, 256, pow256((w - 1) as nat) as int);
    }
}

/// Encoding the value a buffer decodes to rebuilds the buffer exactly.
proof fn lemma_le_encode_decode(s: Seq<u8>)
    ensures
        le_bytes(le_value(s), s.len()) == s,
    decreases s.len(),
{
    if s.len() > 0 {
        let rest = s.drop_first();
        let v = le_value(s) as int;
        assert(v == s[0] + 256 * le_value(rest));
        lemma_mod_multiples_vanish(le_value(rest) as int, s[0] as int, 256);
        lemma_small_mod(s[0] as nat, 256);
        lemma_div_multiples_vanish_fancy(le_value(rest) as int, s[0] as int, 256);
        lemma_le_encode_decode(rest);
        assert(le_bytes(le_value(s), s.len()) =~= s);
    }
}

proof fn lemma_be_encode_decode(s: Seq<u8>)
    ensures
        be_bytes(be_value(s), s.len()) == s,
    decreases s.len(),
{
    if s.len() > 0 {
        let rest = s.drop_last();
        let v = be_value(s) as int;
        assert(v == 256 * be_value(rest) + s.last());
        lemma_mod_multiples_vanish(be_value(rest) as int, s.last() as int, 256);
        lemma_small_mod(s.last() as nat, 256);
        lemma_div_multiples_vanish_fancy(be_value(rest) as int, s.last() as int, 256);
        lemma_be_encode_decode(rest);
        assert(be_bytes(be_value(s), s.len()) =~= s);
    }
}

/// Truncation law: decoding the `w`-byte encoding of any value `v` yields
/// `v` reduced modulo `pow256(w)` — the low-order bytes of the
/// two's-complement representation are kept, higher ones dropped.
pub proof fn lemma_encode_truncates(v: nat, w: nat, e: Endianness)
    ensures
        wire_value(wire_bytes(v, w, e), e) == v % pow256(w),
{
    lemma_le_decode_encode(v, w);
    lemma_be_decode_encode(v, w);
}

/// Round trip, value side: decoding the encoding of any representable value
/// yields the value back, under every width and ordering.
pub proof fn lemma_value_round_trip(v: nat, w: nat, e: Endianness)
    requires
        v < pow256(w),
    ensures
        wire_value(wire_bytes(v, w, e), e) == v,
{
    lemma_encode_truncates(v, w, e);
    lemma_small_mod(v, pow256(w));
}

/// Round trip, buffer side: encoding the value a buffer decodes to rebuilds
/// the buffer, under every width and ordering. In particular decoding cannot
/// identify two distinct buffers of one width.
pub proof fn lemma_bytes_round_trip(s: Seq<u8>, e: Endianness)
    ensures
        wire_bytes(wire_value(s, e), s.len(), e) == s,
{
    lemma_le_encode_decode(s);
    lemma_be_encode_decode(s);
}

/// Round trip, signed values: reducing a representable signed value to its
/// two's-complement representative and reading that back signed is the
/// identity.
pub proof fn lemma_signed_round_trip(v: int, w: nat)
    requires
        -(pow256(w) as int) / 2 <= v < (pow256(w) as int) / 2,
    ensures
        signed_value(unsigned_rep(v, w), w) == v,
{
    let m = pow256(w) as int;
    lemma_pow256_pos(w);
    if w == 0 {
        lemma_mod_division_less_than_divisor(v, 1);
        return ;
    }
    assert(m == 256 * pow256((w - 1) as nat));
    assert(m == 2 * (128 * pow256((w - 1) as nat))) by (nonlinear_arith)
        requires
            m == 256 * pow256((w - 1) as nat),
    ;
    let h = 128 * pow256((w - 1) as nat) as int;
    lemma_div_multiples_vanish_fancy(h, 0, 2);
    lemma_div_multiples_vanish_fancy(-h, 0, 2);
    assert(m / 2 == h);
    assert((-m) / 2 == -h);
    lemma_pow256_pos((w - 1) as nat);
    if v >= 0 {
        lemma_small_mod(v as nat, m as nat);
    } else {
        lemma_mod_multiples_vanish(1, v, m);
        lemma_small_mod((v + m) as nat, m as nat);
    }
}

/// Two values congruent modulo `pow256(w)` agree digit by digit: same low
/// byte, and congruent quotients one width down.
proof fn lemma_digit_split(a: nat, b: nat, w: nat)
    requires
        w > 0,
        a % pow256(w) == b % pow256(w),
    ensures
        a % 256 == b % 256,
        (a / 256) % pow256((w - 1) as nat) == (b / 256) % pow256((w - 1) as nat),
{
    let p = pow256((w - 1) as nat) as int;
    lemma_pow256_pos((w - 1) as nat);
    lemma_breakdown(a as int, 256, p);
    lemma_breakdown(b as int, 256, p);
    assert(0 <= a as int % 256 < 256 && 0 <= b as int % 256 < 256) by {
        lemma_mod_division_less_than_divisor(a as int, 256);
        lemma_mod_division_less_than_divisor(b as int, 256);
    }
    assert(0 <= (a as int / 256) % p && 0 <= (b as int / 256) % p) by {
        lemma_mod_division_less_than_divisor(a as int / 256, p);
        lemma_mod_division_less_than_divisor(b as int / 256, p);
    }
    assert(a as int % 256 == b as int % 256 && (a as int / 256) % p == (b as int / 256) % p)
        by (nonlinear_arith)
        requires
            256 * ((a as int / 256) % p) + a as int % 256 == 256 * ((b as int / 256) % p)
                + b as int % 256,
            0 <= a as int % 256 < 256,
            0 <= b as int % 256 < 256,
            p > 0,
            0 <= (a as int / 256) % p,
            0 <= (b as int / 256) % p,
    ;
}

/// The encoding of `v` in `w` bytes depends only on `v % pow256(w)`.
pub proof fn lemma_le_bytes_mod(a: nat, b: nat, w: nat)
    requires
        a % pow256(w) == b % pow256(w),
    ensures
        le_bytes(a, w) == le_bytes(b, w),
    decreases w,
{
    if w > 0 {
        lemma_digit_split(a, b, w);
        lemma_le_bytes_mod(a / 256, b / 256, (w - 1) as nat);
    }
}

/// The encoding of `v` in `w` bytes depends only on `v % pow256(w)`.
pub proof fn lemma_be_bytes_mod(a: nat, b: nat, w: nat)
    requires
        a % pow256(w) == b % pow256(w),
    ensures
        be_bytes(a, w) == be_bytes(b, w),
    decreases w,
{
    if w > 0 {
        lemma_digit_split(a, b, w);
        lemma_be_bytes_mod(a / 256, b / 256, (w - 1) as nat);
    }
}

/// Round trip, signed values, end to end: encoding a representable signed
/// value as its two's-complement bytes and reading them back signed is the
/// identity, under every width and ordering.
pub proof fn lemma_signed_wire_round_trip(v: int, w: nat, e: Endianness)
    requires
        -(pow256(w) as int) / 2 <= v < (pow256(w) as int) / 2,
    ensures
        signed_value(wire_value(wire_bytes(unsigned_rep(v, w), w, e), e), w) == v,
{
    lemma_pow256_pos(w);
    lemma_encode_truncates(unsigned_rep(v, w), w, e);
    lemma_mod_division_less_than_divisor(v, pow256(w) as int);
    lemma_small_mod(unsigned_rep(v, w), pow256(w));
    lemma_signed_round_trip(v, w);
}

/// The encoding of `v` in `w` bytes depends only on `v % pow256(w)`.
pub proof fn lemma_wire_bytes_mod(a: nat, b: nat, w: nat, e: Endianness)
    requires
        a % pow256(w) == b % pow256(w),
    ensures
        wire_bytes(a, w, e) == wire_bytes(b, w, e),
{
    lemma_le_bytes_mod(a, b, w);
    lemma_be_bytes_mod(a, b, w);
}

pub proof fn lemma_pow256_adds(a: nat, b: nat)
    ensures
        pow256(a + b) == pow256(a) * pow256(b),
    decreases a,
{
    if a == 0 {
        lemma_pow256_pos(b);
        assert(pow256(a) * pow256(b) == pow256(b)) by (nonlinear_arith)
            requires
                pow256(a) == 1,
        ;
    } else {
        lemma_pow256_adds((a - 1) as nat, b);
        assert((a + b - 1) as nat == (a - 1) as nat + b);
        assert(256 * (pow256((a - 1) as nat) * pow256(b)) == (256 * pow256((a - 1) as nat))
            * pow256(b)) by (nonlinear_arith);
    }
}

proof fn lemma_pow256_16()
    ensures
        pow256(16) == 0x100000000000000000000000000000000,
{
    reveal_with_fuel(pow256, 17);
}

fn decode_le_suffix(buf: &[u8], i: usize) -> (r: u128)
    requires
        i <= buf@.len(),
        buf@.len() <= 16,
    ensures
        r == le_value(buf@.skip(i as int)),
    decreases buf@.len() - i,
{
    if i == buf.len() {
        proof {
            assert(buf@.skip(i as int) =~= Seq::<u8>::empty());
        }
        0
    } else {
        let rest = decode_le_suffix(buf, i + 1);
        proof {
            lemma_le_value_bound(buf@.skip(i + 1));
            lemma_pow256_increases((buf@.len() - (i + 1)) as nat, 15);
            assert(256 * pow256(15) == pow256(16));
            lemma_pow256_16();
            assert(buf@.skip(i as int).drop_first() =~= buf@.skip(i + 1));
            assert(buf@.skip(i as int)[0] == buf@[i as int]);
        }
        buf[i] as u128 + 256 * rest
    }
}

fn decode_be_prefix(buf: &[u8], n: usize) -> (r: u128)
    requires
        n <= buf@.len(),
        buf@.len() <= 16,
    ensures
        r == be_value(buf@.take(n as int)),
    decreases n,
{
    if n == 0 {
        proof {
            assert(buf@.take(0) =~= Seq::<u8>::empty());
        }
        0
    } else {
        let rest = decode_be_prefix(buf, n - 1);
        proof {
            lemma_be_value_bound(buf@.take(n - 1));
            lemma_pow256_increases((n - 1) as nat, 15);
            assert(256 * pow256(15) == pow256(16));
            lemma_pow256_16();
            assert(buf@.take(n as int).drop_last() =~= buf@.take(n - 1));
            assert(buf@.take(n as int).last() == buf@[n - 1]);
        }
        256 * rest + buf[n - 1] as u128
    }
}

/// The numeric value of a complete buffer of at most 16 bytes, read in
/// base 256 under the ordering `e`.
pub fn decode_unsigned(buf: &[u8], e: Endianness) -> (r: u128)
    requires
        buf@.len() <= 16,
    ensures
        r == wire_value(buf@, e),
{
    match e {
        Endianness::Big => {
            let r = decode_be_prefix(buf, buf.len());
            proof {
                assert(buf@.take(buf@.len() as int) =~= buf@);
            }
            r
        },
        Endianness::Little => {
            let r = decode_le_suffix(buf, 0);
            proof {
                assert(buf@.skip(0) =~= buf@);
            }
            r
        },
    }
}

fn encode_le_rec(v: u128, w: usize) -> (r: Vec<u8>)
    requires
        w <= 16,
    ensures
        r@ == le_bytes(v as nat, w as nat),
    decreases w,
{
    if w == 0 {
        let r = Vec::<u8>::new();
        proof {
            assert(r@ =~= le_bytes(v as nat, 0));
        }
        r
    } else {
        let mut rest = encode_le_rec(v / 256, w - 1);
        rest.insert(0, (v % 256) as u8);
        proof {
            assert(rest@ =~= le_bytes(v as nat, w as nat));
        }
        rest
    }
}

fn encode_be_rec(v: u128, w: usize) -> (r: Vec<u8>)
    requires
        w <= 16,
    ensures
        r@ == be_bytes(v as nat, w as nat),
    decreases w,
{
    if w == 0 {
        let r = Vec::<u8>::new();
        proof {
            assert(r@ =~= be_bytes(v as nat, 0));
        }
        r
    } else {
        let mut rest = encode_be_rec(v / 256, w - 1);
        rest.push((v % 256) as u8);
        proof {
            assert(rest@ =~= be_bytes(v as nat, w as nat));
        }
        rest
    }
}

/// The `width`-byte buffer that encodes `v` under the ordering `e`. Only
/// `v % pow256(width)` is representable: higher-order bytes of `v` are
/// dropped, per the truncation law.
pub fn encode_unsigned(v: u128, width: usize, e: Endianness) -> (r: Vec<u8>)
    requires
        width <= 16,
    ensures
        r@ == wire_bytes(v as nat, width as nat, e),
{
    match e {
        Endianness::Big => encode_be_rec(v, width),
        Endianness::Little => encode_le_rec(v, width),
    }
}

/// Half the range of a `w`-byte buffer: the first value whose sign bit is
/// set in the signed reading.
fn half_range(w: usize) -> (r: u128)
    requires
        1 <= w <= 16,
    ensures
        2 * (r as nat) == pow256(w as nat),
{
    let mut m: u128 = 128;
    let mut j: usize = 1;
    proof {
        lemma_pow256_16();
    }
    while j < w
        invariant
            1 <= j <= w <= 16,
            m == 128 * pow256((j - 1) as nat),
            pow256(16) == 0x100000000000000000000000000000000,
        decreases w - j,
    {
        proof {
            lemma_pow256_increases((j - 1) as nat, 14);
            assert(256 * pow256(14) == pow256(15));
            assert(256 * pow256(15) == pow256(16));
            assert((128 * pow256((j - 1) as nat)) * 256 == 128 * (256 * pow256((j - 1) as nat)))
                by (nonlinear_arith);
            assert(128 * pow256((j - 1) as nat) * 256 <= 128 * pow256(15)) by (nonlinear_arith)
                requires
                    pow256((j - 1) as nat) * 256 <= pow256(15),
            ;
        }
        m = m * 256;
        j += 1;
    }
    proof {
        assert(2 * (128 * pow256((w - 1) as nat)) == 256 * pow256((w - 1) as nat));
    }
    m
}

/// The signed reading of an unsigned `w`-byte value: identity below half
/// the range, shifted down by the full range at or above it.
fn to_signed(u: u128, w: usize) -> (r: i128)
    requires
        1 <= w <= 16,
        u < pow256(w as nat),
    ensures
        r == signed_value(u as nat, w as nat),
{
    let half = half_range(w);
    proof {
        vstd::arithmetic::div_mod::lemma_div_multiples_vanish(half as int, 2);
        assert(pow256(w as nat) / 2 == half as nat);
        lemma_pow256_increases(w as nat, 16);
        lemma_pow256_16();
    }
    if u < half {
        u as i128
    } else {
        let t = (half - 1) - (u - half);
        -1 - (t as i128)
    }
}

/// The two's-complement representative of `v` in the full 16-byte range.
fn twos_rep(v: i128) -> (r: u128)
    ensures
        r as nat == unsigned_rep(v as int, 16),
{
    proof {
        lemma_pow256_16();
    }
    if v >= 0 {
        proof {
            lemma_small_mod(v as nat, pow256(16));
        }
        v as u128
    } else {
        let t = -1 - v;
        let r = u128::MAX - (t as u128);
        proof {
            let m = pow256(16) as int;
            lemma_mod_multiples_vanish(1, v as int, m);
            lemma_small_mod((v + m) as nat, pow256(16));
        }
        r
    }
}

/// Bounds of the signed reading: it always lies in the signed `w`-byte
/// range.
pub proof fn lemma_signed_value_bounds(u: nat, w: nat)
    requires
        w >= 1,
        u < pow256(w),
    ensures
        -((pow256(w) / 2) as int) <= signed_value(u, w) < pow256(w) / 2,
{
    lemma_pow256_pos((w - 1) as nat);
    assert(pow256(w) == 2 * (128 * pow256((w - 1) as nat)));
    vstd::arithmetic::div_mod::lemma_div_multiples_vanish(128 * pow256((w - 1) as nat) as int, 2);
    assert(pow256(w) / 2 == 128 * pow256((w - 1) as nat));
}

/// Encodes the signed value `v` into `w` bytes of two's complement under
/// the ordering `e`.
fn encode_signed(v: i128, w: usize, e: Endianness) -> (r: Vec<u8>)
    requires
        1 <= w <= 16,
    ensures
        r@ == wire_bytes(unsigned_rep(v as int, w as nat), w as nat, e),
{
    let u = twos_rep(v);
    let r = encode_unsigned(u, w, e);
    proof {
        let pw = pow256(w as nat) as int;
        let rest = pow256((16 - w) as nat) as int;
        lemma_pow256_adds(w as nat, (16 - w) as nat);
        lemma_pow256_pos(w as nat);
        lemma_pow256_pos((16 - w) as nat);
        lemma_mod_mod(v as int, pw, rest);
        assert((v as int % (pw * rest)) % pw == v as int % pw);
        lemma_mod_division_less_than_divisor(v as int, pw);
        lemma_small_mod(unsigned_rep(v as int, w as nat), pow256(w as nat));
        lemma_wire_bytes_mod(u as nat, unsigned_rep(v as int, w as nat), w as nat, e);
    }
    r
}

/// Reads an unsigned 8 bit integer from a complete 1-byte buffer. A single
/// byte has the same value under every ordering, so none is asked for.
pub fn read_u8(buf: &[u8]) -> (r: u8)
    requires
        buf@.len() == 1,
    ensures
        r == buf@[0],
{
    buf[0]
}

/// Reads a signed 8 bit integer from a complete 1-byte buffer.
pub fn read_i8(buf: &[u8]) -> (r: i8)
    requires
        buf@.len() == 1,
    ensures
        r == signed_value(buf@[0] as nat, 1),
{
    let b = buf[0];
    proof {
        reveal_with_fuel(pow256, 2);
    }
    if b < 128 {
        b as i8
    } else {
        (b as i16 - 256) as i8
    }
}

/// Writes an unsigned 8 bit integer as its 1-byte buffer.
pub fn write_u8(v: u8) -> (r: Vec<u8>)
    ensures
        r@ == seq![v],
{
    let mut r = Vec::<u8>::new();
    r.push(v);
    proof {
        assert(r@ =~= seq![v]);
    }
    r
}

/// Writes a signed 8 bit integer as its 1-byte two's-complement buffer.
pub fn write_i8(v: i8) -> (r: Vec<u8>)
    ensures
        r@.len() == 1,
        r@[0] == unsigned_rep(v as int, 1),
{
    proof {
        reveal_with_fuel(pow256, 2);
    }
    let b: u8 = if v >= 0 {
        proof {
            lemma_small_mod(v as nat, 256);
        }
        v as u8
    } else {
        proof {
            lemma_mod_multiples_vanish(1, v as int, 256);
            lemma_small_mod((v + 256) as nat, 256);
        }
        (v as i16 + 256) as u8
    };
    let mut r = Vec::<u8>::new();
    r.push(b);
    r
}

/// Reads an unsigned 16 bit integer from a complete 2-byte buffer.
pub fn read_u16(buf: &[u8], e: Endianness) -> (r: u16)
    requires
        buf@.len() == 2,
    ensures
        r == wire_value(buf@, e),
{
    let v = decode_unsigned(buf, e);
    proof {
        lemma_wire_value_bound(buf@, e);
        reveal_with_fuel(pow256, 3);
    }
    v as u16
}

/// Reads a signed 16 bit integer from a complete 2-byte buffer.
pub fn read_i16(buf: &[u8], e: Endianness) -> (r: i16)
    requires
        buf@.len() == 2,
    ensures
        r == signed_value(wire_value(buf@, e), 2),
{
    let v = decode_unsigned(buf, e);
    proof {
        lemma_wire_value_bound(buf@, e);
        lemma_signed_value_bounds(wire_value(buf@, e), 2);
        reveal_with_fuel(pow256, 3);
    }
    let s = to_signed(v, 2);
    s as i16
}

/// Reads an unsigned 24 bit integer from a complete 3-byte buffer.
pub fn read_u24(buf: &[u8], e: Endianness) -> (r: u32)
    requires
        buf@.len() == 3,
    ensures
        r == wire_value(buf@, e),
{
    let v = decode_unsigned(buf, e);
    proof {
        lemma_wire_value_bound(buf@, e);
        reveal_with_fuel(pow256, 4);
    }
    v as u32
}

/// Reads a signed 24 bit integer from a complete 3-byte buffer,
/// sign-extending from the most significant present byte.
pub fn read_i24(buf: &[u8], e: Endianness) -> (r: i32)
    requires
        buf@.len() == 3,
    ensures
        r == signed_value(wire_value(buf@, e), 3),
{
    let v = decode_unsigned(buf, e);
    proof {
        lemma_wire_value_bound(buf@, e);
        lemma_signed_value_bounds(wire_value(buf@, e), 3);
        reveal_with_fuel(pow256, 4);
    }
    let s = to_signed(v, 3);
    s as i32
}

/// Reads an unsigned 32 bit integer from a complete 4-byte buffer.
pub fn read_u32(buf: &[u8], e: Endianness) -> (r: u32)
    requires
        buf@.len() == 4,
    ensures
        r == wire_value(buf@, e),
{
    let v = decode_unsigned(buf, e);
    proof {
        lemma_wire_value_bound(buf@, e);
        reveal_with_fuel(pow256, 5);
    }
    v as u32
}

/// Reads a signed 32 bit integer from a complete 4-byte buffer.
pub fn read_i32(buf: &[u8], e: Endianness) -> (r: i32)
    requires
        buf@.len() == 4,
    ensures
        r == signed_value(wire_value(buf@, e), 4),
{
    let v = decode_unsigned(buf, e);
    proof {
        lemma_wire_value_bound(buf@, e);
        lemma_signed_value_bounds(wire_value(buf@, e), 4);
        reveal_with_fuel(pow256, 5);
    }
    let s = to_signed(v, 4);
    s as i32
}

/// Reads an unsigned 48 bit integer from a complete 6-byte buffer.
pub fn read_u48(buf: &[u8], e: Endianness) -> (r: u64)
    requires
        buf@.len() == 6,
    ensures
        r == wire_value(buf@, e),
{
    let v = decode_unsigned(buf, e);
    proof {
        lemma_wire_value_bound(buf@, e);
        reveal_with_fuel(pow256, 7);
    }
    v as u64
}

/// Reads a signed 48 bit integer from a complete 6-byte buffer,
/// sign-extending from the most significant present byte.
pub fn read_i48(buf: &[u8], e: Endianness) -> (r: i64)
    requires
        buf@.len() == 6,
    ensures
        r == signed_value(wire_value(buf@, e), 6),
{
    let v = decode_unsigned(buf, e);
    proof {
        lemma_wire_value_bound(buf@, e);
        lemma_signed_value_bounds(wire_value(buf@, e), 6);
        reveal_with_fuel(pow256, 7);
    }
    let s = to_signed(v, 6);
    s as i64
}

/// Reads an unsigned 64 bit integer from a complete 8-byte buffer.
pub fn read_u64(buf: &[u8], e: Endianness) -> (r: u64)
    requires
        buf@.len() == 8,
    ensures
        r == wire_value(buf@, e),
{
    let v = decode_unsigned(buf, e);
    proof {
        lemma_wire_value_bound(buf@, e);
        reveal_with_fuel(pow256, 9);
    }
    v as u64
}

/// Reads a signed 64 bit integer from a complete 8-byte buffer.
pub fn read_i64(buf: &[u8], e: Endianness) -> (r: i64)
    requires
        buf@.len() == 8,
    ensures
        r == signed_value(wire_value(buf@, e), 8),
{
    let v = decode_unsigned(buf, e);
    proof {
        lemma_wire_value_bound(buf@, e);
        lemma_signed_value_bounds(wire_value(buf@, e), 8);
        reveal_with_fuel(pow256, 9);
    }
    let s = to_signed(v, 8);
    s as i64
}

/// Reads an unsigned 128 bit integer from a complete 16-byte buffer.
pub fn read_u128(buf: &[u8], e: Endianness) -> (r: u128)
    requires
        buf@.len() == 16,
    ensures
        r == wire_value(buf@, e),
{
    decode_unsigned(buf, e)
}

/// Reads a signed 128 bit integer from a complete 16-byte buffer.
pub fn read_i128(buf: &[u8], e: Endianness) -> (r: i128)
    requires
        buf@.len() == 16,
    ensures
        r == signed_value(wire_value(buf@, e), 16),
{
    let v = decode_unsigned(buf, e);
    proof {
        lemma_wire_value_bound(buf@, e);
    }
    to_signed(v, 16)
}

/// Writes an unsigned 16 bit integer as its 2-byte buffer under `e`.
pub fn write_u16(v: u16, e: Endianness) -> (r: Vec<u8>)
    ensures
        r@ == wire_bytes(v as nat, 2, e),
        r@.len() == 2,
{
    proof {
        lemma_wire_bytes_len(v as nat, 2, e);
    }
    encode_unsigned(v as u128, 2, e)
}

/// Writes a signed 16 bit integer as its 2-byte two's-complement buffer.
pub fn write_i16(v: i16, e: Endianness) -> (r: Vec<u8>)
    ensures
        r@ == wire_bytes(unsigned_rep(v as int, 2), 2, e),
        r@.len() == 2,
{
    proof {
        lemma_wire_bytes_len(unsigned_rep(v as int, 2), 2, e);
    }
    encode_signed(v as i128, 2, e)
}

/// Writes the low 24 bits of an unsigned 32 bit integer as a 3-byte buffer:
/// bytes that do not fit are dropped, per the truncation law.
pub fn write_u24(v: u32, e: Endianness) -> (r: Vec<u8>)
    ensures
        r@ == wire_bytes(v as nat, 3, e),
        r@.len() == 3,
{
    proof {
        lemma_wire_bytes_len(v as nat, 3, e);
    }
    encode_unsigned(v as u128, 3, e)
}

/// Writes the low 24 bits of a signed 32 bit integer as a 3-byte
/// two's-complement buffer, keeping only the bytes that fit.
pub fn write_i24(v: i32, e: Endianness) -> (r: Vec<u8>)
    ensures
        r@ == wire_bytes(unsigned_rep(v as int, 3), 3, e),
        r@.len() == 3,
{
    proof {
        lemma_wire_bytes_len(unsigned_rep(v as int, 3), 3, e);
    }
    encode_signed(v as i128, 3, e)
}

/// Writes an unsigned 32 bit integer as its 4-byte buffer under `e`.
pub fn write_u32(v: u32, e: Endianness) -> (r: Vec<u8>)
    ensures
        r@ == wire_bytes(v as nat, 4, e),
        r@.len() == 4,
{
    proof {
        lemma_wire_bytes_len(v as nat, 4, e);
    }
    encode_unsigned(v as u128, 4, e)
}

/// Writes a signed 32 bit integer as its 4-byte two's-complement buffer.
pub fn write_i32(v: i32, e: Endianness) -> (r: Vec<u8>)
    ensures
        r@ == wire_bytes(unsigned_rep(v as int, 4), 4, e),
        r@.len() == 4,
{
    proof {
        lemma_wire_bytes_len(unsigned_rep(v as int, 4), 4, e);
    }
    encode_signed(v as i128, 4, e)
}

/// Writes the low 48 bits of an unsigned 64 bit integer as a 6-byte buffer:
/// bytes that do not fit are dropped, per the truncation law.
pub fn write_u48(v: u64, e: Endianness) -> (r: Vec<u8>)
    ensures
        r@ == wire_bytes(v as nat, 6, e),
        r@.len() == 6,
{
    proof {
        lemma_wire_bytes_len(v as nat, 6, e);
    }
    encode_unsigned(v as u128, 6, e)
}

/// Writes the low 48 bits of a signed 64 bit integer as a 6-byte
/// two's-complement buffer, keeping only the bytes that fit.
pub fn write_i48(v: i64, e: Endianness) -> (r: Vec<u8>)
    ensures
        r@ == wire_bytes(unsigned_rep(v as int, 6), 6, e),
        r@.len() == 6,
{
    proof {
        lemma_wire_bytes_len(unsigned_rep(v as int, 6), 6, e);
    }
    encode_signed(v as i128, 6, e)
}

/// Writes an unsigned 64 bit integer as its 8-byte buffer under `e`.
pub fn write_u64(v: u64, e: Endianness) -> (r: Vec<u8>)
    ensures
        r@ == wire_bytes(v as nat, 8, e),
        r@.len() == 8,
{
    proof {
        lemma_wire_bytes_len(v as nat, 8, e);
    }
    encode_unsigned(v as u128, 8, e)
}

/// Writes a signed 64 bit integer as its 8-byte two's-complement buffer.
pub fn write_i64(v: i64, e: Endianness) -> (r: Vec<u8>)
    ensures
        r@ == wire_bytes(unsigned_rep(v as int, 8), 8, e),
        r@.len() == 8,
{
    proof {
        lemma_wire_bytes_len(unsigned_rep(v as int, 8), 8, e);
    }
    encode_signed(v as i128, 8, e)
}

/// Writes an unsigned 128 bit integer as its 16-byte buffer under `e`.
pub fn write_u128(v: u128, e: Endianness) -> (r: Vec<u8>)
    ensures
        r@ == wire_bytes(v as nat, 16, e),
        r@.len() == 16,
{
    proof {
        lemma_wire_bytes_len(v as nat, 16, e);
    }
    encode_unsigned(v, 16, e)
}

/// Writes a signed 128 bit integer as its 16-byte two's-complement buffer.
pub fn write_i128(v: i128, e: Endianness) -> (r: Vec<u8>)
    ensures
        r@ == wire_bytes(unsigned_rep(v as int, 16), 16, e),
        r@.len() == 16,
{
    proof {
        lemma_wire_bytes_len(unsigned_rep(v as int, 16), 16, e);
    }
    encode_signed(v, 16, e)
}

} // verus!

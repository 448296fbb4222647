//! Byte-level renderers: lowercase hex for byte strings, and minimal hex and
//! decimal digit strings for numbers. These feed the relay request body,
//! whose bytes must be reproducible exactly.

use vstd::arithmetic::div_mod::{lemma_div_is_ordered_by_denominator, lemma_fundamental_div_mod,
    lemma_mod_bound};
use vstd::prelude::*;

verus! {

/// The lowercase hex digit for a value under sixteen.
pub open spec fn spec_hex_digit(d: nat) -> u8 {
    if d < 10 {
        (48 + d) as u8
    } else {
        (87 + d) as u8
    }
}

fn hex_digit(d: u64) -> (r: u8)
    requires
        d < 16,
    ensures
        r == spec_hex_digit(d as nat),
{
    if d < 10 {
        (48 + d) as u8
    } else {
        (87 + d) as u8
    }
}

/// Lowercase hex of a byte string: two digits per byte, in order.
pub open spec fn spec_hex_bytes(s: Seq<u8>) -> Seq<u8> {
    Seq::new(2 * s.len(), |i: int| if i % 2 == 0 {
        spec_hex_digit((s[i / 2] / 16) as nat)
    } else {
        spec_hex_digit((s[i / 2] % 16) as nat)
    })
}

/// Append the lowercase hex rendering of `s` to `out`.
pub fn push_hex_bytes(out: &mut Vec<u8>, s: &Vec<u8>)
    ensures
        final(out)@ == old(out)@ + spec_hex_bytes(s@),
{
    let n = s.len();
    let ghost base: Seq<u8> = out@;
    let mut i: usize = 0;
    while i < n
        invariant
            n == s@.len(),
            i <= n,
            out@.len() == base.len() + 2 * i,
            forall|j: int| 0 <= j < base.len() ==> out@[j] == base[j],
            forall|j: int| 0 <= j < 2 * i ==> out@[base.len() + j] == spec_hex_bytes(s@)[j],
        decreases n - i,
    {
        let b = s[i];
        out.push(hex_digit((b / 16) as u64));
        out.push(hex_digit((b % 16) as u64));
        i = i + 1;
    }
    proof {
        assert(out@ =~= base + spec_hex_bytes(s@));
    }
}

/// Minimal hex digits of a number, empty for zero.
pub open spec fn spec_hex_nat(n: nat) -> Seq<u8>
    decreases n,
{
    if n == 0 {
        Seq::empty()
    } else {
        spec_hex_nat(n / 16).push(spec_hex_digit(n % 16))
    }
}

/// The hex digits of a number as rendered in quantities: minimal, and a
/// single zero digit for zero.
pub open spec fn spec_hex_u64(n: nat) -> Seq<u8> {
    if n == 0 {
        seq![48u8]
    } else {
        spec_hex_nat(n)
    }
}

fn hex_nat_digits(n: u64) -> (r: Vec<u8>)
    ensures
        r@ == spec_hex_nat(n as nat),
    decreases n,
{
    if n == 0 {
        let v: Vec<u8> = Vec::new();
        proof {
            assert(v@ =~= Seq::<u8>::empty());
        }
        v
    } else {
        proof {
            lemma_div_is_ordered_by_denominator(n as int, 1, 16);
            lemma_fundamental_div_mod(n as int, 16);
            lemma_mod_bound(n as int, 16);
        }
        let mut v = hex_nat_digits(n / 16);
        v.push(hex_digit(n % 16));
        v
    }
}

/// Append the minimal hex rendering of `n` (one zero digit for zero).
pub fn push_hex_u64(out: &mut Vec<u8>, n: u64)
    ensures
        final(out)@ == old(out)@ + spec_hex_u64(n as nat),
{
    if n == 0 {
        out.push(48);
    } else {
        let digits = hex_nat_digits(n);
        let m = digits.len();
        let ghost base: Seq<u8> = out@;
        let mut i: usize = 0;
        while i < m
            invariant
                m == digits@.len(),
                i <= m,
                out@ =~= base + digits@.subrange(0, i as int),
            decreases m - i,
        {
            out.push(digits[i]);
            proof {
                assert(out@ =~= base + digits@.subrange(0, i + 1));
            }
            i = i + 1;
        }
        proof {
            assert(digits@.subrange(0, m as int) =~= digits@);
        }
    }
}

/// The hex digits of a 128-bit number: minimal, a single zero for zero.
pub open spec fn spec_hex_u128(n: nat) -> Seq<u8> {
    if n == 0 {
        seq![48u8]
    } else {
        spec_hex_nat(n)
    }
}

fn hex_nat_digits_u128(n: u128) -> (r: Vec<u8>)
    ensures
        r@ == spec_hex_nat(n as nat),
    decreases n,
{
    if n == 0 {
        let v: Vec<u8> = Vec::new();
        proof {
            assert(v@ =~= Seq::<u8>::empty());
        }
        v
    } else {
        proof {
            lemma_div_is_ordered_by_denominator(n as int, 1, 16);
            lemma_fundamental_div_mod(n as int, 16);
            lemma_mod_bound(n as int, 16);
        }
        let mut v = hex_nat_digits_u128(n / 16);
        v.push(hex_digit((n % 16) as u64));
        v
    }
}

/// Append the minimal hex rendering of a 128-bit number.
pub fn push_hex_u128(out: &mut Vec<u8>, n: u128)
    ensures
        final(out)@ == old(out)@ + spec_hex_u128(n as nat),
{
    if n == 0 {
        out.push(48);
    } else {
        let digits = hex_nat_digits_u128(n);
        push_bytes(out, &digits);
    }
}

/// Decimal digits of a number, empty for zero.
pub open spec fn spec_dec_nat(n: nat) -> Seq<u8>
    decreases n,
{
    if n == 0 {
        Seq::empty()
    } else {
        spec_dec_nat(n / 10).push((48 + n % 10) as u8)
    }
}

/// The decimal rendering of a number: minimal digits, `0` for zero.
pub open spec fn spec_dec_u64(n: nat) -> Seq<u8> {
    if n == 0 {
        seq![48u8]
    } else {
        spec_dec_nat(n)
    }
}

fn dec_nat_digits(n: u64) -> (r: Vec<u8>)
    ensures
        r@ == spec_dec_nat(n as nat),
    decreases n,
{
    if n == 0 {
        let v: Vec<u8> = Vec::new();
        proof {
            assert(v@ =~= Seq::<u8>::empty());
        }
        v
    } else {
        proof {
            lemma_div_is_ordered_by_denominator(n as int, 1, 10);
            lemma_fundamental_div_mod(n as int, 10);
            lemma_mod_bound(n as int, 10);
        }
        let mut v = dec_nat_digits(n / 10);
        v.push((48 + n % 10) as u8);
        v
    }
}

/// Append the decimal rendering of `n`.
pub fn push_dec_u64(out: &mut Vec<u8>, n: u64)
    ensures
        final(out)@ == old(out)@ + spec_dec_u64(n as nat),
{
    if n == 0 {
        out.push(48);
    } else {
        let digits = dec_nat_digits(n);
        let m = digits.len();
        let ghost base: Seq<u8> = out@;
        let mut i: usize = 0;
        while i < m
            invariant
                m == digits@.len(),
                i <= m,
                out@ =~= base + digits@.subrange(0, i as int),
            decreases m - i,
        {
            out.push(digits[i]);
            proof {
                assert(out@ =~= base + digits@.subrange(0, i + 1));
            }
            i = i + 1;
        }
        proof {
            assert(digits@.subrange(0, m as int) =~= digits@);
        }
    }
}

/// Append a fixed run of bytes.
pub fn push_bytes(out: &mut Vec<u8>, s: &Vec<u8>)
    ensures
        final(out)@ == old(out)@ + s@,
{
    let n = s.len();
    let ghost base: Seq<u8> = out@;
    let mut i: usize = 0;
    while i < n
        invariant
            n == s@.len(),
            i <= n,
            out@ =~= base + s@.subrange(0, i as int),
        decreases n - i,
    {
        out.push(s[i]);
        proof {
            assert(out@ =~= base + s@.subrange(0, i + 1));
        }
        i = i + 1;
    }
    proof {
        assert(s@.subrange(0, n as int) =~= s@);
    }
}

} // verus!

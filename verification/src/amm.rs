//! Constant-product swap kernel.
//!
//! One hop on a UniV2-style pool: the output amount for a given input under a
//! basis-point fee, together with the post-swap reserves for chaining. All
//! arithmetic is 256-bit saturating; zero reserves or a zero input yield a
//! zero output.

use crate::u256::{div0, sat_add, sat_mul, sat_sub, u256_max, U256};
use vstd::arithmetic::div_mod::{
    lemma_div_is_ordered, lemma_div_is_ordered_by_denominator, lemma_div_multiples_vanish,
    lemma_fundamental_div_mod, lemma_mod_bound,
};
use vstd::prelude::*;

verus! {

/// The fee complement in basis points: what remains of each input unit.
pub open spec fn fee_keep(fee_bps: nat) -> nat {
    sat_sub(10000, fee_bps)
}

/// Output amount of one constant-product hop, in saturating arithmetic.
pub open spec fn spec_amount_out(amount_in: nat, r_in: nat, r_out: nat, fee_bps: nat) -> nat {
    if amount_in == 0 || r_in == 0 || r_out == 0 {
        0
    } else {
        let a = sat_mul(amount_in, fee_keep(fee_bps));
        let num = sat_mul(a, r_out);
        let den = sat_add(sat_mul(r_in, 10000), a);
        div0(num, den)
    }
}

/// One hop: output amount and the reserves after the swap.
pub open spec fn spec_swap(amount_in: nat, r_in: nat, r_out: nat, fee_bps: nat) -> (nat, nat, nat) {
    let out = spec_amount_out(amount_in, r_in, r_out, fee_bps);
    (out, sat_add(r_in, amount_in), sat_sub(r_out, out))
}

/// Executable constant-product hop, pinned to `spec_swap`.
pub fn swap(amount_in: &U256, r_in: &U256, r_out: &U256, fee_bps: u64) -> (r: (U256, U256, U256))
    ensures
        r.0@ == spec_amount_out(amount_in@, r_in@, r_out@, fee_bps as nat),
        r.1@ == sat_add(r_in@, amount_in@),
        r.2@ == sat_sub(r_out@, spec_amount_out(amount_in@, r_in@, r_out@, fee_bps as nat)),
{
    let new_r_in = r_in.add_sat(amount_in);
    if amount_in.is_zero() || r_in.is_zero() || r_out.is_zero() {
        return (U256::zero(), new_r_in, *r_out);
    }
    let keep: u64 = if fee_bps >= 10000 {
        0
    } else {
        10000 - fee_bps
    };
    let a = amount_in.mul_u64_sat(keep);
    let num = a.mul_sat(r_out);
    let den = r_in.mul_u64_sat(10000).add_sat(&a);
    let out = num.div_or_zero(&den);
    let new_r_out = r_out.sub_sat(&out);
    (out, new_r_in, new_r_out)
}

/// The output of a hop never exceeds the output-side reserve.
pub proof fn lemma_amount_out_le_reserve(amount_in: nat, r_in: nat, r_out: nat, fee_bps: nat)
    ensures
        spec_amount_out(amount_in, r_in, r_out, fee_bps) <= r_out,
{
    if amount_in == 0 || r_in == 0 || r_out == 0 {
    } else {
        let a = sat_mul(amount_in, fee_keep(fee_bps));
        let num = sat_mul(a, r_out);
        let den = sat_add(sat_mul(r_in, 10000), a);
        if a == 0 {
            assert(a * r_out == 0) by (nonlinear_arith)
                requires
                    a == 0,
            ;
            assert(num == 0);
        } else if den == u256_max() {
            // num <= den, so the quotient is at most 1 <= r_out.
            lemma_div_is_ordered(num as int, den as int, den as int);
            lemma_div_multiples_vanish(1, den as int);
        } else {
            // No saturation in the sum: den >= a > 0.
            assert(den >= a);
            assert(num <= a * r_out);
            lemma_div_is_ordered_by_denominator(num as int, a as int, den as int);
            lemma_div_is_ordered(num as int, (a * r_out) as int, a as int);
            lemma_div_multiples_vanish(r_out as int, a as int);
            assert(a * r_out == r_out * a) by (nonlinear_arith);
            assert(num / den <= r_out);
        }
    }
}

/// Constant-product monotonicity: with the fee retained in the pool, the
/// product of the reserves never decreases across a hop. Stated for inputs on
/// which none of the intermediate 256-bit quantities saturates.
pub proof fn lemma_constant_product(amount_in: nat, r_in: nat, r_out: nat, fee_bps: nat)
    requires
        r_in > 0,
        r_out > 0,
        fee_bps <= 10000,
        r_in * 10000 + amount_in * (10000 - fee_bps) <= u256_max(),
        amount_in * (10000 - fee_bps) * r_out <= u256_max(),
    ensures
        spec_amount_out(amount_in, r_in, r_out, fee_bps) <= r_out,
        (r_in + amount_in) * (r_out - spec_amount_out(amount_in, r_in, r_out, fee_bps)) >= r_in
            * r_out,
{
    lemma_amount_out_le_reserve(amount_in, r_in, r_out, fee_bps);
    let out = spec_amount_out(amount_in, r_in, r_out, fee_bps);
    let k = (10000 - fee_bps) as nat;
    let f = fee_bps;
    if amount_in == 0 {
        assert((r_in + amount_in) * (r_out - out) == r_in * r_out);
    } else {
        let a = (amount_in * k) as nat;
        let den = (r_in * 10000 + a) as nat;
        let num = (a * r_out) as nat;
        // The saturating operations are exact on these inputs.
        assert(a <= u256_max()) by (nonlinear_arith)
            requires
                r_in * 10000 + a <= u256_max(),
                r_in > 0,
                a >= 0,
        ;
        assert(sat_mul(amount_in, fee_keep(fee_bps)) == a);
        assert(sat_mul(r_in, 10000) == r_in * 10000);
        assert(sat_add((r_in * 10000) as nat, a) == den);
        assert(sat_mul(a, r_out) == num);
        assert(den > 0);
        assert(out == num / den);
        // Flooring division: out * den <= num.
        lemma_fundamental_div_mod(num as int, den as int);
        lemma_mod_bound(num as int, den as int);
        assert(out * den == den * out) by (nonlinear_arith);
        assert(out * den <= num);
        // out * (10000 r_in + 10000 amount_in) <= 10000 amount_in r_out.
        assert(out * (10000 * r_in + 10000 * amount_in) <= (10000 * amount_in) * r_out)
            by (nonlinear_arith)
            requires
                out * (r_in * 10000 + amount_in * k) <= (amount_in * k) * r_out,
                out <= r_out,
                k + f == 10000,
                amount_in >= 0,
                r_out >= 0,
                f >= 0,
        ;
        // Cancel the factor 10000 and rearrange into the product form.
        assert((r_in + amount_in) * (r_out - out) >= r_in * r_out) by (nonlinear_arith)
            requires
                out * (10000 * r_in + 10000 * amount_in) <= (10000 * amount_in) * r_out,
                out <= r_out,
        ;
    }
}

} // verus!

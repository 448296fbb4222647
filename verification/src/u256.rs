//! 256-bit unsigned arithmetic with saturating semantics.
//!
//! Pool reserves, token amounts and gas prices are 256-bit quantities on the
//! chain. Every operation here is verified against the mathematical value of
//! the four 64-bit limbs; overflow clamps to the maximum and underflow clamps
//! to zero, matching the saturating semantics the pricing math relies on.

use vstd::arithmetic::div_mod::lemma_fundamental_div_mod_converse;
use vstd::arithmetic::power2::{pow2, lemma2_to64, lemma2_to64_rest, lemma_pow2_adds, lemma_pow2_unfold};
use vstd::prelude::*;

verus! {

/// A 256-bit unsigned integer as four 64-bit limbs, least significant first.
#[derive(Clone, Copy, Debug, PartialEq, Eq, Structural, Hash)]
pub struct U256 {
    pub l0: u64,
    pub l1: u64,
    pub l2: u64,
    pub l3: u64,
}

/// 2^64, 2^128, 2^192, 2^256 as spec-level constants.
pub open spec fn b64() -> nat {
    0x10000000000000000nat
}

pub open spec fn b128() -> nat {
    0x100000000000000000000000000000000nat
}

pub open spec fn b192() -> nat {
    0x1000000000000000000000000000000000000000000000000nat
}

pub open spec fn b256() -> nat {
    0x10000000000000000000000000000000000000000000000000000000000000000nat
}

/// Largest representable value, 2^256 - 1.
pub open spec fn u256_max() -> nat {
    (b256() - 1) as nat
}

impl View for U256 {
    type V = nat;

    open spec fn view(&self) -> nat {
        (self.l0 + self.l1 * b64() + self.l2 * b128() + self.l3 * b192()) as nat
    }
}

impl U256 {
    pub fn zero() -> (r: U256)
        ensures
            r@ == 0,
    {
        U256 { l0: 0, l1: 0, l2: 0, l3: 0 }
    }

    pub fn max_value() -> (r: U256)
        ensures
            r@ == u256_max(),
    {
        U256 { l0: u64::MAX, l1: u64::MAX, l2: u64::MAX, l3: u64::MAX }
    }

    pub fn from_u64(v: u64) -> (r: U256)
        ensures
            r@ == v,
    {
        U256 { l0: v, l1: 0, l2: 0, l3: 0 }
    }

    pub fn from_u128(v: u128) -> (r: U256)
        ensures
            r@ == v,
    {
        let lo = v as u64;
        let hi = (v >> 64) as u64;
        proof {
            lemma_u128_split(v);
        }
        U256 { l0: lo, l1: hi, l2: 0, l3: 0 }
    }

    pub fn is_zero(&self) -> (r: bool)
        ensures
            r <==> self@ == 0,
    {
        self.l0 == 0 && self.l1 == 0 && self.l2 == 0 && self.l3 == 0
    }
}

/// A u128 splits into its low and high 64-bit halves.
pub proof fn lemma_u128_split(s: u128)
    ensures
        s as u64 == s % 0x10000000000000000,
        (s >> 64) == s / 0x10000000000000000,
        s == (s / 0x10000000000000000) * 0x10000000000000000 + (s % 0x10000000000000000),
{
    assert(s as u64 == s % 0x10000000000000000) by (bit_vector);
    assert((s >> 64) == s / 0x10000000000000000) by (bit_vector);
    assert(s == (s / 0x10000000000000000) * 0x10000000000000000 + (s
        % 0x10000000000000000)) by (bit_vector);
}

impl U256 {
    /// Strict comparison by limbs, most significant first.
    pub fn lt(&self, other: &U256) -> (r: bool)
        ensures
            r <==> self@ < other@,
    {
        if self.l3 != other.l3 {
            self.l3 < other.l3
        } else if self.l2 != other.l2 {
            self.l2 < other.l2
        } else if self.l1 != other.l1 {
            self.l1 < other.l1
        } else {
            self.l0 < other.l0
        }
    }

    pub fn le(&self, other: &U256) -> (r: bool)
        ensures
            r <==> self@ <= other@,
    {
        !other.lt(self)
    }

    pub fn gt(&self, other: &U256) -> (r: bool)
        ensures
            r <==> self@ > other@,
    {
        other.lt(self)
    }

    pub fn ge(&self, other: &U256) -> (r: bool)
        ensures
            r <==> self@ >= other@,
    {
        !self.lt(other)
    }

    /// Addition modulo 2^256 together with the carry out.
    pub fn overflowing_add(&self, other: &U256) -> (r: (U256, bool))
        ensures
            r.0@ + (if r.1 { b256() } else { 0nat }) == self@ + other@,
    {
        let s0: u128 = self.l0 as u128 + other.l0 as u128;
        let r0 = s0 as u64;
        let c0 = (s0 >> 64) as u64;
        let s1: u128 = self.l1 as u128 + other.l1 as u128 + c0 as u128;
        let r1 = s1 as u64;
        let c1 = (s1 >> 64) as u64;
        let s2: u128 = self.l2 as u128 + other.l2 as u128 + c1 as u128;
        let r2 = s2 as u64;
        let c2 = (s2 >> 64) as u64;
        let s3: u128 = self.l3 as u128 + other.l3 as u128 + c2 as u128;
        let r3 = s3 as u64;
        let c3 = (s3 >> 64) as u64;
        proof {
            lemma_u128_split(s0);
            lemma_u128_split(s1);
            lemma_u128_split(s2);
            lemma_u128_split(s3);
        }
        (U256 { l0: r0, l1: r1, l2: r2, l3: r3 }, c3 == 1)
    }

    /// Saturating addition: clamps to the maximum on overflow.
    pub fn add_sat(&self, other: &U256) -> (r: U256)
        ensures
            r@ == sat_add(self@, other@),
    {
        let (sum, carry) = self.overflowing_add(other);
        if carry {
            U256::max_value()
        } else {
            sum
        }
    }

    /// Subtraction modulo 2^256 together with the borrow out.
    /// The borrow is set exactly when `self < other`.
    pub fn overflowing_sub(&self, other: &U256) -> (r: (U256, bool))
        ensures
            r.0@ == self@ - other@ + (if r.1 { b256() } else { 0nat }),
            r.1 <==> self@ < other@,
    {
        let s0: u128 = 0x10000000000000000u128 + self.l0 as u128 - other.l0 as u128;
        let r0 = s0 as u64;
        proof {
            lemma_u128_split(s0);
        }
        let b0: u128 = 1 - (s0 >> 64);
        let s1: u128 = 0x10000000000000000u128 + self.l1 as u128 - other.l1 as u128 - b0;
        let r1 = s1 as u64;
        proof {
            lemma_u128_split(s1);
        }
        let b1: u128 = 1 - (s1 >> 64);
        let s2: u128 = 0x10000000000000000u128 + self.l2 as u128 - other.l2 as u128 - b1;
        let r2 = s2 as u64;
        proof {
            lemma_u128_split(s2);
        }
        let b2: u128 = 1 - (s2 >> 64);
        let s3: u128 = 0x10000000000000000u128 + self.l3 as u128 - other.l3 as u128 - b2;
        let r3 = s3 as u64;
        proof {
            lemma_u128_split(s3);
        }
        let b3: u128 = 1 - (s3 >> 64);
        (U256 { l0: r0, l1: r1, l2: r2, l3: r3 }, b3 == 1)
    }

    /// Saturating subtraction: clamps to zero on underflow.
    pub fn sub_sat(&self, other: &U256) -> (r: U256)
        ensures
            r@ == sat_sub(self@, other@),
    {
        let (diff, borrow) = self.overflowing_sub(other);
        if borrow {
            U256::zero()
        } else {
            diff
        }
    }

    /// Doubling modulo 2^256 together with the bit shifted out at the top.
    pub fn shl1(&self) -> (r: (U256, u64))
        ensures
            r.0@ == 2 * self@ - r.1 * b256(),
            r.1 <= 1,
    {
        let s0: u128 = 2 * (self.l0 as u128);
        let r0 = s0 as u64;
        let c0 = (s0 >> 64) as u64;
        let s1: u128 = 2 * (self.l1 as u128) + c0 as u128;
        let r1 = s1 as u64;
        let c1 = (s1 >> 64) as u64;
        let s2: u128 = 2 * (self.l2 as u128) + c1 as u128;
        let r2 = s2 as u64;
        let c2 = (s2 >> 64) as u64;
        let s3: u128 = 2 * (self.l3 as u128) + c2 as u128;
        let r3 = s3 as u64;
        let c3 = (s3 >> 64) as u64;
        proof {
            lemma_u128_split(s0);
            lemma_u128_split(s1);
            lemma_u128_split(s2);
            lemma_u128_split(s3);
        }
        (U256 { l0: r0, l1: r1, l2: r2, l3: r3 }, c3)
    }
}

/// Mathematical addition clamped to the representable range.
pub open spec fn sat_add(a: nat, b: nat) -> nat {
    if a + b > u256_max() {
        u256_max()
    } else {
        a + b
    }
}

/// Mathematical subtraction clamped to zero.
pub open spec fn sat_sub(a: nat, b: nat) -> nat {
    if a >= b {
        (a - b) as nat
    } else {
        0
    }
}

/// Mathematical multiplication clamped to the representable range.
pub open spec fn sat_mul(a: nat, b: nat) -> nat {
    if a * b > u256_max() {
        u256_max()
    } else {
        a * b
    }
}

/// Multiplying a four-limb value by a scalar distributes over the limbs.
proof fn lemma_distribute_limbs_scalar(a0: int, a1: int, a2: int, a3: int, m: int)
    by (nonlinear_arith)
    ensures
        (a0 + a1 * 0x10000000000000000 + a2 * 0x100000000000000000000000000000000 + a3
            * 0x1000000000000000000000000000000000000000000000000) * m == a0 * m + (a1 * m)
            * 0x10000000000000000 + (a2 * m) * 0x100000000000000000000000000000000 + (a3 * m)
            * 0x1000000000000000000000000000000000000000000000000,
{
}

/// Multiplying a scalar by a four-limb value distributes over the limbs.
proof fn lemma_distribute_scalar_limbs(m: int, a0: int, a1: int, a2: int, a3: int)
    by (nonlinear_arith)
    ensures
        m * (a0 + a1 * 0x10000000000000000 + a2 * 0x100000000000000000000000000000000 + a3
            * 0x1000000000000000000000000000000000000000000000000) == m * a0 + (m * a1)
            * 0x10000000000000000 + (m * a2) * 0x100000000000000000000000000000000 + (m * a3)
            * 0x1000000000000000000000000000000000000000000000000,
{
}

/// The product of two 64-bit values fits in 128 bits with room for a carry.
proof fn lemma_mul_u64_bound(a: u64, b: u64)
    by (nonlinear_arith)
    ensures
        a as nat * b as nat <= 0xfffffffffffffffe0000000000000001nat,
{
}

impl U256 {
    /// Multiplication by a 64-bit scalar; returns the low 256 bits and the
    /// overflowing fifth limb.
    pub fn mul_u64(&self, m: u64) -> (r: (U256, u64))
        ensures
            r.0@ + r.1 * b256() == self@ * m,
    {
        proof {
            lemma_mul_u64_bound(self.l0, m);
            lemma_mul_u64_bound(self.l1, m);
            lemma_mul_u64_bound(self.l2, m);
            lemma_mul_u64_bound(self.l3, m);
        }
        let p0: u128 = self.l0 as u128 * m as u128;
        let r0 = p0 as u64;
        proof {
            lemma_u128_split(p0);
        }
        let c0 = (p0 >> 64) as u64;
        let p1: u128 = self.l1 as u128 * m as u128 + c0 as u128;
        let r1 = p1 as u64;
        proof {
            lemma_u128_split(p1);
        }
        let c1 = (p1 >> 64) as u64;
        let p2: u128 = self.l2 as u128 * m as u128 + c1 as u128;
        let r2 = p2 as u64;
        proof {
            lemma_u128_split(p2);
        }
        let c2 = (p2 >> 64) as u64;
        let p3: u128 = self.l3 as u128 * m as u128 + c2 as u128;
        let r3 = p3 as u64;
        proof {
            lemma_u128_split(p3);
        }
        let c3 = (p3 >> 64) as u64;
        proof {
            lemma_distribute_limbs_scalar(
                self.l0 as int,
                self.l1 as int,
                self.l2 as int,
                self.l3 as int,
                m as int,
            );
        }
        (U256 { l0: r0, l1: r1, l2: r2, l3: r3 }, c3)
    }

    /// Saturating multiplication: clamps to the maximum on overflow.
    #[verifier::rlimit(60)]
    pub fn mul_sat(&self, other: &U256) -> (r: U256)
        ensures
            r@ == sat_mul(self@, other@),
    {
        let (q0, h0) = self.mul_u64(other.l0);
        let (q1, h1) = self.mul_u64(other.l1);
        let (q2, h2) = self.mul_u64(other.l2);
        let (q3, h3) = self.mul_u64(other.l3);
        let ghost total: nat = self@ * other@;
        proof {
            lemma_distribute_scalar_limbs(
                self@ as int,
                other.l0 as int,
                other.l1 as int,
                other.l2 as int,
                other.l3 as int,
            );
        }
        let s0: u128 = q0.l0 as u128;
        let a0 = s0 as u64;
        proof {
            lemma_u128_split(s0);
        }
        let s1: u128 = (s0 >> 64) + q0.l1 as u128 + q1.l0 as u128;
        let a1 = s1 as u64;
        proof {
            lemma_u128_split(s1);
        }
        let s2: u128 = (s1 >> 64) + q0.l2 as u128 + q1.l1 as u128 + q2.l0 as u128;
        let a2 = s2 as u64;
        proof {
            lemma_u128_split(s2);
        }
        let s3: u128 = (s2 >> 64) + q0.l3 as u128 + q1.l2 as u128 + q2.l1 as u128 + q3.l0 as u128;
        let a3 = s3 as u64;
        proof {
            lemma_u128_split(s3);
        }
        let s4: u128 = (s3 >> 64) + h0 as u128 + q1.l3 as u128 + q2.l2 as u128 + q3.l1 as u128;
        let a4 = s4 as u64;
        proof {
            lemma_u128_split(s4);
        }
        let s5: u128 = (s4 >> 64) + h1 as u128 + q2.l3 as u128 + q3.l2 as u128;
        let a5 = s5 as u64;
        proof {
            lemma_u128_split(s5);
        }
        let s6: u128 = (s5 >> 64) + h2 as u128 + q3.l3 as u128;
        let a6 = s6 as u64;
        proof {
            lemma_u128_split(s6);
        }
        let s7: u128 = (s6 >> 64) + h3 as u128;
        let a7 = s7 as u64;
        proof {
            lemma_u128_split(s7);
            assert(a0 + a1 * b64() + a2 * b128() + a3 * b192() + (s7 >> 64) * b256() * b256()
                + a4 * b256() + a5 * b256() * b64() + a6 * b256() * b128() + a7 * b256() * b192()
                == total);
        }
        let low = U256 { l0: a0, l1: a1, l2: a2, l3: a3 };
        if a4 == 0 && a5 == 0 && a6 == 0 && a7 == 0 && (s7 >> 64) == 0 {
            proof {
                assert(low@ == total);
            }
            low
        } else {
            proof {
                assert(total >= b256());
            }
            U256::max_value()
        }
    }
}

/// Concrete values of the powers of two at the limb boundaries.
pub proof fn lemma_pow2_limbs()
    ensures
        pow2(64) == b64(),
        pow2(128) == b128(),
        pow2(192) == b192(),
        pow2(256) == b256(),
{
    lemma2_to64_rest();
    lemma_pow2_adds(64, 64);
    lemma_pow2_adds(128, 64);
    lemma_pow2_adds(192, 64);
}

impl U256 {
    /// Quotient and remainder of flooring division by a nonzero divisor,
    /// computed by restoring long division over the 256 bits of the dividend.
    #[verifier::rlimit(60)]
    pub fn divrem(&self, d: &U256) -> (r: (U256, U256))
        requires
            d@ > 0,
        ensures
            r.0@ == self@ / d@,
            r.1@ == self@ % d@,
    {
        let one = U256::from_u64(1);
        let mut q = U256::zero();
        let mut rem = U256::zero();
        let mut sh = *self;
        let ghost n: nat = self@;
        let ghost mut prefix: nat = 0;
        let ghost mut m: nat = self@;
        let mut k: usize = 0;
        proof {
            lemma_pow2_limbs();
            lemma2_to64();
        }
        while k < 256
            invariant
                d@ > 0,
                k <= 256,
                n == self@,
                n < b256(),
                one@ == 1,
                q@ * d@ + rem@ == prefix,
                rem@ < d@,
                n == prefix * pow2((256 - k) as nat) + m,
                m < pow2((256 - k) as nat),
                sh@ == m * pow2(k as nat),
            decreases 256 - k,
        {
            let ghost k0: nat = k as nat;
            let ghost p_lo: nat = pow2((255 - k0) as nat);
            let ghost p_k1: nat = pow2((k0 + 1) as nat);
            proof {
                lemma_pow2_unfold(k0 + 1);
                lemma_pow2_unfold((256 - k0) as nat);
                lemma_pow2_adds(k0 + 1, (255 - k0) as nat);
                lemma_pow2_limbs();
            }
            // Shift the next dividend bit out at the top.
            let (sh2, top) = sh.shl1();
            proof {
                assert(2 * (m * pow2(k0)) == m * (2 * pow2(k0))) by (nonlinear_arith);
                assert(sh2@ == m * p_k1 - top * b256());
            }
            let ghost m_new: nat = if top == 1 {
                (m - p_lo) as nat
            } else {
                m
            };
            proof {
                if top == 1 {
                    assert(m >= p_lo) by (nonlinear_arith)
                        requires
                            m * p_k1 >= p_k1 * p_lo,
                            p_k1 > 0,
                    ;
                    assert((m - p_lo) * p_k1 == m * p_k1 - p_lo * p_k1) by (nonlinear_arith);
                    assert(sh2@ == m_new * p_k1);
                } else {
                    assert(m < p_lo) by (nonlinear_arith)
                        requires
                            m * p_k1 < p_k1 * p_lo,
                            p_k1 > 0,
                    ;
                }
                assert(m_new < p_lo);
            }
            let ghost prefix_new: nat = (2 * prefix + top) as nat;
            proof {
                assert(prefix * (2 * p_lo) == (2 * prefix) * p_lo) by (nonlinear_arith);
                assert((2 * prefix + top) * p_lo == (2 * prefix) * p_lo + top * p_lo)
                    by (nonlinear_arith);
                assert(n == prefix_new * p_lo + m_new);
                // The new prefix still fits under the dividend.
                assert(prefix_new <= prefix_new * p_lo) by (nonlinear_arith)
                    requires
                        p_lo >= 1,
                ;
                assert(prefix_new <= n);
                assert(q@ <= q@ * d@) by (nonlinear_arith)
                    requires
                        d@ >= 1,
                ;
                assert(q@ <= prefix);
            }
            // Shift the bit into the remainder.
            let (rem2a, rc) = rem.shl1();
            let (rem2b, add_c) = if top == 1 {
                let (t, c) = rem2a.overflowing_add(&one);
                (t, if c { 1u64 } else { 0u64 })
            } else {
                (rem2a, 0u64)
            };
            let ghost full: nat = (2 * rem@ + top) as nat;
            let ghost hi: nat = (rc + add_c) as nat;
            proof {
                assert(rem2b@ + hi * b256() == full);
                assert(full < 2 * b256());
                assert(hi <= 1);
            }
            // Subtract the divisor when it fits.
            let do_sub = rc == 1 || add_c == 1 || rem2b.ge(d);
            let ghost s: nat = if do_sub { 1nat } else { 0nat };
            let ghost rem_new: nat = if do_sub { (full - d@) as nat } else { full };
            if do_sub {
                proof {
                    assert(full >= d@);
                    assert(full - d@ < d@);
                }
                let (diff, _borrow) = rem2b.overflowing_sub(d);
                proof {
                    assert(diff@ == rem_new);
                }
                rem = diff;
            } else {
                proof {
                    assert(rem_new < d@);
                }
                rem = rem2b;
            }
            // Shift the new quotient bit in.
            let ghost q_new: nat = (2 * q@ + s) as nat;
            proof {
                if do_sub {
                    assert((2 * q@ + 1) * d@ == 2 * (q@ * d@) + d@) by (nonlinear_arith);
                } else {
                    assert((2 * q@) * d@ == 2 * (q@ * d@)) by (nonlinear_arith);
                }
                assert(q_new * d@ + rem_new == prefix_new);
                assert(q_new <= q_new * d@) by (nonlinear_arith)
                    requires
                        d@ >= 1,
                ;
                assert(q_new <= prefix_new);
                assert(q_new < b256());
            }
            let (q2, _qc) = q.shl1();
            q = if do_sub {
                let (q3, _qcc) = q2.overflowing_add(&one);
                q3
            } else {
                q2
            };
            proof {
                assert(q@ == q_new);
            }
            sh = sh2;
            k = k + 1;
            proof {
                prefix = prefix_new;
                m = m_new;
            }
        }
        proof {
            lemma2_to64();
            assert(m == 0);
            assert(prefix * pow2(0) == prefix) by (nonlinear_arith)
                requires
                    pow2(0) == 1,
            ;
            assert(prefix == n);
            lemma_fundamental_div_mod_converse(n as int, d@ as int, q@ as int, rem@ as int);
        }
        (q, rem)
    }

    /// Flooring division; a zero divisor yields zero, matching the saturating
    /// convention that a degenerate quote is worthless rather than an error.
    pub fn div_or_zero(&self, d: &U256) -> (r: U256)
        ensures
            r@ == div0(self@, d@),
    {
        if d.is_zero() {
            U256::zero()
        } else {
            let (q, _) = self.divrem(d);
            q
        }
    }
}

impl U256 {
    /// Saturating multiplication by a 64-bit scalar.
    pub fn mul_u64_sat(&self, m: u64) -> (r: U256)
        ensures
            r@ == sat_mul(self@, m as nat),
    {
        let (lo, hi) = self.mul_u64(m);
        if hi != 0 {
            proof {
                assert(self@ * m >= b256());
            }
            U256::max_value()
        } else {
            lo
        }
    }
}

impl U256 {
    /// The value as a `u64`; the caller must know it fits.
    pub fn as_u64(&self) -> (r: u64)
        requires
            self@ <= u64::MAX,
        ensures
            r == self@,
    {
        self.l0
    }
}

/// Flooring division with the zero-divisor convention.
pub open spec fn div0(a: nat, b: nat) -> nat {
    if b == 0 {
        0
    } else {
        a / b
    }
}

} // verus!

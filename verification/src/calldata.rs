//! Decoder for the router calldata of the six recognized swap selectors.
//!
//! The victim's input bytes are ABI-encoded: a four-byte selector, then
//! 32-byte big-endian words; dynamic arrays sit behind an offset word. Any
//! deviation — short input, unknown selector, out-of-range offset or length —
//! decodes to nothing and the transaction is skipped.

use crate::types::Addr;
use crate::u256::U256;
use vstd::arithmetic::div_mod::{lemma_fundamental_div_mod, lemma_fundamental_div_mod_converse,
    lemma_mod_bound};
use vstd::arithmetic::power2::{lemma2_to64, lemma_pow2_adds, pow2};
use vstd::prelude::*;

verus! {

/// Big-endian value of a byte string.
pub open spec fn be_word(s: Seq<u8>) -> nat
    decreases s.len(),
{
    if s.len() == 0 {
        0
    } else {
        (be_word(s.drop_last()) * 256 + s.last()) as nat
    }
}

/// A byte string of length `n` is worth less than `2^(8n)`.
pub proof fn lemma_be_word_bound(s: Seq<u8>)
    ensures
        be_word(s) < pow2(8 * s.len()),
    decreases s.len(),
{
    lemma2_to64();
    if s.len() == 0 {
    } else {
        lemma_be_word_bound(s.drop_last());
        lemma_pow2_adds(8 * (s.len() - 1) as nat, 8);
        assert(be_word(s.drop_last()) * 256 + 255 < pow2(8 * (s.len() - 1) as nat) * 256)
            by (nonlinear_arith)
            requires
                be_word(s.drop_last()) < pow2(8 * (s.len() - 1) as nat),
        ;
    }
}

/// The value of the 32-byte big-endian word at `off`.
pub open spec fn spec_word_at(s: Seq<u8>, off: int) -> nat {
    be_word(s.subrange(off, off + 32))
}

/// Read the 32-byte big-endian word at `off`.
pub fn read_word(data: &Vec<u8>, off: usize) -> (r: U256)
    requires
        off + 32 <= data@.len(),
    ensures
        r@ == spec_word_at(data@, off as int),
{
    let n = data.len();
    let mut acc = U256::zero();
    let mut i: usize = 0;
    proof {
        lemma2_to64();
        assert(data@.subrange(off as int, off as int) =~= Seq::<u8>::empty());
    }
    while i < 32
        invariant
            i <= 32,
            n == data@.len(),
            off + 32 <= n,
            acc@ == be_word(data@.subrange(off as int, off + i)),
            acc@ < pow2((8 * i) as nat),
        decreases 32 - i,
    {
        proof {
            lemma2_to64();
            crate::u256::lemma_pow2_limbs();
            lemma_pow2_adds((8 * i) as nat, 8);
            lemma_be_word_bound(data@.subrange(off as int, off + i));
            assert(acc@ * 256 + 255 < pow2((8 * i) as nat) * 256) by (nonlinear_arith)
                requires
                    acc@ < pow2((8 * i) as nat),
            ;
            assert(pow2((8 * i + 8) as nat) <= pow2(256)) by {
                if 8 * i + 8 < 256 {
                    vstd::arithmetic::power2::lemma_pow2_strictly_increases((8 * i + 8) as nat,
                        256);
                }
            }
        }
        let b = data[off + i];
        let acc2 = acc.mul_u64_sat(256).add_sat(&U256::from_u64(b as u64));
        proof {
            assert(acc2@ == acc@ * 256 + b);
            assert(data@.subrange(off as int, off + i + 1).drop_last() =~= data@.subrange(
                off as int, off + i));
            assert(data@.subrange(off as int, off + i + 1).last() == data@[off + i]);
            assert(be_word(data@.subrange(off as int, off + i + 1)) == be_word(data@.subrange(
                off as int, off + i)) * 256 + data@[off + i]);
            assert(acc2@ < pow2((8 * (i + 1)) as nat));
        }
        acc = acc2;
        i = i + 1;
    }
    proof {
        assert(data@.subrange(off as int, off + 32) =~= data@.subrange(off as int,
            off as int + 32));
    }
    acc
}

/// The low 160 bits of a word, as an address value.
pub open spec fn spec_addr_of(w: nat) -> nat {
    w % 0x10000000000000000000000000000000000000000nat
}

/// Project a word to the address in its low 20 bytes.
pub fn word_to_addr(w: &U256) -> (r: Addr)
    ensures
        r@ == spec_addr_of(w@),
{
    let hi = (w.l2 % 0x100000000u64) as u32;
    let lo = (w.l1 as u128) * 0x10000000000000000u128 + (w.l0 as u128);
    proof {
        let t: int = 0x10000000000000000000000000000000000000000int;
        lemma_fundamental_div_mod(w.l2 as int, 0x100000000);
        lemma_mod_bound(w.l2 as int, 0x100000000);
        let q = w.l2 as int / 0x100000000;
        let rr = w.l2 as int % 0x100000000;
        lemma_fundamental_div_mod_converse(w@ as int, t, w.l3 * 0x100000000 + q, rr
            * 0x100000000000000000000000000000000int + w.l1 * 0x10000000000000000int + w.l0);
    }
    Addr { hi, lo }
}

/// The six recognized router selectors.
#[derive(Clone, Copy, Debug, PartialEq, Eq, Structural, Hash)]
pub enum SwapKind {
    EthForTokens,
    EthForTokensFee,
    TokensForEth,
    TokensForEthFee,
    TokensForTokens,
    TokensForTokensFee,
}

impl SwapKind {
    /// Whether the input amount is a calldata argument (token-input swaps)
    /// rather than the transaction value (native-input swaps).
    pub open spec fn has_amount_arg(&self) -> bool {
        match *self {
            SwapKind::EthForTokens => false,
            SwapKind::EthForTokensFee => false,
            _ => true,
        }
    }
}

/// The selector of the input bytes, when it is one of the six.
pub open spec fn spec_selector(s: Seq<u8>) -> Option<SwapKind> {
    if s.len() < 4 {
        None
    } else if s[0] == 0x7f && s[1] == 0xf3 && s[2] == 0x6a && s[3] == 0xb5 {
        Some(SwapKind::EthForTokens)
    } else if s[0] == 0xb6 && s[1] == 0xf9 && s[2] == 0xde && s[3] == 0x95 {
        Some(SwapKind::EthForTokensFee)
    } else if s[0] == 0x18 && s[1] == 0xcb && s[2] == 0xaf && s[3] == 0xe5 {
        Some(SwapKind::TokensForEth)
    } else if s[0] == 0x79 && s[1] == 0x1a && s[2] == 0xc9 && s[3] == 0x47 {
        Some(SwapKind::TokensForEthFee)
    } else if s[0] == 0x38 && s[1] == 0xed && s[2] == 0x17 && s[3] == 0x39 {
        Some(SwapKind::TokensForTokens)
    } else if s[0] == 0x5c && s[1] == 0x11 && s[2] == 0xd7 && s[3] == 0x95 {
        Some(SwapKind::TokensForTokensFee)
    } else {
        None
    }
}

/// The token route of a decoded call, as address values.
pub open spec fn spec_path_values(s: Seq<u8>, base: int, len: nat) -> Seq<nat> {
    Seq::new(len, |i: int| spec_addr_of(spec_word_at(s, base + 32 * i)))
}

/// A decoded swap call, value level: kind, input amount argument if the
/// selector takes one, the minimum-output argument, and the token route.
pub open spec fn spec_decode_swap(s: Seq<u8>) -> Option<(SwapKind, Option<nat>, nat, Seq<nat>)> {
    match spec_selector(s) {
        None => None,
        Some(kind) => {
            let path_arg: int = if kind.has_amount_arg() {
                2
            } else {
                1
            };
            if s.len() < 4 + 32 * (path_arg + 1) {
                None
            } else {
                let amount_in: Option<nat> = if kind.has_amount_arg() {
                    Some(spec_word_at(s, 4))
                } else {
                    None
                };
                let out_min = spec_word_at(s, 4 + 32 * (path_arg - 1));
                let off = spec_word_at(s, 4 + 32 * path_arg);
                if off > 0x7fffffff {
                    None
                } else if s.len() < 4 + off + 32 {
                    None
                } else {
                    let plen = spec_word_at(s, 4 + off as int);
                    if plen > 0x7fffffff {
                        None
                    } else if s.len() < 4 + off + 32 + 32 * plen {
                        None
                    } else {
                        Some((kind, amount_in, out_min, spec_path_values(s, (4 + off + 32) as int,
                            plen)))
                    }
                }
            }
        },
    }
}

/// A decoded swap call.
#[derive(Clone, Debug)]
pub struct SwapCall {
    pub kind: SwapKind,
    pub amount_in: Option<U256>,
    pub amount_out_min: U256,
    pub path: Vec<Addr>,
}

impl SwapCall {
    /// Value-level image of the decoded call.
    pub open spec fn as_values(&self) -> (SwapKind, Option<nat>, nat, Seq<nat>) {
        (self.kind, match self.amount_in {
            Some(a) => Some(a@),
            None => None,
        }, self.amount_out_min@, self.path@.map_values(|a: Addr| a@))
    }
}

/// Read the four-byte selector.
fn read_selector(data: &Vec<u8>) -> (r: Option<SwapKind>)
    ensures
        r == spec_selector(data@),
{
    if data.len() < 4 {
        return None;
    }
    let b0 = data[0];
    let b1 = data[1];
    let b2 = data[2];
    let b3 = data[3];
    if b0 == 0x7f && b1 == 0xf3 && b2 == 0x6a && b3 == 0xb5 {
        Some(SwapKind::EthForTokens)
    } else if b0 == 0xb6 && b1 == 0xf9 && b2 == 0xde && b3 == 0x95 {
        Some(SwapKind::EthForTokensFee)
    } else if b0 == 0x18 && b1 == 0xcb && b2 == 0xaf && b3 == 0xe5 {
        Some(SwapKind::TokensForEth)
    } else if b0 == 0x79 && b1 == 0x1a && b2 == 0xc9 && b3 == 0x47 {
        Some(SwapKind::TokensForEthFee)
    } else if b0 == 0x38 && b1 == 0xed && b2 == 0x17 && b3 == 0x39 {
        Some(SwapKind::TokensForTokens)
    } else if b0 == 0x5c && b1 == 0x11 && b2 == 0xd7 && b3 == 0x95 {
        Some(SwapKind::TokensForTokensFee)
    } else {
        None
    }
}

/// Decode a router swap call from raw input bytes, pinned to
/// `spec_decode_swap`. Anything that does not parse yields `None`.
pub fn decode_swap(data: &Vec<u8>) -> (r: Option<SwapCall>)
    ensures
        r is Some <==> spec_decode_swap(data@) is Some,
        r matches Some(c) ==> Some(c.as_values()) == spec_decode_swap(data@),
{
    let kind = match read_selector(data) {
        None => {
            return None;
        },
        Some(k) => k,
    };
    let has_amount = match kind {
        SwapKind::EthForTokens => false,
        SwapKind::EthForTokensFee => false,
        _ => true,
    };
    let path_arg: usize = if has_amount {
        2
    } else {
        1
    };
    if data.len() < 4 + 32 * (path_arg + 1) {
        return None;
    }
    let amount_in: Option<U256> = if has_amount {
        Some(read_word(data, 4))
    } else {
        None
    };
    let out_min = read_word(data, 4 + 32 * (path_arg - 1));
    let off_word = read_word(data, 4 + 32 * path_arg);
    let limit = U256::from_u64(0x7fffffff);
    if limit.lt(&off_word) {
        return None;
    }
    let off = off_word.as_u64() as usize;
    if data.len() < 4 + off + 32 {
        return None;
    }
    let plen_word = read_word(data, 4 + off);
    if limit.lt(&plen_word) {
        return None;
    }
    let plen = plen_word.as_u64() as usize;
    if (data.len() as u64) < 4 + (off as u64) + 32 + 32 * (plen as u64) {
        return None;
    }
    let base = 4 + off + 32;
    let n = data.len();
    let mut path: Vec<Addr> = Vec::new();
    let mut i: usize = 0;
    while i < plen
        invariant
            plen <= 0x7fffffff,
            off <= 0x7fffffff,
            base == 4 + off + 32,
            n == data@.len(),
            base + 32 * plen <= n,
            path@.len() == i,
            i <= plen,
            forall|j: int| 0 <= j < i ==> path@[j]@ == spec_addr_of(spec_word_at(data@, base
                + 32 * j)),
        decreases plen - i,
    {
        let w = read_word(data, base + 32 * i);
        let a = word_to_addr(&w);
        path.push(a);
        i = i + 1;
    }
    let c = SwapCall { kind, amount_in, amount_out_min: out_min, path };
    proof {
        assert(c.path@.map_values(|a: Addr| a@) =~= spec_path_values(data@, base as int,
            plen as nat));
    }
    Some(c)
}

} // verus!

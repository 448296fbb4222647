//! Relay client core: the JSON-RPC request for `eth_sendBundle`, rendered to
//! exact bytes, the authentication digest and signature header over those
//! same bytes, and the parsing of the relay's answer.
//!
//! The request body is built once; the digest is keccak-256 of exactly the
//! bytes that go on the wire, so the signature input is byte-exact by
//! construction.

use crate::encode::{push_dec_u64, push_hex_bytes, push_hex_u64, spec_dec_u64, spec_hex_bytes,
    spec_hex_u64};
use crate::types::Bundle;
use vstd::prelude::*;

verus! {

/// The bytes of `{"jsonrpc":"2.0","method":"eth_sendBundle","params":[{"txs":[`.
pub open spec fn lit_req_open() -> Seq<u8> {
    seq![123u8, 34, 106, 115, 111, 110, 114, 112, 99, 34, 58, 34, 50, 46, 48, 34, 44, 34, 109, 101, 116, 104, 111, 100, 34, 58, 34, 101, 116, 104, 95, 115, 101, 110, 100, 66, 117, 110, 100, 108, 101, 34, 44, 34, 112, 97, 114, 97, 109, 115, 34, 58, 91, 123, 34, 116, 120, 115, 34, 58, 91]
}

#[verifier::rlimit(100)]
fn push_req_open(out: &mut Vec<u8>)
    ensures
        final(out)@ == old(out)@ + lit_req_open(),
{
    let lits: Vec<u8> = vec![123, 34, 106, 115, 111, 110, 114, 112, 99, 34, 58, 34, 50, 46, 48, 34, 44, 34, 109, 101, 116, 104, 111, 100, 34, 58, 34, 101, 116, 104, 95, 115, 101, 110, 100, 66, 117, 110, 100, 108, 101, 34, 44, 34, 112, 97, 114, 97, 109, 115, 34, 58, 91, 123, 34, 116, 120, 115, 34, 58, 91];
    proof {
        assert(lits@ =~= lit_req_open());
    }
    crate::encode::push_bytes(out, &lits);
}

/// The bytes of `"0x`.
pub open spec fn lit_tx_open() -> Seq<u8> {
    seq![34u8, 48, 120]
}

#[verifier::rlimit(100)]
fn push_tx_open(out: &mut Vec<u8>)
    ensures
        final(out)@ == old(out)@ + lit_tx_open(),
{
    let lits: Vec<u8> = vec![34, 48, 120];
    proof {
        assert(lits@ =~= lit_tx_open());
    }
    crate::encode::push_bytes(out, &lits);
}

/// The bytes of `"`.
pub open spec fn lit_quote() -> Seq<u8> {
    seq![34u8]
}

#[verifier::rlimit(100)]
fn push_quote(out: &mut Vec<u8>)
    ensures
        final(out)@ == old(out)@ + lit_quote(),
{
    let lits: Vec<u8> = vec![34];
    proof {
        assert(lits@ =~= lit_quote());
    }
    crate::encode::push_bytes(out, &lits);
}

/// The bytes of `,`.
pub open spec fn lit_comma() -> Seq<u8> {
    seq![44u8]
}

#[verifier::rlimit(100)]
fn push_comma(out: &mut Vec<u8>)
    ensures
        final(out)@ == old(out)@ + lit_comma(),
{
    let lits: Vec<u8> = vec![44];
    proof {
        assert(lits@ =~= lit_comma());
    }
    crate::encode::push_bytes(out, &lits);
}

/// The bytes of `],"blockNumber":"0x`.
pub open spec fn lit_block_key() -> Seq<u8> {
    seq![93u8, 44, 34, 98, 108, 111, 99, 107, 78, 117, 109, 98, 101, 114, 34, 58, 34, 48, 120]
}

#[verifier::rlimit(100)]
fn push_block_key(out: &mut Vec<u8>)
    ensures
        final(out)@ == old(out)@ + lit_block_key(),
{
    let lits: Vec<u8> = vec![93, 44, 34, 98, 108, 111, 99, 107, 78, 117, 109, 98, 101, 114, 34, 58, 34, 48, 120];
    proof {
        assert(lits@ =~= lit_block_key());
    }
    crate::encode::push_bytes(out, &lits);
}

/// The bytes of `,"minTimestamp":`.
pub open spec fn lit_min_ts_key() -> Seq<u8> {
    seq![44u8, 34, 109, 105, 110, 84, 105, 109, 101, 115, 116, 97, 109, 112, 34, 58]
}

#[verifier::rlimit(100)]
fn push_min_ts_key(out: &mut Vec<u8>)
    ensures
        final(out)@ == old(out)@ + lit_min_ts_key(),
{
    let lits: Vec<u8> = vec![44, 34, 109, 105, 110, 84, 105, 109, 101, 115, 116, 97, 109, 112, 34, 58];
    proof {
        assert(lits@ =~= lit_min_ts_key());
    }
    crate::encode::push_bytes(out, &lits);
}

/// The bytes of `,"maxTimestamp":`.
pub open spec fn lit_max_ts_key() -> Seq<u8> {
    seq![44u8, 34, 109, 97, 120, 84, 105, 109, 101, 115, 116, 97, 109, 112, 34, 58]
}

#[verifier::rlimit(100)]
fn push_max_ts_key(out: &mut Vec<u8>)
    ensures
        final(out)@ == old(out)@ + lit_max_ts_key(),
{
    let lits: Vec<u8> = vec![44, 34, 109, 97, 120, 84, 105, 109, 101, 115, 116, 97, 109, 112, 34, 58];
    proof {
        assert(lits@ =~= lit_max_ts_key());
    }
    crate::encode::push_bytes(out, &lits);
}

/// The bytes of `,"revertingTxHashes":[]}],"id":1}`.
pub open spec fn lit_req_close() -> Seq<u8> {
    seq![44u8, 34, 114, 101, 118, 101, 114, 116, 105, 110, 103, 84, 120, 72, 97, 115, 104, 101, 115, 34, 58, 91, 93, 125, 93, 44, 34, 105, 100, 34, 58, 49, 125]
}

#[verifier::rlimit(100)]
fn push_req_close(out: &mut Vec<u8>)
    ensures
        final(out)@ == old(out)@ + lit_req_close(),
{
    let lits: Vec<u8> = vec![44, 34, 114, 101, 118, 101, 114, 116, 105, 110, 103, 84, 120, 72, 97, 115, 104, 101, 115, 34, 58, 91, 93, 125, 93, 44, 34, 105, 100, 34, 58, 49, 125];
    proof {
        assert(lits@ =~= lit_req_close());
    }
    crate::encode::push_bytes(out, &lits);
}


/// What the keccak-256 permutation returns for a byte string; fixed by the
/// algorithm, so a pure function of the bytes.
pub uninterp spec fn keccak_of(s: Seq<u8>) -> Seq<u8>;

/// Relies on ethers::utils::keccak256: the keccak-256 digest of the bytes,
/// always 32 bytes long.
#[verifier::external_body]
pub fn keccak256(bytes: &Vec<u8>) -> (r: Vec<u8>)
    ensures
        r@ == keccak_of(bytes@),
        r@.len() == 32,
{
    ethers::utils::keccak256(bytes.as_slice()).to_vec()
}

/// What deterministic ECDSA over secp256k1 returns for a key and digest:
/// the 64-byte signature and the recovery id. RFC 6979 derives the nonce
/// from the key and digest alone, so this is a pure function of both.
pub uninterp spec fn ecdsa_sign_of(key: Seq<u8>, digest: Seq<u8>) -> (Seq<u8>, u8);

/// Whether deterministic ECDSA succeeds for this key and digest. The key
/// parse and the RFC 6979 signing path take no other input, so success is a
/// pure predicate of both arguments.
pub uninterp spec fn ecdsa_sign_ok_of(key: Seq<u8>, digest: Seq<u8>) -> bool;

/// Relies on k256::ecdsa::SigningKey::from_slice and
/// sign_prehash_recoverable: deterministic (RFC 6979) ECDSA over secp256k1.
/// `from_slice` fails exactly on bytes that are not a valid nonzero scalar,
/// and the signing path is deterministic in the key and digest, so success
/// is the predicate `ecdsa_sign_ok_of`. The signature is 64 bytes and the
/// recovery id is below four.
#[verifier::external_body]
pub fn ecdsa_sign(key: &Vec<u8>, digest: &Vec<u8>) -> (r: Option<(Vec<u8>, u8)>)
    requires
        key@.len() == 32,
        digest@.len() == 32,
    ensures
        r is Some <==> ecdsa_sign_ok_of(key@, digest@),
        r matches Some(p) ==> (p.0@, p.1) == ecdsa_sign_of(key@, digest@) && p.0@.len() == 64
            && p.1 < 4,
{
    let sk = match k256::ecdsa::SigningKey::from_slice(key.as_slice()) {
        Ok(k) => k,
        Err(_) => {
            return None;
        },
    };
    let (sig, recid) = match sk.sign_prehash_recoverable(digest.as_slice()) {
        Ok(p) => p,
        Err(_) => {
            return None;
        },
    };
    Some((sig.to_bytes().to_vec(), recid.to_byte()))
}

/// The uncompressed SEC1 encoding of the public key belonging to a secret
/// scalar: a pure function of the key bytes.
pub uninterp spec fn secp_pubkey_of(key: Seq<u8>) -> Seq<u8>;

/// Whether the 32 key bytes are a valid nonzero secp256k1 scalar: a pure
/// predicate of the bytes.
pub uninterp spec fn secp_key_ok(key: Seq<u8>) -> bool;

/// Relies on k256::ecdsa::SigningKey::from_slice, verifying_key and
/// to_encoded_point(false): the uncompressed 65-byte SEC1 public key.
/// `from_slice` fails exactly on bytes that are not a valid nonzero scalar,
/// so success is the predicate `secp_key_ok`.
#[verifier::external_body]
pub fn secp_pubkey(key: &Vec<u8>) -> (r: Option<Vec<u8>>)
    requires
        key@.len() == 32,
    ensures
        r is Some <==> secp_key_ok(key@),
        r matches Some(p) ==> p@ == secp_pubkey_of(key@) && p@.len() == 65,
{
    let sk = match k256::ecdsa::SigningKey::from_slice(key.as_slice()) {
        Ok(k) => k,
        Err(_) => {
            return None;
        },
    };
    Some(sk.verifying_key().to_encoded_point(false).as_bytes().to_vec())
}

/// Copy out `v[a..b]`.
pub fn slice_range(v: &Vec<u8>, a: usize, b: usize) -> (r: Vec<u8>)
    requires
        a <= b <= v@.len(),
    ensures
        r@ == v@.subrange(a as int, b as int),
{
    let mut r: Vec<u8> = Vec::new();
    let mut i: usize = a;
    proof {
        assert(r@ =~= v@.subrange(a as int, a as int));
    }
    while i < b
        invariant
            a <= i <= b <= v@.len(),
            r@ =~= v@.subrange(a as int, i as int),
        decreases b - i,
    {
        r.push(v[i]);
        proof {
            assert(r@ =~= v@.subrange(a as int, i + 1));
        }
        i = i + 1;
    }
    r
}

/// The rendering of the transaction array items: each raw transaction as a
/// quoted `0x` hex string, comma separated.
pub open spec fn spec_tx_items(txs: Seq<Seq<u8>>, i: nat) -> Seq<u8>
    decreases txs.len() - i,
{
    if i >= txs.len() {
        Seq::empty()
    } else {
        (if i > 0 {
            lit_comma()
        } else {
            Seq::empty()
        }) + lit_tx_open() + spec_hex_bytes(txs[i as int]) + lit_quote() + spec_tx_items(txs, (i
            + 1) as nat)
    }
}

/// The full JSON-RPC request body for `eth_sendBundle`, byte for byte.
pub open spec fn spec_relay_request(txs: Seq<Seq<u8>>, block: nat, min_ts: Option<u64>,
    max_ts: Option<u64>) -> Seq<u8> {
    lit_req_open() + spec_tx_items(txs, 0) + lit_block_key() + spec_hex_u64(block) + lit_quote()
        + (match min_ts {
        Some(v) => lit_min_ts_key() + spec_dec_u64(v as nat),
        None => Seq::empty(),
    }) + (match max_ts {
        Some(v) => lit_max_ts_key() + spec_dec_u64(v as nat),
        None => Seq::empty(),
    }) + lit_req_close()
}

/// The raw transactions of a bundle, in order.
pub open spec fn spec_bundle_txs(b: &Bundle) -> Seq<Seq<u8>> {
    b.txs@.map_values(|t: crate::types::BundleTransaction| t.raw_tx@)
}

/// Render the relay request body for a bundle.
pub fn render_relay_request(bundle: &Bundle) -> (r: Vec<u8>)
    ensures
        r@ == spec_relay_request(spec_bundle_txs(bundle), bundle.block_number as nat,
            bundle.min_timestamp, bundle.max_timestamp),
{
    let ghost txs: Seq<Seq<u8>> = spec_bundle_txs(bundle);
    let mut out: Vec<u8> = Vec::new();
    push_req_open(&mut out);
    let n = bundle.txs.len();
    let mut i: usize = 0;
    while i < n
        invariant
            n == bundle.txs@.len(),
            txs == spec_bundle_txs(bundle),
            txs.len() == n,
            i <= n,
            out@ + spec_tx_items(txs, i as nat) == lit_req_open() + spec_tx_items(txs, 0),
        decreases n - i,
    {
        let ghost before: Seq<u8> = out@;
        if i > 0 {
            push_comma(&mut out);
        }
        push_tx_open(&mut out);
        push_hex_bytes(&mut out, &bundle.txs[i].raw_tx);
        push_quote(&mut out);
        proof {
            assert(txs[i as int] == bundle.txs@[i as int].raw_tx@);
            if i > 0 {
                assert(out@ =~= before + (lit_comma() + lit_tx_open() + spec_hex_bytes(
                    txs[i as int]) + lit_quote()));
            } else {
                assert(out@ =~= before + (lit_tx_open() + spec_hex_bytes(txs[i as int])
                    + lit_quote()));
            }
            assert(before + spec_tx_items(txs, i as nat) =~= out@ + spec_tx_items(txs, (i
                + 1) as nat));
        }
        i = i + 1;
    }
    push_block_key(&mut out);
    push_hex_u64(&mut out, bundle.block_number);
    push_quote(&mut out);
    match bundle.min_timestamp {
        Some(v) => {
            push_min_ts_key(&mut out);
            push_dec_u64(&mut out, v);
        },
        None => {},
    }
    match bundle.max_timestamp {
        Some(v) => {
            push_max_ts_key(&mut out);
            push_dec_u64(&mut out, v);
        },
        None => {},
    }
    push_req_close(&mut out);
    proof {
        assert(spec_tx_items(txs, n as nat) =~= Seq::<u8>::empty());
        assert(out@ =~= spec_relay_request(txs, bundle.block_number as nat, bundle.min_timestamp,
            bundle.max_timestamp));
    }
    out
}

/// Re-serializing a bundle with the same content yields byte-identical
/// request bodies and hence the same authentication digest: the signature
/// input is reproducible.
pub proof fn lemma_request_digest_deterministic(b1: &Bundle, b2: &Bundle)
    requires
        spec_bundle_txs(b1) == spec_bundle_txs(b2),
        b1.block_number == b2.block_number,
        b1.min_timestamp == b2.min_timestamp,
        b1.max_timestamp == b2.max_timestamp,
    ensures
        spec_relay_request(spec_bundle_txs(b1), b1.block_number as nat, b1.min_timestamp,
            b1.max_timestamp) == spec_relay_request(spec_bundle_txs(b2), b2.block_number as nat,
            b2.min_timestamp, b2.max_timestamp),
        keccak_of(spec_relay_request(spec_bundle_txs(b1), b1.block_number as nat,
            b1.min_timestamp, b1.max_timestamp)) == keccak_of(spec_relay_request(
            spec_bundle_txs(b2), b2.block_number as nat, b2.min_timestamp, b2.max_timestamp)),
{
}

/// The 20-byte account address of a secret key: keccak-256 of the unprefixed
/// public key, last twenty bytes.
pub open spec fn spec_auth_address(key: Seq<u8>) -> Seq<u8> {
    keccak_of(secp_pubkey_of(key).subrange(1, 65)).subrange(12, 32)
}

/// Derive the account address of the auth key: it exists exactly when the
/// key bytes are a valid scalar.
pub fn auth_address(key: &Vec<u8>) -> (r: Option<Vec<u8>>)
    requires
        key@.len() == 32,
    ensures
        r is Some <==> secp_key_ok(key@),
        r matches Some(a) ==> a@ == spec_auth_address(key@) && a@.len() == 20,
{
    let pk = match secp_pubkey(key) {
        Some(p) => p,
        None => {
            return None;
        },
    };
    let unprefixed = slice_range(&pk, 1, 65);
    let digest = keccak256(&unprefixed);
    Some(slice_range(&digest, 12, 32))
}

/// The 65-byte recoverable signature: `r || s || v` with `v = recid + 27`.
pub open spec fn spec_sig65(key: Seq<u8>, digest: Seq<u8>) -> Seq<u8> {
    ecdsa_sign_of(key, digest).0.push((ecdsa_sign_of(key, digest).1 + 27) as u8)
}

/// The `X-Flashbots-Signature` header value:
/// `0x<address hex>:0x<signature hex>`.
pub open spec fn spec_signature_header(key: Seq<u8>, body: Seq<u8>) -> Seq<u8> {
    seq![48u8, 120] + spec_hex_bytes(spec_auth_address(key)) + seq![58u8, 48, 120]
        + spec_hex_bytes(spec_sig65(key, keccak_of(body)))
}

/// A ready-to-send relay submission: the body bytes and the signature
/// header computed over exactly those bytes.
pub struct RelayRequest {
    pub body: Vec<u8>,
    pub signature_header: Vec<u8>,
}

/// Build the signed relay submission for a bundle: it exists exactly when
/// the auth key is a valid scalar and the deterministic signer accepts the
/// key and the body digest.
pub fn make_relay_request(auth_key: &Vec<u8>, bundle: &Bundle) -> (r: Option<RelayRequest>)
    requires
        auth_key@.len() == 32,
    ensures
        r is Some <==> secp_key_ok(auth_key@) && ecdsa_sign_ok_of(auth_key@, keccak_of(
            spec_relay_request(spec_bundle_txs(bundle), bundle.block_number as nat,
            bundle.min_timestamp, bundle.max_timestamp))),
        r matches Some(q) ==> q.body@ == spec_relay_request(spec_bundle_txs(bundle),
            bundle.block_number as nat, bundle.min_timestamp, bundle.max_timestamp)
            && q.signature_header@ == spec_signature_header(auth_key@, q.body@),
{
    let body = render_relay_request(bundle);
    let digest = keccak256(&body);
    let addr = match auth_address(auth_key) {
        Some(a) => a,
        None => {
            return None;
        },
    };
    let (sig64, recid) = match ecdsa_sign(auth_key, &digest) {
        Some(p) => p,
        None => {
            return None;
        },
    };
    let mut sig65 = sig64;
    sig65.push(recid + 27);
    let mut header: Vec<u8> = Vec::new();
    header.push(48);
    header.push(120);
    push_hex_bytes(&mut header, &addr);
    header.push(58);
    header.push(48);
    header.push(120);
    push_hex_bytes(&mut header, &sig65);
    proof {
        assert(header@ =~= spec_signature_header(auth_key@, body@));
    }
    Some(RelayRequest { body, signature_header: header })
}

/// The bytes of `"error"`.
pub open spec fn lit_error_key() -> Seq<u8> {
    seq![34u8, 101, 114, 114, 111, 114, 34]
}

/// The bytes of `"code":`.
pub open spec fn lit_code_key() -> Seq<u8> {
    seq![34u8, 99, 111, 100, 101, 34, 58]
}

/// The bytes of `"message":"`.
pub open spec fn lit_message_key() -> Seq<u8> {
    seq![34u8, 109, 101, 115, 115, 97, 103, 101, 34, 58, 34]
}

/// The bytes of `"bundleHash":"`.
pub open spec fn lit_hash_key() -> Seq<u8> {
    seq![34u8, 98, 117, 110, 100, 108, 101, 72, 97, 115, 104, 34, 58, 34]
}

/// Whether `needle` occurs in `hay` at `i`.
pub open spec fn spec_match_at(hay: Seq<u8>, needle: Seq<u8>, i: nat) -> bool {
    &&& i + needle.len() <= hay.len()
    &&& hay.subrange(i as int, (i + needle.len()) as int) == needle
}

/// The first occurrence of `needle` at or after `i`.
pub open spec fn spec_find_from(hay: Seq<u8>, needle: Seq<u8>, i: nat) -> Option<nat>
    decreases hay.len() + 1 - i,
{
    if i + needle.len() > hay.len() {
        None
    } else if spec_match_at(hay, needle, i) {
        Some(i)
    } else {
        spec_find_from(hay, needle, (i + 1) as nat)
    }
}

/// The first occurrence of `needle` in `hay`.
pub open spec fn spec_find(hay: Seq<u8>, needle: Seq<u8>) -> Option<nat> {
    spec_find_from(hay, needle, 0)
}

/// Whether `needle` occurs in `hay` at exactly `i`.
fn match_at(hay: &Vec<u8>, needle: &Vec<u8>, i: usize) -> (r: bool)
    requires
        i + needle@.len() <= hay@.len(),
    ensures
        r <==> spec_match_at(hay@, needle@, i as nat),
{
    let n = hay.len();
    let m = needle.len();
    let mut j: usize = 0;
    while j < m
        invariant
            n == hay@.len(),
            m == needle@.len(),
            i + m <= n,
            j <= m,
            forall|t: int| 0 <= t < j ==> hay@[i + t] == needle@[t],
        decreases m - j,
    {
        if hay[i + j] != needle[j] {
            proof {
                assert(hay@.subrange(i as int, (i + needle@.len()) as int)[j as int]
                    != needle@[j as int]);
            }
            return false;
        }
        j = j + 1;
    }
    proof {
        assert(hay@.subrange(i as int, (i + needle@.len()) as int) =~= needle@);
    }
    true
}

/// First occurrence of `needle` in `hay`, pinned to `spec_find`.
pub fn find_bytes(hay: &Vec<u8>, needle: &Vec<u8>) -> (r: Option<usize>)
    ensures
        match r {
            Some(i) => spec_find(hay@, needle@) == Some(i as nat) && i + needle@.len()
                <= hay@.len(),
            None => spec_find(hay@, needle@) is None,
        },
{
    let n = hay.len();
    let m = needle.len();
    if m == 0 {
        proof {
            assert(hay@.subrange(0, 0) =~= needle@);
        }
        return Some(0);
    }
    if m > n {
        return None;
    }
    let mut i: usize = 0;
    while i <= n - m
        invariant
            n == hay@.len(),
            m == needle@.len(),
            1 <= m <= n,
            i <= n - m + 1,
            spec_find(hay@, needle@) == spec_find_from(hay@, needle@, i as nat),
        decreases n - m + 1 - i,
    {
        if match_at(hay, needle, i) {
            return Some(i);
        }
        i = i + 1;
    }
    None
}

/// The end of the digit run starting at `i`.
pub open spec fn spec_digit_run_end(s: Seq<u8>, i: nat) -> nat
    decreases s.len() - i,
{
    if i < s.len() && 48 <= s[i as int] <= 57 {
        spec_digit_run_end(s, (i + 1) as nat)
    } else {
        i
    }
}

/// The decimal value of the digits `s[i..end]`.
pub open spec fn spec_dec_value(s: Seq<u8>, i: nat, end: nat) -> nat
    decreases end - i,
{
    if end <= i {
        0
    } else {
        (spec_dec_value(s, i, (end - 1) as nat) * 10 + (s[end - 1] - 48)) as nat
    }
}

/// Ten to the `n`.
pub open spec fn pow10(n: nat) -> nat
    decreases n,
{
    if n == 0 {
        1
    } else {
        10 * pow10((n - 1) as nat)
    }
}

/// A run of `k` digits is worth less than `10^k`.
pub proof fn lemma_dec_value_bound(s: Seq<u8>, i: nat, end: nat)
    requires
        i <= end <= s.len(),
        forall|t: int| i <= t < end ==> 48 <= #[trigger] s[t] <= 57,
    ensures
        spec_dec_value(s, i, end) < pow10((end - i) as nat),
    decreases end - i,
{
    if end <= i {
    } else {
        lemma_dec_value_bound(s, i, (end - 1) as nat);
        assert(spec_dec_value(s, i, (end - 1) as nat) * 10 + 9 < pow10((end - i - 1) as nat)
            * 10) by (nonlinear_arith)
            requires
                spec_dec_value(s, i, (end - 1) as nat) < pow10((end - i - 1) as nat),
        ;
    }
}

/// The end of the digit run, and that everything before it is a digit.
fn digit_run_end(s: &Vec<u8>, i: usize) -> (r: usize)
    requires
        i <= s@.len(),
    ensures
        r == spec_digit_run_end(s@, i as nat),
        i <= r <= s@.len(),
        forall|t: int| i <= t < r ==> 48 <= #[trigger] s@[t] <= 57,
    decreases s@.len() - i,
{
    if i < s.len() && 48 <= s[i] && s[i] <= 57 {
        digit_run_end(s, i + 1)
    } else {
        i
    }
}

/// Read the decimal value of `s[i..end]`.
fn read_dec_value(s: &Vec<u8>, i: usize, end: usize) -> (r: u64)
    requires
        i <= end <= s@.len(),
        end - i <= 18,
        forall|t: int| i <= t < end ==> 48 <= #[trigger] s@[t] <= 57,
    ensures
        r == spec_dec_value(s@, i as nat, end as nat),
{
    let mut acc: u64 = 0;
    let mut j: usize = i;
    proof {
        reveal_with_fuel(pow10, 19);
        assert(pow10(18) == 1000000000000000000);
    }
    while j < end
        invariant
            i <= j <= end <= s@.len(),
            end - i <= 18,
            forall|t: int| i <= t < end ==> 48 <= #[trigger] s@[t] <= 57,
            acc == spec_dec_value(s@, i as nat, j as nat),
            pow10(18) == 1000000000000000000,
        decreases end - j,
    {
        proof {
            lemma_dec_value_bound(s@, i as nat, j as nat);
            lemma_pow10_le((j - i) as nat, 17);
        }
        acc = acc * 10 + ((s[j] - 48) as u64);
        j = j + 1;
    }
    acc
}

/// `pow10` grows with the exponent.
pub proof fn lemma_pow10_le(a: nat, b: nat)
    requires
        a <= b,
    ensures
        pow10(a) <= pow10(b),
    decreases b,
{
    if a < b {
        lemma_pow10_le(a, (b - 1) as nat);
        assert(pow10((b - 1) as nat) * 1 <= pow10((b - 1) as nat) * 10) by (nonlinear_arith)
            requires
                pow10((b - 1) as nat) >= 0,
        ;
    }
}

/// The first index at or after `i` holding byte `b`, or the length.
pub open spec fn spec_find_byte(s: Seq<u8>, i: nat, b: u8) -> nat
    decreases s.len() - i,
{
    if i >= s.len() {
        s.len()
    } else if s[i as int] == b {
        i
    } else {
        spec_find_byte(s, (i + 1) as nat, b)
    }
}

fn find_byte(s: &Vec<u8>, i: usize, b: u8) -> (r: usize)
    requires
        i <= s@.len(),
    ensures
        r == spec_find_byte(s@, i as nat, b),
        i <= r <= s@.len(),
    decreases s@.len() - i,
{
    if i >= s.len() {
        s.len()
    } else if s[i] == b {
        i
    } else {
        find_byte(s, i + 1, b)
    }
}

/// The relay's answer to a submission.
#[derive(Clone, Debug)]
pub enum RelayOutcome {
    /// The relay accepted the bundle and returned its hash string.
    Accepted { bundle_hash: Vec<u8> },
    /// The relay answered with an error object.
    Rejected { code: i64, message: Vec<u8> },
    /// The answer matched neither shape.
    Malformed,
}

/// Value-level image of an outcome.
pub open spec fn outcome_values(r: &RelayOutcome) -> (int, Seq<u8>, int) {
    match r {
        RelayOutcome::Accepted { bundle_hash } => (0, bundle_hash@, 0),
        RelayOutcome::Rejected { code, message } => (1, message@, *code as int),
        RelayOutcome::Malformed => (2, Seq::empty(), 0),
    }
}

/// Parse of the relay answer, value level: `(2, _, _)` is malformed,
/// `(0, hash, _)` accepted, `(1, message, code)` rejected.
pub open spec fn spec_parse_relay_response(s: Seq<u8>) -> (int, Seq<u8>, int) {
    match spec_find(s, lit_error_key()) {
        Some(_) => match spec_find(s, lit_code_key()) {
            None => (2, Seq::empty(), 0),
            Some(ci) => {
                let vi = ci + lit_code_key().len();
                let neg = vi < s.len() && s[vi as int] == 45;
                let di: nat = if neg {
                    (vi + 1) as nat
                } else {
                    vi as nat
                };
                let de = spec_digit_run_end(s, di);
                if de == di || de - di > 18 {
                    (2, Seq::empty(), 0)
                } else {
                    let mag = spec_dec_value(s, di, de);
                    let code: int = if neg {
                        -(mag as int)
                    } else {
                        mag as int
                    };
                    match spec_find(s, lit_message_key()) {
                        None => (1, Seq::empty(), code),
                        Some(mi) => {
                            let ms = mi + lit_message_key().len();
                            let me = spec_find_byte(s, ms as nat, 34);
                            if me >= s.len() {
                                (1, Seq::empty(), code)
                            } else {
                                (1, s.subrange(ms as int, me as int), code)
                            }
                        },
                    }
                }
            },
        },
        None => match spec_find(s, lit_hash_key()) {
            None => (2, Seq::empty(), 0),
            Some(hi) => {
                let hs = hi + lit_hash_key().len();
                let he = spec_find_byte(s, hs as nat, 34);
                if hs > s.len() || he >= s.len() {
                    (2, Seq::empty(), 0)
                } else {
                    (0, s.subrange(hs as int, he as int), 0)
                }
            },
        },
    }
}

/// Parse the relay's answer, pinned to `spec_parse_relay_response`.
pub fn parse_relay_response(s: &Vec<u8>) -> (r: RelayOutcome)
    ensures
        outcome_values(&r) == spec_parse_relay_response(s@),
{
    let n = s.len();
    let error_key: Vec<u8> = vec![34u8, 101, 114, 114, 111, 114, 34];
    let code_key: Vec<u8> = vec![34u8, 99, 111, 100, 101, 34, 58];
    let message_key: Vec<u8> = vec![34u8, 109, 101, 115, 115, 97, 103, 101, 34, 58, 34];
    let hash_key: Vec<u8> = vec![34u8, 98, 117, 110, 100, 108, 101, 72, 97, 115, 104, 34, 58, 34];
    proof {
        assert(error_key@ =~= lit_error_key());
        assert(code_key@ =~= lit_code_key());
        assert(message_key@ =~= lit_message_key());
        assert(hash_key@ =~= lit_hash_key());
    }
    if find_bytes(s, &error_key).is_some() {
        let ci = match find_bytes(s, &code_key) {
            None => {
                return RelayOutcome::Malformed;
            },
            Some(c) => c,
        };
        let vi = ci + code_key.len();
        let neg = vi < s.len() && s[vi] == 45;
        let di = if neg {
            vi + 1
        } else {
            vi
        };
        let de = digit_run_end(s, di);
        if de == di || de - di > 18 {
            return RelayOutcome::Malformed;
        }
        let mag = read_dec_value(s, di, de);
        proof {
            lemma_dec_value_bound(s@, di as nat, de as nat);
            lemma_pow10_le((de - di) as nat, 18);
            reveal_with_fuel(pow10, 19);
        assert(pow10(18) == 1000000000000000000);
        }
        let code: i64 = if neg {
            -(mag as i64)
        } else {
            mag as i64
        };
        let message: Vec<u8> = match find_bytes(s, &message_key) {
            None => Vec::new(),
            Some(mi) => {
                let ms = mi + message_key.len();
                let me = find_byte(s, ms, 34);
                if me >= s.len() {
                    Vec::new()
                } else {
                    slice_range(s, ms, me)
                }
            },
        };
        RelayOutcome::Rejected { code, message }
    } else {
        let hi = match find_bytes(s, &hash_key) {
            None => {
                return RelayOutcome::Malformed;
            },
            Some(h) => h,
        };
        let hs = hi + hash_key.len();
        let he = find_byte(s, hs, 34);
        if he >= s.len() {
            return RelayOutcome::Malformed;
        }
        RelayOutcome::Accepted { bundle_hash: slice_range(s, hs, he) }
    }
}

} // verus!

use ethers::signers::Signer;
use k256::ecdsa::signature::hazmat::PrehashVerifier;
use mev_template::relay::{
    auth_address, find_bytes, keccak256, make_relay_request, parse_relay_response,
    render_relay_request, RelayOutcome,
};
use mev_template::types::{Addr, Bundle, BundleTransaction};

fn bundle_of(txs: Vec<Vec<u8>>, block: u64, min_ts: Option<u64>, max_ts: Option<u64>) -> Bundle {
    let entries = txs
        .into_iter()
        .map(|raw_tx| BundleTransaction { signer: Addr { hi: 0, lo: 1 }, raw_tx, can_revert: false })
        .collect();
    Bundle { txs: entries, block_number: block, min_timestamp: min_ts, max_timestamp: max_ts }
}

#[test]
fn request_body_is_byte_exact() {
    let b = bundle_of(vec![vec![0xab, 0xcd], vec![0x01]], 0x1b4, None, None);
    let body = render_relay_request(&b);
    let expected = r#"{"jsonrpc":"2.0","method":"eth_sendBundle","params":[{"txs":["0xabcd","0x01"],"blockNumber":"0x1b4","revertingTxHashes":[]}],"id":1}"#;
    assert_eq!(String::from_utf8(body).unwrap(), expected);
}

#[test]
fn request_body_with_timestamps() {
    let b = bundle_of(vec![vec![0xff]], 16, Some(100), Some(2000));
    let body = render_relay_request(&b);
    let expected = r#"{"jsonrpc":"2.0","method":"eth_sendBundle","params":[{"txs":["0xff"],"blockNumber":"0x10","minTimestamp":100,"maxTimestamp":2000,"revertingTxHashes":[]}],"id":1}"#;
    assert_eq!(String::from_utf8(body).unwrap(), expected);
}

#[test]
fn zero_block_renders_single_digit() {
    let b = bundle_of(vec![], 0, None, None);
    let body = render_relay_request(&b);
    let expected = r#"{"jsonrpc":"2.0","method":"eth_sendBundle","params":[{"txs":[],"blockNumber":"0x0","revertingTxHashes":[]}],"id":1}"#;
    assert_eq!(String::from_utf8(body).unwrap(), expected);
}

#[test]
fn reserialization_yields_identical_bytes() {
    let b = bundle_of(vec![vec![1, 2, 3]], 99, None, Some(7));
    let once = render_relay_request(&b);
    let twice = render_relay_request(&b);
    assert_eq!(once, twice);
    assert_eq!(keccak256(&once), keccak256(&twice));
}

#[test]
fn keccak_known_answers() {
    let empty: Vec<u8> = Vec::new();
    assert_eq!(
        hex::encode(keccak256(&empty)),
        "c5d2460186f7233c927e7db2dcc703c0e500b653ca82273b7bfad8045d85a470"
    );
    let abc = b"abc".to_vec();
    assert_eq!(
        hex::encode(keccak256(&abc)),
        "4e03657aea45a94fc7d47ba826c8d667c0d1e6e33a64a036ec44f58fa12d6c45"
    );
}

#[test]
fn hex_rendering_matches_reference() {
    let data = vec![0x00, 0x0f, 0xa0, 0xff];
    let mut out: Vec<u8> = Vec::new();
    mev_template::encode::push_hex_bytes(&mut out, &data);
    assert_eq!(String::from_utf8(out).unwrap(), hex::encode(&data));
}

#[test]
fn auth_address_matches_reference_wallet() {
    // The address of the secret scalar 1 is well known; cross-check the
    // verified derivation against the ethers wallet.
    let mut key = vec![0u8; 32];
    key[31] = 1;
    let derived = auth_address(&key).expect("valid key");
    let wallet = ethers::signers::LocalWallet::from_bytes(&key).unwrap();
    assert_eq!(hex::encode(&derived), hex::encode(wallet.address().as_bytes()));
    assert_eq!(hex::encode(&derived), "7e5f4552091a69125d5dfcb7b8c2659029395bdf");
}

#[test]
fn signature_header_carries_verifiable_signature() {
    let mut key = vec![0u8; 32];
    key[31] = 0x42;
    let b = bundle_of(vec![vec![0xde, 0xad]], 1234, None, None);
    let req = make_relay_request(&key, &b).expect("valid key");
    let header = String::from_utf8(req.signature_header.clone()).unwrap();
    // Shape: 0x<40 hex>:0x<130 hex>
    let parts: Vec<&str> = header.split(':').collect();
    assert_eq!(parts.len(), 2);
    assert_eq!(parts[0].len(), 42);
    assert_eq!(parts[1].len(), 132);
    // The signature verifies over keccak(body) for the auth key's pubkey,
    // so the wrapper cannot have echoed its input.
    let digest = keccak256(&req.body);
    let sig_bytes = hex::decode(&parts[1][2..]).unwrap();
    let sig = k256::ecdsa::Signature::from_slice(&sig_bytes[..64]).unwrap();
    let sk = k256::ecdsa::SigningKey::from_slice(&key).unwrap();
    sk.verifying_key().verify_prehash(&digest, &sig).expect("signature must verify");
    // And v is 27 or 28.
    assert!(sig_bytes[64] == 27 || sig_bytes[64] == 28);
}

#[test]
fn parse_accepted_response() {
    let s = br#"{"jsonrpc":"2.0","id":1,"result":{"bundleHash":"0x1234abcd"}}"#.to_vec();
    match parse_relay_response(&s) {
        RelayOutcome::Accepted { bundle_hash } => {
            assert_eq!(String::from_utf8(bundle_hash).unwrap(), "0x1234abcd");
        },
        other => panic!("expected acceptance, got {:?}", other),
    }
}

#[test]
fn parse_rejected_response() {
    let s = br#"{"jsonrpc":"2.0","id":1,"error":{"code":-32000,"message":"bundle rejected"}}"#
        .to_vec();
    match parse_relay_response(&s) {
        RelayOutcome::Rejected { code, message } => {
            assert_eq!(code, -32000);
            assert_eq!(String::from_utf8(message).unwrap(), "bundle rejected");
        },
        other => panic!("expected rejection, got {:?}", other),
    }
}

#[test]
fn parse_malformed_response() {
    let s = b"not json at all".to_vec();
    assert!(matches!(parse_relay_response(&s), RelayOutcome::Malformed));
}

#[test]
fn find_bytes_first_occurrence() {
    let hay = b"abcabc".to_vec();
    let needle = b"bc".to_vec();
    assert_eq!(find_bytes(&hay, &needle), Some(1));
    let missing = b"zz".to_vec();
    assert_eq!(find_bytes(&hay, &missing), None);
}

#[test]
fn invalid_auth_key_yields_nothing() {
    // The zero scalar is not a valid signing key: no address, no request.
    let zero_key = vec![0u8; 32];
    assert!(auth_address(&zero_key).is_none());
    let b = bundle_of(vec![vec![0x01]], 7, None, None);
    assert!(make_relay_request(&zero_key, &b).is_none());
    // Thirty-two 0xff bytes sit above the curve order: also rejected.
    let big_key = vec![0xffu8; 32];
    assert!(auth_address(&big_key).is_none());
    assert!(make_relay_request(&big_key, &b).is_none());
}

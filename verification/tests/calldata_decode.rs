use mev_template::calldata::{decode_swap, SwapKind};
use mev_template::u256::U256;

fn push_word(d: &mut Vec<u8>, v: u128) {
    let mut w = [0u8; 32];
    w[16..32].copy_from_slice(&v.to_be_bytes());
    d.extend_from_slice(&w);
}

fn tokens_for_eth_calldata(amount_in: u128, out_min: u128, path: &[u128]) -> Vec<u8> {
    let mut d = vec![0x18, 0xcb, 0xaf, 0xe5];
    push_word(&mut d, amount_in);
    push_word(&mut d, out_min);
    push_word(&mut d, 0xa0); // offset of the path array: after the five head words
    push_word(&mut d, 42); // recipient
    push_word(&mut d, 1_700_000_000); // deadline
    push_word(&mut d, path.len() as u128);
    for &p in path {
        push_word(&mut d, p);
    }
    d
}

#[test]
fn decodes_tokens_for_eth() {
    let d = tokens_for_eth_calldata(5_000, 123, &[0xaaaa, 0xbbbb]);
    let c = decode_swap(&d).expect("decodes");
    assert_eq!(c.kind, SwapKind::TokensForEth);
    assert_eq!(c.amount_in, Some(U256::from_u128(5_000)));
    assert_eq!(c.amount_out_min, U256::from_u128(123));
    assert_eq!(c.path.len(), 2);
    assert_eq!(c.path[0].lo, 0xaaaa);
    assert_eq!(c.path[1].lo, 0xbbbb);
}

#[test]
fn decodes_eth_for_tokens_without_amount_argument() {
    let mut d = vec![0xb6, 0xf9, 0xde, 0x95];
    push_word(&mut d, 777); // amountOutMin
    push_word(&mut d, 0x80); // path offset
    push_word(&mut d, 42); // recipient
    push_word(&mut d, 1_700_000_000); // deadline
    push_word(&mut d, 2);
    push_word(&mut d, 0x1111);
    push_word(&mut d, 0x2222);
    let c = decode_swap(&d).expect("decodes");
    assert_eq!(c.kind, SwapKind::EthForTokensFee);
    assert!(c.amount_in.is_none());
    assert_eq!(c.amount_out_min, U256::from_u128(777));
    assert_eq!(c.path.len(), 2);
}

#[test]
fn decodes_three_hop_token_swap() {
    let mut d = vec![0x38, 0xed, 0x17, 0x39];
    push_word(&mut d, 10);
    push_word(&mut d, 20);
    push_word(&mut d, 0xa0);
    push_word(&mut d, 42);
    push_word(&mut d, 1_700_000_000);
    push_word(&mut d, 3);
    push_word(&mut d, 0x01);
    push_word(&mut d, 0x02);
    push_word(&mut d, 0x03);
    let c = decode_swap(&d).expect("decodes");
    assert_eq!(c.kind, SwapKind::TokensForTokens);
    assert_eq!(c.path.len(), 3);
    assert_eq!(c.path[2].lo, 3);
}

#[test]
fn empty_calldata_does_not_decode() {
    let d: Vec<u8> = Vec::new();
    assert!(decode_swap(&d).is_none());
}

#[test]
fn unknown_selector_does_not_decode() {
    let d = vec![0xde, 0xad, 0xbe, 0xef, 0, 0, 0, 0];
    assert!(decode_swap(&d).is_none());
}

#[test]
fn truncated_path_does_not_decode() {
    let mut d = tokens_for_eth_calldata(5_000, 123, &[0xaaaa, 0xbbbb]);
    d.truncate(d.len() - 16);
    assert!(decode_swap(&d).is_none());
}

#[test]
fn address_takes_low_twenty_bytes() {
    // A word with junk in the top twelve bytes still yields the low 160 bits.
    let mut d = vec![0x18, 0xcb, 0xaf, 0xe5];
    push_word(&mut d, 1);
    push_word(&mut d, 0);
    push_word(&mut d, 0xa0);
    push_word(&mut d, 42);
    push_word(&mut d, 1_700_000_000);
    push_word(&mut d, 2);
    // First path word: set bytes above the address range too.
    let mut w = [0xffu8; 32];
    w[12..32].copy_from_slice(&[0u8; 20]);
    w[31] = 5;
    d.extend_from_slice(&w);
    push_word(&mut d, 7);
    let c = decode_swap(&d).expect("decodes");
    assert_eq!(c.path[0].hi, 0);
    assert_eq!(c.path[0].lo, 5);
}

//! End-to-end tests of the receipt registry: the typed store operations,
//! the byte-level entry points, and the decoding of the host's
//! serialization convention.

use realpay::entry::{get_receipt, init, mint_receipt};
use realpay::receipt::Receipt;
use realpay::store::State;

/// A string in the host's convention: a little-endian `u32` byte count,
/// then the UTF-8 bytes.
fn enc_str(s: &str) -> Vec<u8> {
    let mut out = (s.len() as u32).to_le_bytes().to_vec();
    out.extend_from_slice(s.as_bytes());
    out
}

/// A receipt parameter in the host's convention: identifier, transaction
/// hash, 16-byte little-endian amount, 8-byte little-endian timestamp.
fn enc_receipt(id: &str, tx_hash: &str, amount_plt: u128, ts_unix: u64) -> Vec<u8> {
    let mut out = enc_str(id);
    out.extend_from_slice(&enc_str(tx_hash));
    out.extend_from_slice(&amount_plt.to_le_bytes());
    out.extend_from_slice(&ts_unix.to_le_bytes());
    out
}

#[test]
fn mint_then_get_returns_same_fields() {
    let mut state = init();
    let param = enc_receipt("r1", "0xabc", 1000, 1700000000);
    let event = mint_receipt(&mut state, &param).unwrap();
    assert_eq!(event.receipt_id, "r1");
    assert_eq!(event.tx_hash, "0xabc");
    assert_eq!(event.ts_unix, 1700000000);

    let found = get_receipt(&state, &enc_str("r1")).unwrap().unwrap();
    assert_eq!(found.receipt_id, "r1");
    assert_eq!(found.tx_hash, "0xabc");
    assert_eq!(found.amount_plt, 1000);
    assert_eq!(found.ts_unix, 1700000000);

    let missing = get_receipt(&state, &enc_str("r2")).unwrap();
    assert!(missing.is_none());
}

#[test]
fn get_unminted_identifier_returns_none() {
    let state = init();
    let res = get_receipt(&state, &enc_str("never-minted")).unwrap();
    assert!(res.is_none());
}

#[test]
fn second_mint_with_same_identifier_overwrites() {
    let mut state = init();
    mint_receipt(&mut state, &enc_receipt("dup", "0x111", 1, 10)).unwrap();
    mint_receipt(&mut state, &enc_receipt("dup", "0x222", 2, 20)).unwrap();
    let found = get_receipt(&state, &enc_str("dup")).unwrap().unwrap();
    assert_eq!(found.tx_hash, "0x222");
    assert_eq!(found.amount_plt, 2);
    assert_eq!(found.ts_unix, 20);
}

#[test]
fn malformed_mint_truncated_length_prefix() {
    let mut state = init();
    assert!(mint_receipt(&mut state, &[1u8, 2u8]).is_err());
}

#[test]
fn malformed_mint_length_overruns_buffer() {
    let mut state = init();
    // Claims a ten-byte identifier but carries only two bytes.
    let param = vec![10u8, 0, 0, 0, b'a', b'b'];
    assert!(mint_receipt(&mut state, &param).is_err());
}

#[test]
fn malformed_mint_invalid_utf8_identifier() {
    let mut state = init();
    let mut param = vec![2u8, 0, 0, 0, 0xFF, 0xFE];
    param.extend_from_slice(&enc_str("0xabc"));
    param.extend_from_slice(&1000u128.to_le_bytes());
    param.extend_from_slice(&1700000000u64.to_le_bytes());
    assert!(mint_receipt(&mut state, &param).is_err());
}

#[test]
fn malformed_mint_truncated_amount() {
    let mut state = init();
    let mut param = enc_str("r1");
    param.extend_from_slice(&enc_str("0xabc"));
    param.extend_from_slice(&[0u8; 10]);
    assert!(mint_receipt(&mut state, &param).is_err());
}

#[test]
fn malformed_mint_leaves_store_unchanged() {
    let mut state = init();
    mint_receipt(&mut state, &enc_receipt("kept", "0xaaa", 7, 70)).unwrap();
    assert!(mint_receipt(&mut state, &[0xFFu8]).is_err());
    let found = get_receipt(&state, &enc_str("kept")).unwrap().unwrap();
    assert_eq!(found.tx_hash, "0xaaa");
    assert_eq!(found.amount_plt, 7);
    let missing = get_receipt(&state, &enc_str("other")).unwrap();
    assert!(missing.is_none());
}

#[test]
fn malformed_get_parameter_fails() {
    let state = init();
    assert!(get_receipt(&state, &[1u8, 0, 0]).is_err());
    // Length prefix beyond the end of the buffer.
    assert!(get_receipt(&state, &[5u8, 0, 0, 0, b'x']).is_err());
    // Invalid UTF-8 in the identifier.
    assert!(get_receipt(&state, &[1u8, 0, 0, 0, 0xFF]).is_err());
}

#[test]
fn every_successful_mint_emits_one_matching_event() {
    let mut state = init();
    let e1 = mint_receipt(&mut state, &enc_receipt("a", "0x1", 1, 100)).unwrap();
    let e2 = mint_receipt(&mut state, &enc_receipt("b", "0x2", 2, 200)).unwrap();
    assert_eq!(e1.receipt_id, "a");
    assert_eq!(e1.tx_hash, "0x1");
    assert_eq!(e1.ts_unix, 100);
    assert_eq!(e2.receipt_id, "b");
    assert_eq!(e2.tx_hash, "0x2");
    assert_eq!(e2.ts_unix, 200);
}

#[test]
fn amounts_decode_little_endian() {
    let mut state = init();
    // 1000 = 0x03E8: least significant byte first.
    let mut param = enc_str("le");
    param.extend_from_slice(&enc_str("0x0"));
    let mut amount = vec![0xE8u8, 0x03];
    amount.extend_from_slice(&[0u8; 14]);
    param.extend_from_slice(&amount);
    param.extend_from_slice(&[0u8; 8]);
    mint_receipt(&mut state, &param).unwrap();
    let found = get_receipt(&state, &enc_str("le")).unwrap().unwrap();
    assert_eq!(found.amount_plt, 1000);
    assert_eq!(found.ts_unix, 0);
}

#[test]
fn largest_amount_and_timestamp_round_trip() {
    let mut state = init();
    let param = enc_receipt("max", "0xfff", u128::MAX, u64::MAX);
    mint_receipt(&mut state, &param).unwrap();
    let found = get_receipt(&state, &enc_str("max")).unwrap().unwrap();
    assert_eq!(found.amount_plt, u128::MAX);
    assert_eq!(found.ts_unix, u64::MAX);
}

#[test]
fn trailing_bytes_after_parameter_are_ignored() {
    let mut state = init();
    let mut param = enc_receipt("tail", "0x9", 9, 99);
    param.extend_from_slice(&[0xDEu8, 0xAD]);
    mint_receipt(&mut state, &param).unwrap();
    let mut query = enc_str("tail");
    query.extend_from_slice(&[0x01u8]);
    let found = get_receipt(&state, &query).unwrap().unwrap();
    assert_eq!(found.amount_plt, 9);
}

#[test]
fn multibyte_utf8_identifier_round_trips() {
    let mut state = init();
    let param = enc_receipt("reçu-münze", "0xdead", 42, 5);
    mint_receipt(&mut state, &param).unwrap();
    let found = get_receipt(&state, &enc_str("reçu-münze")).unwrap().unwrap();
    assert_eq!(found.receipt_id, "reçu-münze");
    assert_eq!(found.amount_plt, 42);
}

#[test]
fn empty_identifier_is_a_valid_key() {
    let mut state = init();
    mint_receipt(&mut state, &enc_receipt("", "0xe", 3, 30)).unwrap();
    let found = get_receipt(&state, &enc_str("")).unwrap().unwrap();
    assert_eq!(found.receipt_id, "");
    assert_eq!(found.amount_plt, 3);
}

#[test]
fn typed_store_operations() {
    let mut state = State::new();
    let receipt = Receipt {
        receipt_id: String::from("t1"),
        tx_hash: String::from("0xbeef"),
        amount_plt: 123,
        ts_unix: 456,
    };
    let event = state.mint(receipt);
    assert_eq!(event.receipt_id, "t1");
    assert_eq!(event.tx_hash, "0xbeef");
    assert_eq!(event.ts_unix, 456);
    let found = state.get(&String::from("t1")).unwrap();
    assert_eq!(found.receipt_id, "t1");
    assert_eq!(found.tx_hash, "0xbeef");
    assert_eq!(found.amount_plt, 123);
    assert_eq!(found.ts_unix, 456);
    assert!(state.get(&String::from("t2")).is_none());
}

#[test]
fn decode_string_reads_at_offset() {
    let mut buf = vec![0xAAu8, 0xBB];
    buf.extend_from_slice(&enc_str("hi"));
    let (text, end) = realpay::codec::decode_string(&buf, 2).unwrap();
    assert_eq!(text, "hi");
    assert_eq!(end, 8);
    assert!(realpay::codec::decode_string(&buf, 3).is_none());
}

#[test]
fn read_le_is_little_endian() {
    let buf = [0x01u8, 0x02, 0x03, 0x04];
    assert_eq!(realpay::codec::read_le(&buf, 0, 4), 0x04030201);
    assert_eq!(realpay::codec::read_le(&buf, 1, 2), 0x0302);
    assert_eq!(realpay::codec::read_le(&buf, 0, 0), 0);
}

#[test]
fn decode_receipt_direct() {
    let param = enc_receipt("id9", "0x9f", 77, 7);
    let r = realpay::codec::decode_receipt(&param).unwrap();
    assert_eq!(r.receipt_id, "id9");
    assert_eq!(r.tx_hash, "0x9f");
    assert_eq!(r.amount_plt, 77);
    assert_eq!(r.ts_unix, 7);
    assert!(realpay::codec::decode_receipt(&param[..param.len() - 1]).is_none());
}

#[test]
fn records_returns_every_stored_receipt_once() {
    let mut state = init();
    mint_receipt(&mut state, &enc_receipt("a", "0x1", 1, 10)).unwrap();
    mint_receipt(&mut state, &enc_receipt("b", "0x2", 2, 20)).unwrap();
    mint_receipt(&mut state, &enc_receipt("a", "0x3", 3, 30)).unwrap();
    let mut records = state.records();
    records.sort_by(|x, y| x.receipt_id.cmp(&y.receipt_id));
    assert_eq!(records.len(), 2);
    assert_eq!(records[0].receipt_id, "a");
    assert_eq!(records[0].tx_hash, "0x3");
    assert_eq!(records[1].receipt_id, "b");
    assert_eq!(records[1].tx_hash, "0x2");
}

use rollup_core::operations::{EraseOp, EraseOpError, CHUNKS, OP_CODE, PUBDATA_BYTES};
use rollup_core::params::CHUNK_BYTES;
use rollup_core::tx::{Address, Erase};

fn sample_tx(account_id: u32, nonce: u32, fee: u128, fee_token: u32) -> Erase {
    Erase::new(account_id, Address { hi: 0, lo: 0 }, nonce, fee, fee_token, None)
}

#[test]
fn encode_length_is_two_chunks() {
    let op = EraseOp {
        tx: sample_tx(1, 0, 25, 0),
    };
    let data = op.get_public_data();
    assert_eq!(data.len(), CHUNKS * CHUNK_BYTES);
    assert_eq!(data.len(), PUBDATA_BYTES);

    let op2 = EraseOp {
        tx: sample_tx(0xFF_FFFF, 0xFFFF_FFFF, 2047, 2047),
    };
    assert_eq!(op2.get_public_data().len(), CHUNKS * CHUNK_BYTES);
}

#[test]
fn encode_scenario_bytes_exact() {
    let op = EraseOp {
        tx: sample_tx(1, 0, 25, 0),
    };
    let data = op.get_public_data();
    let expected: Vec<u8> = vec![
        OP_CODE, 0, 0, 0, 1, 0, 0, 0, 0, 0, 0, 0, 0, 0, 25, 0, 0, 0,
    ];
    assert_eq!(data, expected);
}

#[test]
fn decode_reproduces_fields() {
    let op = EraseOp {
        tx: sample_tx(7, 42, 123_456, 3),
    };
    let data = op.get_public_data();
    let decoded = EraseOp::from_public_data(&data).unwrap();
    assert_eq!(decoded.tx.account_id, 7);
    assert_eq!(decoded.tx.nonce, 42);
    assert_eq!(decoded.tx.fee_token, 3);
    // the fee survives only up to the lossy packing: 123456 packs to
    // mantissa 1234, exponent 2
    assert_eq!(decoded.tx.fee, 123_400);
    assert_eq!(decoded.tx.account, Address { hi: 0, lo: 0 });
}

#[test]
fn decode_small_fee_is_exact() {
    let op = EraseOp {
        tx: sample_tx(1, 0, 25, 0),
    };
    let decoded = EraseOp::from_public_data(&op.get_public_data()).unwrap();
    assert_eq!(decoded.tx.fee, 25);
}

#[test]
fn reencode_after_decode_is_identical() {
    let op = EraseOp {
        tx: sample_tx(1, 0, 25, 0),
    };
    let first = op.get_public_data();
    let decoded = EraseOp::from_public_data(&first).unwrap();
    let second = decoded.get_public_data();
    assert_eq!(first, second);
}

#[test]
fn packing_twice_equals_packing_once() {
    // a fee above the mantissa range loses precision once, then never again
    let op = EraseOp {
        tx: sample_tx(1, 0, 987_654_321, 0),
    };
    let once = EraseOp::from_public_data(&op.get_public_data()).unwrap();
    let op_again = EraseOp {
        tx: sample_tx(1, 0, once.tx.fee, 0),
    };
    let twice = EraseOp::from_public_data(&op_again.get_public_data()).unwrap();
    assert_eq!(once.tx.fee, twice.tx.fee);
}

#[test]
fn decode_wrong_length_fails() {
    let r = EraseOp::from_public_data(&[OP_CODE, 0, 0]);
    assert_eq!(r.unwrap_err(), EraseOpError::PubdataSizeMismatch);
    let r = EraseOp::from_public_data(&[0u8; 19]);
    assert_eq!(r.unwrap_err(), EraseOpError::PubdataSizeMismatch);
}

#[test]
fn updated_account_ids_name_the_account() {
    let op = EraseOp {
        tx: sample_tx(9, 0, 1, 0),
    };
    assert_eq!(op.get_updated_account_ids(), vec![9]);
}

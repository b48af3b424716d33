use rollup_core::operations::{EraseOp, CHUNKS, OP_CODE};
use rollup_core::state::ZkSyncState;
use rollup_core::tree::{Account, AccountTree};
use rollup_core::tx::{Address, Erase, PubKeyHash, TxSignature};
use rollup_core::witness::{EraseWitness, SigDataInput};

fn tree_with_account(id: u32, token: u32, balance: u128) -> AccountTree {
    let mut account = Account::new(PubKeyHash { hi: 7, lo: 99 }, Address { hi: 1, lo: 2 });
    account.set_balance(token, balance);
    let mut tree = AccountTree::new();
    tree.insert_account(id, account);
    tree
}

fn scenario_op() -> EraseOp {
    EraseOp {
        tx: Erase::new(1, Address { hi: 1, lo: 2 }, 0, 25, 0, None),
    }
}

fn sig_input() -> SigDataInput {
    SigDataInput {
        first_sig_msg: 11,
        second_sig_msg: 22,
        third_sig_msg: 33,
        forth_sig_msg: 44,
        signature: TxSignature {
            recovered_signer: Some(PubKeyHash { hi: 7, lo: 99 }),
        },
        signer_pub_key_packed: vec![true, false, true],
    }
}

#[test]
fn test_erase_success() {
    // handler and witness builder applied to the same pre-state
    let mut state = ZkSyncState {
        tree: tree_with_account(1, 0, 100),
    };
    let mut witness_tree = tree_with_account(1, 0, 100);

    let op = scenario_op();
    let (fee, _updates) = state.apply_op(&op).expect("Operation failed");
    let fee = fee.unwrap();
    assert_eq!(fee.token, 0);
    assert_eq!(fee.amount, 25);

    let witness = EraseWitness::apply_tx(&mut witness_tree, &op);

    // both made the same transition: same observable post-state
    let handler_account = state.get_account(1).unwrap();
    let witness_account = witness_tree.get_account(1).unwrap();
    assert_eq!(handler_account.get_balance(0), 75);
    assert_eq!(witness_account.get_balance(0), 75);
    assert_eq!(handler_account.has_obsolete(0), witness_account.has_obsolete(0));
    assert!(witness_account.has_obsolete(0));
    assert_eq!(handler_account.pub_key_hash, witness_account.pub_key_hash);

    // the witness captured the transition
    assert_eq!(witness.tx_type, OP_CODE);
    assert_eq!(witness.args.a, 100);
    assert_eq!(witness.args.b, 25);
    assert_eq!(witness.args.fee, 25);
    assert_eq!(witness.account_before.witness.balance_value, 100);
    assert_eq!(witness.account_after.witness.balance_value, 75);
    assert!(!witness.account_before.witness.signal_value);
    assert!(witness.account_after.witness.signal_value);
}

#[test]
fn pubdata_bits_match_codec_bytes() {
    let mut tree = tree_with_account(1, 0, 100);
    let op = scenario_op();
    let bytes = op.get_public_data();
    let witness = EraseWitness::apply_tx(&mut tree, &op);
    let bits = witness.get_pubdata();
    assert_eq!(bits.len(), bytes.len() * 8);
    for (i, bit) in bits.iter().enumerate() {
        let byte = bytes[i / 8];
        let expected = (byte >> (7 - (i % 8))) & 1 == 1;
        assert_eq!(*bit, expected, "bit {i} must reproduce the codec byte");
    }
}

#[test]
fn offset_commitment_is_all_false() {
    let mut tree = tree_with_account(1, 0, 100);
    let witness = EraseWitness::apply_tx(&mut tree, &scenario_op());
    let offset = witness.get_offset_commitment_data();
    assert_eq!(offset.len(), CHUNKS * 8);
    assert!(offset.iter().all(|b| !b));
}

#[test]
fn calculate_operations_builds_two_rows() {
    let mut tree = tree_with_account(1, 0, 100);
    let witness = EraseWitness::apply_tx(&mut tree, &scenario_op());
    let input = sig_input();
    let rows = witness.calculate_operations(&input);
    assert_eq!(rows.len(), 2);

    let bits = witness.get_pubdata();
    let chunk_value = |c: usize| -> u128 {
        let mut v: u128 = 0;
        for i in (0..72).rev() {
            v = v * 2 + if bits[c * 72 + i] { 1 } else { 0 };
        }
        v
    };

    for (c, row) in rows.iter().enumerate() {
        assert_eq!(row.tx_type, OP_CODE);
        assert_eq!(row.chunk as usize, c);
        assert_eq!(row.pubdata_chunk, chunk_value(c));
        assert_eq!(row.first_sig_msg, input.first_sig_msg);
        assert_eq!(row.second_sig_msg, input.second_sig_msg);
        assert_eq!(row.third_sig_msg, input.third_sig_msg);
        assert_eq!(row.forth_sig_msg, input.forth_sig_msg);
        assert_eq!(row.signature_data, input.signature);
        assert_eq!(row.signer_pub_key_packed, input.signer_pub_key_packed);
        assert_eq!(row.args, witness.args);
        assert_eq!(row.lhs, row.rhs);
    }
    assert_eq!(rows[0].lhs, witness.account_before);
    assert_eq!(rows[1].lhs, witness.account_after);
}

use rollup_core::operations::EraseOp;
use rollup_core::state::{EraseOpError, ZkSyncState};
use rollup_core::tree::Account;
use rollup_core::tx::{Address, Erase, PubKeyHash, TxSignature};

fn signing_key() -> PubKeyHash {
    PubKeyHash { hi: 7, lo: 99 }
}

fn state_with_account(id: u32, token: u32, balance: u128) -> ZkSyncState {
    let mut account = Account::new(signing_key(), Address { hi: 1, lo: 2 });
    account.set_balance(token, balance);
    let mut state = ZkSyncState::new();
    state.insert_account(id, account);
    state
}

fn erase(account_id: u32, nonce: u32, fee: u128, fee_token: u32) -> Erase {
    Erase::new(account_id, Address { hi: 1, lo: 2 }, nonce, fee, fee_token, None)
}

#[test]
fn apply_success_scenario() {
    let mut state = state_with_account(1, 0, 100);
    let result = state.apply_tx(erase(1, 0, 25, 0)).expect("Operation failed");
    let fee = result.fee.expect("fee must be collected");
    assert_eq!(fee.token, 0);
    assert_eq!(fee.amount, 25);
    assert_eq!(result.updates.len(), 1);
    assert_eq!(result.updates[0].account_id, 1);
    assert_eq!(result.updates[0].newly_obsoleted_nonce, Some(0));
    let account = state.get_account(1).unwrap();
    assert_eq!(account.get_balance(0), 75);
    assert!(account.has_obsolete(0));
}

#[test]
fn repeat_apply_rejects_nonce() {
    let mut state = state_with_account(1, 0, 100);
    state.apply_tx(erase(1, 0, 25, 0)).expect("Operation failed");
    let second = state.apply_tx(erase(1, 0, 25, 0));
    assert_eq!(second.unwrap_err(), EraseOpError::NonceObsolete);
    // balance unchanged by the rejected repeat
    assert_eq!(state.get_account(1).unwrap().get_balance(0), 75);
}

#[test]
fn insufficient_balance_rejects_without_mutation() {
    let mut state = state_with_account(1, 0, 10);
    let result = state.apply_tx(erase(1, 1, 25, 0));
    assert_eq!(result.unwrap_err(), EraseOpError::InsufficientBalance);
    let account = state.get_account(1).unwrap();
    assert_eq!(account.get_balance(0), 10);
    assert!(!account.has_obsolete(1));
}

#[test]
fn validate_rejects_invalid_token() {
    let state = state_with_account(1, 0, 100);
    let r = state.create_op(erase(1, 0, 25, 5000));
    assert_eq!(r.unwrap_err(), EraseOpError::InvalidTokenId);
}

#[test]
fn validate_rejects_missing_account() {
    let state = state_with_account(1, 0, 100);
    let r = state.create_op(erase(9, 0, 25, 0));
    assert_eq!(r.unwrap_err(), EraseOpError::AccountNotFound);
}

#[test]
fn validate_rejects_locked_account() {
    let mut account = Account::new(PubKeyHash { hi: 0, lo: 0 }, Address { hi: 1, lo: 2 });
    account.set_balance(0, 100);
    let mut state = ZkSyncState::new();
    state.insert_account(1, account);
    let r = state.create_op(erase(1, 0, 25, 0));
    assert_eq!(r.unwrap_err(), EraseOpError::AccountIsLocked);
}

#[test]
fn validate_rejects_foreign_signature() {
    let state = state_with_account(1, 0, 100);
    let tx = Erase::new(
        1,
        Address { hi: 1, lo: 2 },
        0,
        25,
        0,
        Some(TxSignature {
            recovered_signer: Some(PubKeyHash { hi: 8, lo: 8 }),
        }),
    );
    let r = state.create_op(tx);
    assert_eq!(r.unwrap_err(), EraseOpError::InvalidSignature);
}

#[test]
fn validate_accepts_own_signature() {
    let state = state_with_account(1, 0, 100);
    let tx = Erase::new(
        1,
        Address { hi: 1, lo: 2 },
        0,
        25,
        0,
        Some(TxSignature {
            recovered_signer: Some(signing_key()),
        }),
    );
    let op = state.create_op(tx).expect("validation must pass");
    assert_eq!(op.tx.account_id, 1);
}

#[test]
fn apply_error_priority_nonce_before_balance() {
    // the obsolete-nonce re-check fires before the balance check
    let mut state = state_with_account(1, 0, 100);
    state.apply_tx(erase(1, 0, 80, 0)).expect("Operation failed");
    let op = EraseOp {
        tx: erase(1, 0, 9999, 0),
    };
    let r = state.apply_op(&op);
    assert_eq!(r.unwrap_err(), EraseOpError::NonceObsolete);
}

#[test]
fn check_correctness_and_signature_cache() {
    let mut tx = Erase::new(
        1,
        Address { hi: 1, lo: 2 },
        0,
        25,
        0,
        Some(TxSignature {
            recovered_signer: Some(signing_key()),
        }),
    );
    assert!(tx.check_correctness());
    let verdict = tx.verify_signature().expect("signature must verify");
    assert_eq!(verdict.0, signing_key());

    let mut out_of_bounds = Erase::new(
        0xFFFF_FFFF,
        Address { hi: 1, lo: 2 },
        0,
        25,
        0,
        Some(TxSignature {
            recovered_signer: Some(signing_key()),
        }),
    );
    assert!(!out_of_bounds.check_correctness());

    let mut unsigned = erase(1, 0, 25, 0);
    assert!(!unsigned.check_correctness());
}

#[test]
fn new_signed_builds_verifiable_transaction() {
    let tx = Erase::new_signed(1, Address { hi: 1, lo: 2 }, 3, 25, 0, signing_key())
        .expect("signing must succeed");
    assert_eq!(tx.verify_signature().unwrap().0, signing_key());
    assert!(Erase::new_signed(0xFFFF_FFFF, Address { hi: 1, lo: 2 }, 3, 25, 0, signing_key())
        .is_err());
}

#[test]
fn get_bytes_exact_layout() {
    let tx = Erase::new(
        1,
        Address {
            hi: 0x0102_0304,
            lo: 0x0506_0708_090a_0b0c_0d0e_0f10_1112_1314,
        },
        5,
        25,
        2,
        None,
    );
    let bytes = tx.get_bytes();
    let mut expected: Vec<u8> = vec![243, 1, 0, 0, 0, 1];
    expected.extend_from_slice(&[
        1, 2, 3, 4, 5, 6, 7, 8, 9, 10, 11, 12, 13, 14, 15, 16, 17, 18, 19, 20,
    ]);
    expected.extend_from_slice(&[0, 0, 0, 5]);
    expected.extend_from_slice(&[0, 0, 0, 2]);
    expected.extend_from_slice(&[0, 25]);
    assert_eq!(bytes, expected);
}

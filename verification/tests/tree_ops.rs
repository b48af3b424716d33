use rollup_core::params::{ACCOUNT_TREE_DEPTH, BALANCE_TREE_DEPTH, SIGNAL_TREE_DEPTH};
use rollup_core::tree::{Account, AccountTree, BalanceUpdate};
use rollup_core::tx::{Address, PubKeyHash};

fn account_with(token: u32, balance: u128) -> Account {
    let mut account = Account::new(PubKeyHash { hi: 1, lo: 1 }, Address { hi: 2, lo: 2 });
    account.set_balance(token, balance);
    account
}

#[test]
fn insert_and_read_back() {
    let mut tree = AccountTree::new();
    assert!(tree.get_account(3).is_none());
    tree.insert_account(3, account_with(0, 50));
    let account = tree.get_account(3).unwrap();
    assert_eq!(account.get_balance(0), 50);
    assert_eq!(account.get_balance(1), 0);
    assert!(!account.has_obsolete(0));
    assert!(tree.get_account(4).is_none());
}

#[test]
fn leaf_operation_captures_before_and_after() {
    let mut tree = AccountTree::new();
    tree.insert_account(1, account_with(0, 100));
    let leaf = tree.apply_leaf_operation(1, 0, 7, BalanceUpdate::Sub(25), true);
    assert_eq!(leaf.balance_before, 100);
    assert_eq!(leaf.balance_after, 75);
    assert!(!leaf.signal_before);
    assert!(leaf.signal_after);
    assert_eq!(leaf.witness_before.pub_key_hash, PubKeyHash { hi: 1, lo: 1 });
    assert_eq!(leaf.witness_after, leaf.witness_before);
    let account = tree.get_account(1).unwrap();
    assert_eq!(account.get_balance(0), 75);
    assert!(account.has_obsolete(7));
    assert!(!account.has_obsolete(8));
}

#[test]
fn leaf_operation_add_restores_balance() {
    let mut tree = AccountTree::new();
    tree.insert_account(1, account_with(0, 10));
    tree.apply_leaf_operation(1, 0, 0, BalanceUpdate::Sub(10), false);
    assert_eq!(tree.get_account(1).unwrap().get_balance(0), 0);
    let leaf = tree.apply_leaf_operation(1, 0, 0, BalanceUpdate::Add(40), false);
    assert_eq!(leaf.balance_after, 40);
    assert_eq!(tree.get_account(1).unwrap().get_balance(0), 40);
    // no signal was raised in either operation
    assert!(!tree.get_account(1).unwrap().has_obsolete(0));
}

#[test]
fn audit_routes_spell_the_keys() {
    let mut tree = AccountTree::new();
    tree.insert_account(5, account_with(0, 1));
    let (account_path, balance_path, signal_path) = tree.get_audits(5, 3, 9);
    assert_eq!(account_path.len(), ACCOUNT_TREE_DEPTH);
    assert_eq!(balance_path.len(), BALANCE_TREE_DEPTH);
    assert_eq!(signal_path.len(), SIGNAL_TREE_DEPTH);
    for (k, bit) in account_path.iter().enumerate() {
        assert_eq!(*bit, (5u32 >> k) & 1 == 1);
    }
    for (k, bit) in balance_path.iter().enumerate() {
        assert_eq!(*bit, (3u32 >> k) & 1 == 1);
    }
    for (k, bit) in signal_path.iter().enumerate() {
        assert_eq!(*bit, (9u32 >> k) & 1 == 1);
    }
}

#[test]
fn obsolete_set_only_grows() {
    let mut account = account_with(0, 1);
    account.apply_obsolete(rollup_core::tree::Obsolete::new(4));
    account.apply_obsolete(rollup_core::tree::Obsolete::new(4));
    assert!(account.has_obsolete(4));
    assert_eq!(account.obsoletes, vec![4]);
}

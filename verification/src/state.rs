//! State handler for the erase operation: validates an incoming transaction
//! against the account tree, applies it through the tree's atomic
//! leaf-update primitive, and returns the collected fee together with the
//! update log. Validation failures never mutate state.

use vstd::prelude::*;
use crate::operations::EraseOp;
use crate::params::MAX_PROCESSABLE_TOKEN;
use crate::tree::{
    erase_transition, update_fits, updated_amount, Account, AccountTree, BalanceUpdate, Obsolete,
};
use crate::tx::{Erase, PubKeyHash};

verus! {

/// Semantic rejections: an inadmissible operation. All are terminal for the
/// operation and leave the state untouched.
#[derive(Clone, Copy, PartialEq, Eq, Structural, Debug)]
pub enum EraseOpError {
    InvalidTokenId,
    AccountNotFound,
    AccountIsLocked,
    InvalidSignature,
    NonceObsolete,
    InsufficientBalance,
}

/// Fee extracted by one operation, aggregated by the caller over a block.
#[derive(Clone, Copy, PartialEq, Eq, Structural, Debug)]
pub struct CollectedFee {
    pub token: u32,
    pub amount: u128,
}

/// Append-only record of one leaf mutation; the aggregate over a block is
/// the state diff.
#[derive(Clone, Copy, PartialEq, Eq, Structural, Debug)]
pub struct AccountUpdate {
    pub account_id: u32,
    pub token: u32,
    pub balance_delta: BalanceUpdate,
    pub newly_obsoleted_nonce: Option<u32>,
}

/// The closed catalog of executed operations; a block processor dispatches
/// on this tag.
#[derive(Clone, PartialEq, Eq, Debug)]
pub enum ZkSyncOp {
    Erase(Box<EraseOp>),
}

/// Everything a successful `apply_tx` hands back.
#[derive(PartialEq, Eq, Debug)]
pub struct OpSuccess {
    pub fee: Option<CollectedFee>,
    pub updates: Vec<AccountUpdate>,
    pub executed_op: ZkSyncOp,
}

/// The rollup state: ownership of the account tree during block
/// construction.
#[derive(Clone, PartialEq, Eq, Debug)]
pub struct ZkSyncState {
    pub tree: AccountTree,
}

impl ZkSyncState {
    pub open spec fn wf(self) -> bool {
        self.tree.wf()
    }

    /// When validation admits a transaction: fee token within bounds, the
    /// account exists and is not locked, and a verifiable signature (when
    /// one is present) names the account's own key.
    pub open spec fn create_op_ok(self, tx: Erase) -> bool {
        &&& tx.fee_token <= MAX_PROCESSABLE_TOKEN
        &&& self.tree.has_account(tx.account_id)
        &&& self.tree.spec_account(tx.account_id).pub_key_hash != (PubKeyHash { hi: 0, lo: 0 })
        &&& (match tx.verify_spec() {
            Some(v) => v.0 == self.tree.spec_account(tx.account_id).pub_key_hash,
            None => true,
        })
    }

    /// The rejection validation reports, in priority order: invalid token,
    /// then account not found, then account locked, then invalid signature.
    pub open spec fn create_op_error(self, tx: Erase) -> EraseOpError {
        if tx.fee_token > MAX_PROCESSABLE_TOKEN {
            EraseOpError::InvalidTokenId
        } else if !self.tree.has_account(tx.account_id) {
            EraseOpError::AccountNotFound
        } else if self.tree.spec_account(tx.account_id).pub_key_hash == (PubKeyHash {
            hi: 0,
            lo: 0,
        }) {
            EraseOpError::AccountIsLocked
        } else {
            EraseOpError::InvalidSignature
        }
    }

    /// When the mutation step admits an operation: the account exists, the
    /// nonce is not yet obsolete, and the fee-token balance covers the fee.
    pub open spec fn apply_ok(self, op: EraseOp) -> bool {
        &&& self.tree.has_account(op.tx.account_id)
        &&& !self.tree.is_obsolete(op.tx.account_id, op.tx.nonce)
        &&& self.tree.balance_of(op.tx.account_id, op.tx.fee_token) >= op.tx.fee
    }

    /// The rejection the mutation step reports. A missing account surfaces
    /// as `NonceObsolete` here: the mutation step is a defence-in-depth
    /// re-check behind `create_op`, which reports `AccountNotFound` itself.
    pub open spec fn apply_error(self, op: EraseOp) -> EraseOpError {
        if !self.tree.has_account(op.tx.account_id) || self.tree.is_obsolete(
            op.tx.account_id,
            op.tx.nonce,
        ) {
            EraseOpError::NonceObsolete
        } else {
            EraseOpError::InsufficientBalance
        }
    }

    /// The update-log entry a successful erase appends.
    pub open spec fn erase_update_record(op: EraseOp) -> AccountUpdate {
        AccountUpdate {
            account_id: op.tx.account_id,
            token: op.tx.fee_token,
            balance_delta: BalanceUpdate::Sub(op.tx.fee),
            newly_obsoleted_nonce: Some(op.tx.nonce),
        }
    }

    /// An empty state.
    pub fn new() -> (r: ZkSyncState)
        ensures
            r.wf(),
            forall|i: u32| !r.tree.has_account(i),
    {
        ZkSyncState { tree: AccountTree::new() }
    }

    /// Read an account leaf.
    pub fn get_account(&self, id: u32) -> (r: Option<&Account>)
        requires
            self.wf(),
        ensures
            self.tree.has_account(id) ==> (r matches Some(a) && *a == self.tree.spec_account(id)),
            !self.tree.has_account(id) ==> r is None,
    {
        self.tree.get_account(id)
    }

    /// Register a fresh account leaf.
    pub fn insert_account(&mut self, id: u32, account: Account)
        requires
            old(self).wf(),
            !old(self).tree.has_account(id),
            id <= crate::params::MAX_ACCOUNT_ID,
            account.wf(),
        ensures
            final(self).wf(),
            final(self).tree.has_account(id),
            final(self).tree.spec_account(id) == account,
            forall|i: u32|
                i != id ==> final(self).tree.has_account(i) == old(self).tree.has_account(i),
            forall|i: u32|
                i != id && old(self).tree.has_account(i)
                    ==> #[trigger] final(self).tree.spec_account(i)
                        == old(self).tree.spec_account(i),
    {
        self.tree.insert_account(id, account);
    }

    /// Validate a transaction into an operation, without touching state.
    pub fn create_op(&self, tx: Erase) -> (r: Result<EraseOp, EraseOpError>)
        requires
            self.wf(),
        ensures
            self.create_op_ok(tx) ==> r == Ok::<EraseOp, EraseOpError>(EraseOp { tx }),
            !self.create_op_ok(tx) ==> r == Err::<EraseOp, EraseOpError>(self.create_op_error(tx)),
    {
        if tx.fee_token > crate::params::max_processable_token() {
            return Err(EraseOpError::InvalidTokenId);
        }
        let account = match self.tree.get_account(tx.account_id) {
            Some(a) => a,
            None => {
                return Err(EraseOpError::AccountNotFound);
            },
        };
        if account.pub_key_hash == (PubKeyHash { hi: 0, lo: 0 }) {
            return Err(EraseOpError::AccountIsLocked);
        }
        let account_key_hash = account.pub_key_hash;
        if let Some((pub_key_hash, _version)) = tx.verify_signature() {
            if pub_key_hash != account_key_hash {
                return Err(EraseOpError::InvalidSignature);
            }
        }
        Ok(EraseOp { tx })
    }

    /// One atomic account mutation through the tree primitive, returning
    /// its log record.
    pub fn update_account(
        &mut self,
        id: u32,
        token: u32,
        update: BalanceUpdate,
        obsolete: Option<Obsolete>,
    ) -> (r: AccountUpdate)
        requires
            old(self).wf(),
            old(self).tree.has_account(id),
            update_fits(old(self).tree.balance_of(id, token), update),
        ensures
            final(self).wf(),
            forall|i: u32| final(self).tree.has_account(i) == old(self).tree.has_account(i),
            forall|i: u32|
                old(self).tree.has_account(i)
                    ==> (#[trigger] final(self).tree.spec_account(i)).pub_key_hash
                        == old(self).tree.spec_account(i).pub_key_hash
                    && final(self).tree.spec_account(i).address
                        == old(self).tree.spec_account(i).address,
            final(self).tree.balance_of(id, token) == updated_amount(
                old(self).tree.balance_of(id, token),
                update,
            ),
            forall|i: u32, t: u32|
                !(i == id && t == token)
                    ==> #[trigger] final(self).tree.balance_of(i, t)
                        == old(self).tree.balance_of(i, t),
            (match obsolete {
                Some(o) => final(self).tree.is_obsolete(id, o.nonce) && forall|i: u32, m: u32|
                    !(i == id && m == o.nonce) ==> #[trigger] final(self).tree.is_obsolete(i, m)
                        == old(self).tree.is_obsolete(i, m),
                None => forall|i: u32, m: u32| #[trigger]
                    final(self).tree.is_obsolete(i, m) == old(self).tree.is_obsolete(i, m),
            }),
            r == (AccountUpdate {
                account_id: id,
                token,
                balance_delta: update,
                newly_obsoleted_nonce: match obsolete {
                    Some(o) => Some(o.nonce),
                    None => None,
                },
            }),
    {
        let (nonce, raise, newly) = match obsolete {
            Some(o) => (o.nonce, true, Some(o.nonce)),
            None => (0u32, false, None),
        };
        let _leaf = self.tree.apply_leaf_operation(id, token, nonce, update, raise);
        AccountUpdate { account_id: id, token, balance_delta: update, newly_obsoleted_nonce: newly }
    }

    /// Defence-in-depth re-check and mutation. Rejections leave the state
    /// exactly as it was; success subtracts the fee, marks the nonce
    /// obsolete, touches no other leaf, and reports the collected fee with
    /// the one-entry update log.
    fn apply_erase_op(&mut self, op: &EraseOp) -> (r: Result<
        (Option<CollectedFee>, Vec<AccountUpdate>),
        EraseOpError,
    >)
        requires
            old(self).wf(),
        ensures
            final(self).wf(),
            !old(self).apply_ok(*op) ==> r == Err::<
                (Option<CollectedFee>, Vec<AccountUpdate>),
                EraseOpError,
            >(old(self).apply_error(*op)) && *final(self) == *old(self),
            old(self).apply_ok(*op) ==> (r matches Ok(pair) && pair.0 == Some(
                CollectedFee { token: op.tx.fee_token, amount: op.tx.fee },
            ) && pair.1@ == seq![ZkSyncState::erase_update_record(*op)] && erase_transition(
                old(self).tree,
                final(self).tree,
                op.tx.account_id,
                op.tx.fee_token,
                op.tx.fee,
                op.tx.nonce,
            )),
    {
        let (old_balance, already_obsolete) = match self.tree.get_account(op.tx.account_id) {
            Some(account) => (account.get_balance(op.tx.fee_token), account.has_obsolete(
                op.tx.nonce,
            )),
            None => {
                return Err(EraseOpError::NonceObsolete);
            },
        };
        if already_obsolete {
            return Err(EraseOpError::NonceObsolete);
        }
        if old_balance < op.tx.fee {
            return Err(EraseOpError::InsufficientBalance);
        }
        let update = self.update_account(
            op.tx.account_id,
            op.tx.fee_token,
            BalanceUpdate::Sub(op.tx.fee),
            Some(Obsolete::new(op.tx.nonce)),
        );
        let mut updates: Vec<AccountUpdate> = Vec::new();
        updates.push(update);
        let fee = CollectedFee { token: op.tx.fee_token, amount: op.tx.fee };
        proof {
            assert(updates@ =~= seq![ZkSyncState::erase_update_record(*op)]);
        }
        Ok((Some(fee), updates))
    }

    /// Apply a validated operation.
    pub fn apply_op(&mut self, op: &EraseOp) -> (r: Result<
        (Option<CollectedFee>, Vec<AccountUpdate>),
        EraseOpError,
    >)
        requires
            old(self).wf(),
        ensures
            final(self).wf(),
            !old(self).apply_ok(*op) ==> r == Err::<
                (Option<CollectedFee>, Vec<AccountUpdate>),
                EraseOpError,
            >(old(self).apply_error(*op)) && *final(self) == *old(self),
            old(self).apply_ok(*op) ==> (r matches Ok(pair) && pair.0 == Some(
                CollectedFee { token: op.tx.fee_token, amount: op.tx.fee },
            ) && pair.1@ == seq![ZkSyncState::erase_update_record(*op)] && erase_transition(
                old(self).tree,
                final(self).tree,
                op.tx.account_id,
                op.tx.fee_token,
                op.tx.fee,
                op.tx.nonce,
            )),
    {
        self.apply_erase_op(op)
    }

    /// Validate and apply in one step.
    pub fn apply_tx(&mut self, tx: Erase) -> (r: Result<OpSuccess, EraseOpError>)
        requires
            old(self).wf(),
        ensures
            final(self).wf(),
            !old(self).create_op_ok(tx) ==> (r matches Err(e) && e == old(self).create_op_error(
                tx,
            )) && *final(self) == *old(self),
            old(self).create_op_ok(tx) && !old(self).apply_ok(EraseOp { tx }) ==> (r matches Err(e)
                && e == old(self).apply_error(EraseOp { tx })) && *final(self) == *old(self),
            old(self).create_op_ok(tx) && old(self).apply_ok(EraseOp { tx }) ==> (r matches Ok(s)
                && s.fee == Some(CollectedFee { token: tx.fee_token, amount: tx.fee })
                && s.updates@ == seq![ZkSyncState::erase_update_record(EraseOp { tx })] && (
            s.executed_op matches ZkSyncOp::Erase(b) && *b == (EraseOp { tx })) && erase_transition(
                old(self).tree,
                final(self).tree,
                tx.account_id,
                tx.fee_token,
                tx.fee,
                tx.nonce,
            )),
    {
        let op = match self.create_op(tx) {
            Ok(op) => op,
            Err(e) => {
                return Err(e);
            },
        };
        let (fee, updates) = match self.apply_op(&op) {
            Ok(pair) => pair,
            Err(e) => {
                return Err(e);
            },
        };
        Ok(OpSuccess { fee, updates, executed_op: ZkSyncOp::Erase(Box::new(op)) })
    }
}

/// Law: balance floor. An operation whose fee exceeds the account's
/// fee-token balance is never admitted by the mutation step: it is rejected
/// with `InsufficientBalance` — and `apply_op` ensures that every rejection
/// leaves the state exactly as it was. Stated for an existing account and a
/// nonce not yet obsolete; on an already-obsolete nonce the rejection is
/// `NonceObsolete` instead, whatever the fee.
pub proof fn lemma_balance_floor(s: ZkSyncState, op: EraseOp)
    requires
        s.tree.has_account(op.tx.account_id),
        !s.tree.is_obsolete(op.tx.account_id, op.tx.nonce),
        s.tree.balance_of(op.tx.account_id, op.tx.fee_token) < op.tx.fee,
    ensures
        !s.apply_ok(op),
        s.apply_error(op) == EraseOpError::InsufficientBalance,
{
}

/// Law: idempotent rejection. Once an erase of `(account, nonce)` has gone
/// through — whatever state the tree was in before — any later operation
/// naming the same account and nonce is rejected by the mutation step with
/// `NonceObsolete`, whatever its fee or fee token.
pub proof fn lemma_idempotent_rejection(
    pre: ZkSyncState,
    post: ZkSyncState,
    op: EraseOp,
    op2: EraseOp,
)
    requires
        erase_transition(
            pre.tree,
            post.tree,
            op.tx.account_id,
            op.tx.fee_token,
            op.tx.fee,
            op.tx.nonce,
        ),
        op2.tx.account_id == op.tx.account_id,
        op2.tx.nonce == op.tx.nonce,
    ensures
        !post.apply_ok(op2),
        post.apply_error(op2) == EraseOpError::NonceObsolete,
{
    assert(post.tree.is_obsolete(op.tx.account_id, op.tx.nonce));
}

} // verus!

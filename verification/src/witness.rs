//! Witness builder for the erase operation: replays the handler's mutation
//! on the account tree while capturing before/after leaf values and audit
//! routes, and produces the two circuit rows the proving system consumes.
//!
//! Field elements the circuit receives are modelled by the plain integers
//! they encode (every value here is far below the field modulus, so the
//! embedding is injective); the post-mutation root is modelled by the
//! post-mutation tree contents, of which the Merkle collaborator's root is
//! a function.

use vstd::prelude::*;
use crate::helpers::{fee_packable, fee_packed_bytes, fee_packed_u16, fee_packed_value};
use crate::operations::{pubdata_spec, EraseOp, CHUNKS, OP_CODE};
use crate::params::{
    ACCOUNT_ID_BIT_WIDTH, ACCOUNT_TREE_DEPTH, BALANCE_TREE_DEPTH, CHUNK_BIT_WIDTH,
    FEE_EXPONENT_BIT_WIDTH, FEE_MANTISSA_BIT_WIDTH, MAX_PROCESSABLE_TOKEN, NONCE_BIT_WIDTH,
    SIGNAL_TREE_DEPTH, TOKEN_BIT_WIDTH, TX_TYPE_BIT_WIDTH,
};
use crate::primitives::{
    be_bits, be_bytes_n, bytes_to_bits, le_bits_to_u128, le_bits_value, lemma_bytes_bits_agree,
    lemma_bytes_to_bits_concat, u32_to_be_bits,
};
use crate::tree::{
    erase_transition, route_bit, trees_equiv, AccountTree, AccountWitness, BalanceUpdate,
};
use crate::tx::{Address, Erase, TxSignature};

verus! {

/// The plain values of one erase, as the witness builder consumes them.
#[derive(Clone, Copy, PartialEq, Eq, Structural, Debug)]
pub struct EraseData {
    pub account_id: u32,
    pub address: Address,
    pub obsolete: u32,
    pub fee: u128,
    pub fee_token: u32,
}

/// Numeric inputs consumed by circuit gates: the pre-mutation balance, the
/// exact fee, the fee in its lossy packed encoding, and the account address.
#[derive(Clone, Copy, PartialEq, Eq, Structural, Debug)]
pub struct OperationArguments {
    pub a: u128,
    pub b: u128,
    pub fee: u16,
    pub eth_address: Address,
}

/// The leaf values and audit routes of one account/token/nonce slot.
#[derive(PartialEq, Eq, Debug)]
pub struct OperationBranchWitness {
    pub account_witness: AccountWitness,
    pub account_path: Vec<bool>,
    pub balance_value: u128,
    pub balance_subtree_path: Vec<bool>,
    pub signal_value: bool,
    pub signal_subtree_path: Vec<bool>,
}

/// The circuit's view of one account/token/nonce slot.
#[derive(PartialEq, Eq, Debug)]
pub struct OperationBranch {
    pub address: u32,
    pub token: u32,
    pub obsolete: u32,
    pub witness: OperationBranchWitness,
}

/// What one branch must hold: the slot coordinates, the leaf metadata, the
/// balance and signal values, and the three audit routes of the slot.
pub open spec fn branch_spec(
    b: OperationBranch,
    id: u32,
    token: u32,
    nonce: u32,
    aw: AccountWitness,
    balance: u128,
    signal: bool,
) -> bool {
    &&& b.address == id
    &&& b.token == token
    &&& b.obsolete == nonce
    &&& b.witness.account_witness == aw
    &&& b.witness.balance_value == balance
    &&& b.witness.signal_value == signal
    &&& b.witness.account_path@.len() == ACCOUNT_TREE_DEPTH
    &&& (forall|k: int|
        0 <= k < ACCOUNT_TREE_DEPTH ==> b.witness.account_path@[k] == route_bit(id, k))
    &&& b.witness.balance_subtree_path@.len() == BALANCE_TREE_DEPTH
    &&& (forall|k: int|
        0 <= k < BALANCE_TREE_DEPTH ==> b.witness.balance_subtree_path@[k] == route_bit(token, k))
    &&& b.witness.signal_subtree_path@.len() == SIGNAL_TREE_DEPTH
    &&& (forall|k: int|
        0 <= k < SIGNAL_TREE_DEPTH ==> b.witness.signal_subtree_path@[k] == route_bit(nonce, k))
}

/// The signature-collaborator data carried verbatim into every circuit row:
/// the four signing-message field elements, the signature, and the packed
/// public key bits.
#[derive(PartialEq, Eq, Debug)]
pub struct SigDataInput {
    pub first_sig_msg: u128,
    pub second_sig_msg: u128,
    pub third_sig_msg: u128,
    pub forth_sig_msg: u128,
    pub signature: TxSignature,
    pub signer_pub_key_packed: Vec<bool>,
}

/// One circuit row ("chunk") of the operation.
pub struct Operation {
    pub new_root: Ghost<AccountTree>,
    pub tx_type: u8,
    pub chunk: u8,
    pub pubdata_chunk: u128,
    pub first_sig_msg: u128,
    pub second_sig_msg: u128,
    pub third_sig_msg: u128,
    pub forth_sig_msg: u128,
    pub signature_data: TxSignature,
    pub signer_pub_key_packed: Vec<bool>,
    pub args: OperationArguments,
    pub lhs: OperationBranch,
    pub rhs: OperationBranch,
}

/// The full erase witness: the circuit arguments and the branch as it stood
/// before and after the mutation, plus the post-mutation tree whose root the
/// proving pipeline commits to.
pub struct EraseWitness {
    pub after_root: Ghost<AccountTree>,
    pub tx_type: u8,
    pub args: OperationArguments,
    pub account_before: OperationBranch,
    pub account_after: OperationBranch,
}

/// The public-data block of the witness, bit by bit, big-endian within each
/// field: operation type, account id, obsoleted nonce, fee token, packed
/// fee, then zero bits up to `CHUNKS * CHUNK_BIT_WIDTH`.
pub open spec fn pubdata_bits_spec(w: EraseWitness) -> Seq<bool> {
    be_bits(w.tx_type as nat, TX_TYPE_BIT_WIDTH as nat) + be_bits(
        w.account_before.address as nat,
        ACCOUNT_ID_BIT_WIDTH as nat,
    ) + be_bits(w.account_before.obsolete as nat, NONCE_BIT_WIDTH as nat) + be_bits(
        w.account_before.token as nat,
        TOKEN_BIT_WIDTH as nat,
    ) + be_bits(
        w.args.fee as nat,
        (FEE_EXPONENT_BIT_WIDTH + FEE_MANTISSA_BIT_WIDTH) as nat,
    ) + Seq::new(24, |i: int| false)
}

impl EraseWitness {
    /// Build the witness from a validated operation: the transaction's
    /// plain values drive the same mutation the handler performs.
    pub fn apply_tx(tree: &mut AccountTree, op: &EraseOp) -> (r: EraseWitness)
        requires
            old(tree).wf(),
            old(tree).has_account(op.tx.account_id),
            op.tx.fee <= old(tree).balance_of(op.tx.account_id, op.tx.fee_token),
            fee_packable(op.tx.fee as nat),
            op.tx.fee_token <= MAX_PROCESSABLE_TOKEN,
        ensures
            final(tree).wf(),
            erase_transition(
                *old(tree),
                *final(tree),
                op.tx.account_id,
                op.tx.fee_token,
                op.tx.fee,
                op.tx.nonce,
            ),
            r.after_root@ == *final(tree),
            r.tx_type == OP_CODE,
            r.args == (OperationArguments {
                a: old(tree).balance_of(op.tx.account_id, op.tx.fee_token),
                b: op.tx.fee,
                fee: fee_packed_u16(op.tx.fee as nat) as u16,
                eth_address: op.tx.account,
            }),
            branch_spec(
                r.account_before,
                op.tx.account_id,
                op.tx.fee_token,
                op.tx.nonce,
                AccountWitness {
                    pub_key_hash: old(tree).spec_account(op.tx.account_id).pub_key_hash,
                    address: old(tree).spec_account(op.tx.account_id).address,
                },
                old(tree).balance_of(op.tx.account_id, op.tx.fee_token),
                old(tree).is_obsolete(op.tx.account_id, op.tx.nonce),
            ),
            branch_spec(
                r.account_after,
                op.tx.account_id,
                op.tx.fee_token,
                op.tx.nonce,
                AccountWitness {
                    pub_key_hash: old(tree).spec_account(op.tx.account_id).pub_key_hash,
                    address: old(tree).spec_account(op.tx.account_id).address,
                },
                final(tree).balance_of(op.tx.account_id, op.tx.fee_token),
                true,
            ),
    {
        let erase_data = EraseData {
            account_id: op.tx.account_id,
            address: op.tx.account,
            obsolete: op.tx.nonce,
            fee: op.tx.fee,
            fee_token: op.tx.fee_token,
        };
        EraseWitness::apply_data(tree, &erase_data)
    }

    /// Replay the handler's three-leaf mutation — metadata untouched,
    /// balance less the fee, obsolete signal raised — through the tree's
    /// atomic primitive, capturing the audit routes beforehand and the leaf
    /// values on both sides of the transition.
    pub fn apply_data(tree: &mut AccountTree, erase: &EraseData) -> (r: EraseWitness)
        requires
            old(tree).wf(),
            old(tree).has_account(erase.account_id),
            erase.fee <= old(tree).balance_of(erase.account_id, erase.fee_token),
            fee_packable(erase.fee as nat),
            erase.fee_token <= MAX_PROCESSABLE_TOKEN,
        ensures
            final(tree).wf(),
            erase_transition(
                *old(tree),
                *final(tree),
                erase.account_id,
                erase.fee_token,
                erase.fee,
                erase.obsolete,
            ),
            r.after_root@ == *final(tree),
            r.tx_type == OP_CODE,
            r.args == (OperationArguments {
                a: old(tree).balance_of(erase.account_id, erase.fee_token),
                b: erase.fee,
                fee: fee_packed_u16(erase.fee as nat) as u16,
                eth_address: erase.address,
            }),
            branch_spec(
                r.account_before,
                erase.account_id,
                erase.fee_token,
                erase.obsolete,
                AccountWitness {
                    pub_key_hash: old(tree).spec_account(erase.account_id).pub_key_hash,
                    address: old(tree).spec_account(erase.account_id).address,
                },
                old(tree).balance_of(erase.account_id, erase.fee_token),
                old(tree).is_obsolete(erase.account_id, erase.obsolete),
            ),
            branch_spec(
                r.account_after,
                erase.account_id,
                erase.fee_token,
                erase.obsolete,
                AccountWitness {
                    pub_key_hash: old(tree).spec_account(erase.account_id).pub_key_hash,
                    address: old(tree).spec_account(erase.account_id).address,
                },
                final(tree).balance_of(erase.account_id, erase.fee_token),
                true,
            ),
    {
        let fee_encoded = fee_packed_value(erase.fee);
        let (audit_account_path, audit_balance_path, audit_signal_path) = tree.get_audits(
            erase.account_id,
            erase.fee_token,
            erase.obsolete,
        );
        let audit_account_path_2 = copy_bools(&audit_account_path);
        let audit_balance_path_2 = copy_bools(&audit_balance_path);
        let audit_signal_path_2 = copy_bools(&audit_signal_path);
        let leaf = tree.apply_leaf_operation(
            erase.account_id,
            erase.fee_token,
            erase.obsolete,
            BalanceUpdate::Sub(erase.fee),
            true,
        );
        EraseWitness {
            after_root: Ghost(*tree),
            tx_type: OP_CODE,
            args: OperationArguments {
                a: leaf.balance_before,
                b: erase.fee,
                fee: fee_encoded,
                eth_address: erase.address,
            },
            account_before: OperationBranch {
                address: erase.account_id,
                token: erase.fee_token,
                obsolete: erase.obsolete,
                witness: OperationBranchWitness {
                    account_witness: leaf.witness_before,
                    account_path: audit_account_path,
                    balance_value: leaf.balance_before,
                    balance_subtree_path: audit_balance_path,
                    signal_value: leaf.signal_before,
                    signal_subtree_path: audit_signal_path,
                },
            },
            account_after: OperationBranch {
                address: erase.account_id,
                token: erase.fee_token,
                obsolete: erase.obsolete,
                witness: OperationBranchWitness {
                    account_witness: leaf.witness_after,
                    account_path: audit_account_path_2,
                    balance_value: leaf.balance_after,
                    balance_subtree_path: audit_balance_path_2,
                    signal_value: leaf.signal_after,
                    signal_subtree_path: audit_signal_path_2,
                },
            },
        }
    }

    /// The public-data bit vector. Always exactly `CHUNKS * CHUNK_BIT_WIDTH`
    /// bits, zero-padded on the right.
    pub fn get_pubdata(&self) -> (r: Vec<bool>)
        ensures
            r@ == pubdata_bits_spec(*self),
            r@.len() == CHUNKS * CHUNK_BIT_WIDTH,
    {
        let mut pubdata_bits = u32_to_be_bits(self.tx_type as u32, TX_TYPE_BIT_WIDTH);
        let mut part = u32_to_be_bits(self.account_before.address, ACCOUNT_ID_BIT_WIDTH);
        pubdata_bits.append(&mut part);
        let mut part = u32_to_be_bits(self.account_before.obsolete, NONCE_BIT_WIDTH);
        pubdata_bits.append(&mut part);
        let mut part = u32_to_be_bits(self.account_before.token, TOKEN_BIT_WIDTH);
        pubdata_bits.append(&mut part);
        let mut part = u32_to_be_bits(
            self.args.fee as u32,
            FEE_EXPONENT_BIT_WIDTH + FEE_MANTISSA_BIT_WIDTH,
        );
        pubdata_bits.append(&mut part);
        proof {
            crate::primitives::lemma_be_bits_len(self.tx_type as nat, TX_TYPE_BIT_WIDTH as nat);
            crate::primitives::lemma_be_bits_len(
                self.account_before.address as nat,
                ACCOUNT_ID_BIT_WIDTH as nat,
            );
            crate::primitives::lemma_be_bits_len(
                self.account_before.obsolete as nat,
                NONCE_BIT_WIDTH as nat,
            );
            crate::primitives::lemma_be_bits_len(
                self.account_before.token as nat,
                TOKEN_BIT_WIDTH as nat,
            );
            crate::primitives::lemma_be_bits_len(
                self.args.fee as nat,
                (FEE_EXPONENT_BIT_WIDTH + FEE_MANTISSA_BIT_WIDTH) as nat,
            );
            assert(pubdata_bits_spec(*self).len() == 144);
            assert(pubdata_bits@ =~= pubdata_bits_spec(*self).subrange(0, 120));
        }
        let mut k: usize = 0;
        while k < 24
            invariant
                k <= 24,
                pubdata_bits@ == pubdata_bits_spec(*self).subrange(0, 120 + k as int),
                pubdata_bits_spec(*self).len() == 144,
                pubdata_bits@.len() == 120 + k,
            decreases 24 - k,
        {
            pubdata_bits.push(false);
            proof {
                assert(pubdata_bits@ =~= pubdata_bits_spec(*self).subrange(0, 120 + k + 1));
            }
            k = k + 1;
        }
        proof {
            assert(pubdata_bits@ =~= pubdata_bits_spec(*self));
        }
        pubdata_bits
    }

    /// The reserved offset commitment: `CHUNKS * 8` zero bits. This
    /// operation carries no off-chain-data commitment.
    pub fn get_offset_commitment_data(&self) -> (r: Vec<bool>)
        ensures
            r@.len() == CHUNKS * 8,
            forall|k: int| 0 <= k < r@.len() ==> r@[k] == false,
    {
        let mut out: Vec<bool> = Vec::new();
        let mut k: usize = 0;
        while k < CHUNKS * 8
            invariant
                k <= CHUNKS * 8,
                out@.len() == k,
                forall|j: int| 0 <= j < k ==> out@[j] == false,
            decreases CHUNKS * 8 - k,
        {
            out.push(false);
            k = k + 1;
        }
        out
    }

    /// The two circuit rows of the operation. Both carry the same arguments,
    /// signature data and post-mutation root; row 0 attaches the pre-state
    /// branch as both operands, row 1 the post-state branch, so the circuit
    /// can constrain the delta between the chunks against the claimed fee.
    /// Each row embeds its own `CHUNK_BIT_WIDTH`-bit group of the public
    /// data as a little-endian field element.
    pub fn calculate_operations(&self, input: &SigDataInput) -> (r: Vec<Operation>)
        ensures
            r@.len() == CHUNKS,
            forall|c: int|
                0 <= c < CHUNKS ==> {
                    let row = #[trigger] r@[c];
                    &&& row.new_root == self.after_root
                    &&& row.tx_type == self.tx_type
                    &&& row.chunk == c
                    &&& row.pubdata_chunk == le_bits_value(
                        pubdata_bits_spec(*self).subrange(
                            c * CHUNK_BIT_WIDTH,
                            (c + 1) * CHUNK_BIT_WIDTH,
                        ),
                    )
                    &&& row.first_sig_msg == input.first_sig_msg
                    &&& row.second_sig_msg == input.second_sig_msg
                    &&& row.third_sig_msg == input.third_sig_msg
                    &&& row.forth_sig_msg == input.forth_sig_msg
                    &&& row.signature_data == input.signature
                    &&& row.signer_pub_key_packed@ == input.signer_pub_key_packed@
                    &&& row.args == self.args
                },
            branches_equal(r@[0].lhs, self.account_before),
            branches_equal(r@[0].rhs, self.account_before),
            branches_equal(r@[1].lhs, self.account_after),
            branches_equal(r@[1].rhs, self.account_after),
    {
        let pubdata = self.get_pubdata();
        let chunk0 = le_bits_to_u128(&pubdata, 0, CHUNK_BIT_WIDTH);
        let chunk1 = le_bits_to_u128(&pubdata, CHUNK_BIT_WIDTH, CHUNK_BIT_WIDTH);
        let row0 = Operation {
            new_root: self.after_root,
            tx_type: self.tx_type,
            chunk: 0,
            pubdata_chunk: chunk0,
            first_sig_msg: input.first_sig_msg,
            second_sig_msg: input.second_sig_msg,
            third_sig_msg: input.third_sig_msg,
            forth_sig_msg: input.forth_sig_msg,
            signature_data: input.signature,
            signer_pub_key_packed: copy_bools(&input.signer_pub_key_packed),
            args: self.args,
            lhs: copy_branch(&self.account_before),
            rhs: copy_branch(&self.account_before),
        };
        let row1 = Operation {
            new_root: self.after_root,
            tx_type: self.tx_type,
            chunk: 1,
            pubdata_chunk: chunk1,
            first_sig_msg: input.first_sig_msg,
            second_sig_msg: input.second_sig_msg,
            third_sig_msg: input.third_sig_msg,
            forth_sig_msg: input.forth_sig_msg,
            signature_data: input.signature,
            signer_pub_key_packed: copy_bools(&input.signer_pub_key_packed),
            args: self.args,
            lhs: copy_branch(&self.account_after),
            rhs: copy_branch(&self.account_after),
        };
        let mut out: Vec<Operation> = Vec::new();
        out.push(row0);
        out.push(row1);
        out
    }
}

/// Field-for-field equality of two branches, the audit routes compared by
/// contents.
pub open spec fn branches_equal(a: OperationBranch, b: OperationBranch) -> bool {
    &&& a.address == b.address
    &&& a.token == b.token
    &&& a.obsolete == b.obsolete
    &&& a.witness.account_witness == b.witness.account_witness
    &&& a.witness.balance_value == b.witness.balance_value
    &&& a.witness.signal_value == b.witness.signal_value
    &&& a.witness.account_path@ == b.witness.account_path@
    &&& a.witness.balance_subtree_path@ == b.witness.balance_subtree_path@
    &&& a.witness.signal_subtree_path@ == b.witness.signal_subtree_path@
}

/// A bit-for-bit copy of a bit vector.
fn copy_bools(v: &Vec<bool>) -> (r: Vec<bool>)
    ensures
        r@ == v@,
{
    let mut out: Vec<bool> = Vec::new();
    let mut i: usize = 0;
    while i < v.len()
        invariant
            i <= v@.len(),
            out@ == v@.subrange(0, i as int),
        decreases v@.len() - i,
    {
        out.push(v[i]);
        proof {
            assert(out@ =~= v@.subrange(0, i + 1));
        }
        i = i + 1;
    }
    proof {
        assert(out@ =~= v@);
    }
    out
}

/// A field-for-field copy of a branch.
fn copy_branch(b: &OperationBranch) -> (r: OperationBranch)
    ensures
        branches_equal(r, *b),
{
    OperationBranch {
        address: b.address,
        token: b.token,
        obsolete: b.obsolete,
        witness: OperationBranchWitness {
            account_witness: b.witness.account_witness,
            account_path: copy_bools(&b.witness.account_path),
            balance_value: b.witness.balance_value,
            balance_subtree_path: copy_bools(&b.witness.balance_subtree_path),
            signal_value: b.witness.signal_value,
            signal_subtree_path: copy_bools(&b.witness.signal_subtree_path),
        },
    }
}

/// Law: the codec's byte block is the ground truth the witness reproduces
/// bit for bit. A witness whose fields carry an operation's values — as
/// `apply_data` ensures they do — emits as its public-data bit vector
/// exactly the bit expansion of the byte block the codec encodes for the
/// same transaction.
pub proof fn lemma_witness_pubdata_matches_codec(w: EraseWitness, tx: Erase)
    requires
        fee_packable(tx.fee as nat),
        w.tx_type == OP_CODE,
        w.account_before.address == tx.account_id,
        w.account_before.obsolete == tx.nonce,
        w.account_before.token == tx.fee_token,
        w.args.fee == fee_packed_u16(tx.fee as nat),
    ensures
        pubdata_bits_spec(w) == bytes_to_bits(pubdata_spec(tx)),
{
    let p = fee_packed_u16(tx.fee as nat);
    crate::helpers::lemma_fee_mantissa_bound(tx.fee as nat);
    assert(p < 65536);
    let b_op = seq![OP_CODE];
    let b_acct = be_bytes_n(tx.account_id as nat, 4);
    let b_nonce = be_bytes_n(tx.nonce as nat, 4);
    let b_tok = be_bytes_n(tx.fee_token as nat, 4);
    let b_fee = fee_packed_bytes(tx.fee as nat);
    let b_pad = seq![0u8, 0u8, 0u8];
    lemma_bytes_to_bits_concat(b_op, b_acct);
    lemma_bytes_to_bits_concat(b_op + b_acct, b_nonce);
    lemma_bytes_to_bits_concat(b_op + b_acct + b_nonce, b_tok);
    lemma_bytes_to_bits_concat(b_op + b_acct + b_nonce + b_tok, b_fee);
    lemma_bytes_to_bits_concat(b_op + b_acct + b_nonce + b_tok + b_fee, b_pad);
    // the single opcode byte
    crate::primitives::lemma_be_bits_len(OP_CODE as nat, 8);
    assert(b_op[0] == OP_CODE);
    assert(b_op.skip(1) =~= Seq::<u8>::empty());
    assert(bytes_to_bits(b_op) == be_bits(OP_CODE as nat, 8) + bytes_to_bits(Seq::<u8>::empty()));
    assert(bytes_to_bits(Seq::<u8>::empty()) =~= Seq::<bool>::empty());
    assert(bytes_to_bits(b_op) =~= be_bits(OP_CODE as nat, 8));
    // the three 32-bit fields
    lemma_bytes_bits_agree(tx.account_id as nat, 4);
    lemma_bytes_bits_agree(tx.nonce as nat, 4);
    lemma_bytes_bits_agree(tx.fee_token as nat, 4);
    // the packed fee: its two bytes are its two-byte encoding
    assert(p / 256 < 256);
    assert(b_fee =~= be_bytes_n(p as nat, 2)) by {
        crate::primitives::lemma_be_bytes_len(p as nat, 2);
        assert(be_bytes_n(p as nat, 2) == be_bytes_n(p as nat / 256, 1).push((p % 256) as u8));
        assert(be_bytes_n(p as nat / 256, 1) == be_bytes_n(p as nat / 65536, 0).push(
            ((p / 256) % 256) as u8,
        ));
        assert((p / 256) % 256 == p / 256);
    }
    lemma_bytes_bits_agree(p as nat, 2);
    // the padding: three zero bytes are 24 zero bits
    assert(b_pad =~= be_bytes_n(0, 3)) by {
        crate::primitives::lemma_be_bytes_len(0, 3);
        assert(be_bytes_n(0, 3) == be_bytes_n(0, 2).push(0u8));
        assert(be_bytes_n(0, 2) == be_bytes_n(0, 1).push(0u8));
        assert(be_bytes_n(0, 1) == be_bytes_n(0, 0).push(0u8));
    }
    lemma_bytes_bits_agree(0, 3);
    crate::primitives::lemma_be_bits_zero(24);
    assert(be_bits(0, 24) =~= Seq::new(24, |i: int| false));
    assert(pubdata_bits_spec(w) =~= bytes_to_bits(pubdata_spec(tx)));
}

/// Law: consistency. The state handler and the witness builder make the
/// same transition: applied to trees of equal contents with the same
/// operation data, both end in trees of equal contents — and the Merkle
/// root is a function of those contents, so both end at the same
/// post-mutation root hash.
pub proof fn lemma_handler_witness_consistency(
    pre_handler: AccountTree,
    post_handler: AccountTree,
    pre_witness: AccountTree,
    post_witness: AccountTree,
    id: u32,
    token: u32,
    fee: u128,
    nonce: u32,
)
    requires
        trees_equiv(pre_handler, pre_witness),
        erase_transition(pre_handler, post_handler, id, token, fee, nonce),
        erase_transition(pre_witness, post_witness, id, token, fee, nonce),
    ensures
        trees_equiv(post_handler, post_witness),
{
    assert forall|i: u32| post_handler.has_account(i) == post_witness.has_account(i) by {
        assert(pre_handler.has_account(i) == pre_witness.has_account(i));
    }
    assert forall|i: u32|
        post_handler.has_account(i) implies (#[trigger] post_handler.spec_account(
        i,
    )).pub_key_hash == post_witness.spec_account(i).pub_key_hash
        && post_handler.spec_account(i).address == post_witness.spec_account(i).address by {
        assert(pre_handler.has_account(i));
        assert(pre_handler.spec_account(i).pub_key_hash == pre_witness.spec_account(
            i,
        ).pub_key_hash);
    }
    assert forall|i: u32, t: u32| #[trigger]
        post_handler.balance_of(i, t) == post_witness.balance_of(i, t) by {
        assert(pre_handler.balance_of(i, t) == pre_witness.balance_of(i, t));
        if !(i == id && t == token) {
            assert(post_handler.balance_of(i, t) == pre_handler.balance_of(i, t));
            assert(post_witness.balance_of(i, t) == pre_witness.balance_of(i, t));
        }
    }
    assert forall|i: u32, n: u32| #[trigger]
        post_handler.is_obsolete(i, n) == post_witness.is_obsolete(i, n) by {
        assert(pre_handler.is_obsolete(i, n) == pre_witness.is_obsolete(i, n));
        if !(i == id && n == nonce) {
            assert(post_handler.is_obsolete(i, n) == pre_handler.is_obsolete(i, n));
            assert(post_witness.is_obsolete(i, n) == pre_witness.is_obsolete(i, n));
        }
    }
}

} // verus!


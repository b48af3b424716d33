//! Public-data codec for the erase operation: a fixed-width big-endian byte
//! block published for on-chain data availability.
//!
//! Layout, offsets cumulative: opcode (1 byte), account id (4), obsoleted
//! nonce (4), fee token (4), packed fee (2), then zero padding up to
//! `CHUNKS * CHUNK_BYTES` bytes.

use vstd::prelude::*;
use crate::helpers::{
    fee_packable, fee_packed_bytes, fee_unpacked_from_bytes, lemma_fee_bytes_roundtrip,
    pack_fee_amount, repacked_fee, unpack_fee_amount,
};
use crate::params::{CHUNK_BYTES};
use crate::primitives::{
    be_bytes_n, be_value, lemma_be_bytes_len, lemma_be_roundtrip, lemma_be_value_bound, pow256,
    u32_from_be_slice, u32_to_be_bytes,
};
use crate::tx::{Address, Erase, TxSignature, VerifiedSignatureCache};

verus! {

/// Number of public-data chunks one erase operation occupies.
pub const CHUNKS: usize = 2;

/// Opcode byte at the head of the public data.
pub const OP_CODE: u8 = 0x0c;

/// Total public-data length of one erase operation, in bytes.
pub const PUBDATA_BYTES: usize = 18;

/// Decode failures: corrupted or adversarial on-chain data, never a
/// business-logic rejection.
#[derive(Clone, Copy, PartialEq, Eq, Structural, Debug)]
pub enum EraseOpError {
    PubdataSizeMismatch,
    CannotGetAccountId,
    CannotGetObsolete,
    CannotGetTokenId,
    CannotGetFee,
}

/// A validated erase operation, ready to be applied and published.
#[derive(Clone, Copy, PartialEq, Eq, Debug)]
pub struct EraseOp {
    pub tx: Erase,
}

/// The public-data block of an operation: opcode, account id, nonce, fee
/// token, packed fee, zero padding.
pub open spec fn pubdata_spec(tx: Erase) -> Seq<u8> {
    seq![OP_CODE] + be_bytes_n(tx.account_id as nat, 4) + be_bytes_n(tx.nonce as nat, 4)
        + be_bytes_n(tx.fee_token as nat, 4) + fee_packed_bytes(tx.fee as nat) + seq![
        0u8,
        0u8,
        0u8,
    ]
}

impl EraseOp {
    /// Encode the operation. The block is always exactly
    /// `CHUNKS * CHUNK_BYTES` bytes long.
    pub fn get_public_data(&self) -> (r: Vec<u8>)
        requires
            fee_packable(self.tx.fee as nat),
        ensures
            r@ == pubdata_spec(self.tx),
            r@.len() == CHUNKS * CHUNK_BYTES,
    {
        let mut out: Vec<u8> = Vec::new();
        out.push(OP_CODE);
        let mut part = u32_to_be_bytes(self.tx.account_id);
        out.append(&mut part);
        let mut part = u32_to_be_bytes(self.tx.nonce);
        out.append(&mut part);
        let mut part = u32_to_be_bytes(self.tx.fee_token);
        out.append(&mut part);
        let mut part = pack_fee_amount(self.tx.fee);
        out.append(&mut part);
        out.push(0u8);
        out.push(0u8);
        out.push(0u8);
        proof {
            lemma_be_bytes_len(self.tx.account_id as nat, 4);
            lemma_be_bytes_len(self.tx.nonce as nat, 4);
            lemma_be_bytes_len(self.tx.fee_token as nat, 4);
            assert(out@ =~= pubdata_spec(self.tx));
        }
        out
    }

    /// Decode a public-data block. Fails with `PubdataSizeMismatch` exactly
    /// when the block is not `CHUNKS * CHUNK_BYTES` bytes long; a block of
    /// the right length always decodes, the recovered transaction carrying
    /// the zero address and no signature.
    pub fn from_public_data(bytes: &[u8]) -> (r: Result<Self, EraseOpError>)
        ensures
            bytes@.len() != PUBDATA_BYTES ==> r == Err::<EraseOp, EraseOpError>(
                EraseOpError::PubdataSizeMismatch,
            ),
            bytes@.len() == PUBDATA_BYTES ==> (r matches Ok(op) && op.tx.account_id == be_value(
                bytes@.subrange(1, 5),
            ) && op.tx.nonce == be_value(bytes@.subrange(5, 9)) && op.tx.fee_token == be_value(
                bytes@.subrange(9, 13),
            ) && op.tx.fee == fee_unpacked_from_bytes(bytes@.subrange(13, 15))
                && op.tx.account == Address::zero_spec() && op.tx.signature == (TxSignature {
                recovered_signer: None,
            }) && op.tx.signer_cache() == VerifiedSignatureCache::NotCached),
    {
        if bytes.len() != PUBDATA_BYTES {
            return Err(EraseOpError::PubdataSizeMismatch);
        }
        proof {
            lemma_be_value_bound(bytes@.subrange(1, 5));
            lemma_be_value_bound(bytes@.subrange(5, 9));
            lemma_be_value_bound(bytes@.subrange(9, 13));
            assert(pow256(4) == 0x1_0000_0000) by { reveal_with_fuel(pow256, 5); }
        }
        let account = match u32_from_be_slice(vstd::slice::slice_subrange(bytes, 1, 5)) {
            Some(v) => v,
            None => {
                return Err(EraseOpError::CannotGetAccountId);
            },
        };
        let obsolete = match u32_from_be_slice(vstd::slice::slice_subrange(bytes, 5, 9)) {
            Some(v) => v,
            None => {
                return Err(EraseOpError::CannotGetObsolete);
            },
        };
        let fee_token = match u32_from_be_slice(vstd::slice::slice_subrange(bytes, 9, 13)) {
            Some(v) => v,
            None => {
                return Err(EraseOpError::CannotGetTokenId);
            },
        };
        let fee = match unpack_fee_amount(vstd::slice::slice_subrange(bytes, 13, 15)) {
            Some(v) => v,
            None => {
                return Err(EraseOpError::CannotGetFee);
            },
        };
        Ok(
            EraseOp {
                tx: Erase::new(account, Address::zero(), obsolete, fee, fee_token, None),
            },
        )
    }

    /// The accounts an erase operation touches: exactly its own.
    pub fn get_updated_account_ids(&self) -> (r: Vec<u32>)
        ensures
            r@ == seq![self.tx.account_id],
    {
        let mut out: Vec<u32> = Vec::new();
        out.push(self.tx.account_id);
        proof {
            assert(out@ =~= seq![self.tx.account_id]);
        }
        out
    }
}

/// Law: round-trip. For any transaction within field bounds, decoding the
/// encoded block reproduces the account id, nonce and fee token exactly,
/// and reproduces the fee up to the lossy packing: the decoded fee is
/// `unpack(pack(fee))`. Together with the ensures of `from_public_data`
/// this pins every field of `decode(encode(op))`.
pub proof fn lemma_pubdata_roundtrip(tx: Erase)
    requires
        fee_packable(tx.fee as nat),
    ensures
        pubdata_spec(tx).len() == PUBDATA_BYTES,
        be_value(pubdata_spec(tx).subrange(1, 5)) == tx.account_id,
        be_value(pubdata_spec(tx).subrange(5, 9)) == tx.nonce,
        be_value(pubdata_spec(tx).subrange(9, 13)) == tx.fee_token,
        fee_unpacked_from_bytes(pubdata_spec(tx).subrange(13, 15)) == repacked_fee(tx.fee as nat),
{
    let b = pubdata_spec(tx);
    lemma_be_bytes_len(tx.account_id as nat, 4);
    lemma_be_bytes_len(tx.nonce as nat, 4);
    lemma_be_bytes_len(tx.fee_token as nat, 4);
    assert(b.subrange(1, 5) =~= be_bytes_n(tx.account_id as nat, 4));
    assert(b.subrange(5, 9) =~= be_bytes_n(tx.nonce as nat, 4));
    assert(b.subrange(9, 13) =~= be_bytes_n(tx.fee_token as nat, 4));
    assert(b.subrange(13, 15) =~= fee_packed_bytes(tx.fee as nat));
    assert(pow256(4) == 0x1_0000_0000) by { reveal_with_fuel(pow256, 5); }
    lemma_be_roundtrip(tx.account_id as nat, 4);
    lemma_be_roundtrip(tx.nonce as nat, 4);
    lemma_be_roundtrip(tx.fee_token as nat, 4);
    lemma_fee_bytes_roundtrip(tx.fee as nat);
}

} // verus!

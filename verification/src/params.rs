//! Fixed system parameters: bit widths of the public-data fields, chunk
//! geometry, tree depths and the bounds derived from them.

use vstd::prelude::*;

verus! {

/// Width in bits of the operation-type byte at the head of the public data.
pub const TX_TYPE_BIT_WIDTH: usize = 8;

/// Width in bits of an account id in the public data.
pub const ACCOUNT_ID_BIT_WIDTH: usize = 32;

/// Width in bits of a nonce value in the public data.
pub const NONCE_BIT_WIDTH: usize = 32;

/// Width in bits of a token id in the public data.
pub const TOKEN_BIT_WIDTH: usize = 32;

/// Width in bits of the exponent half of the packed fee.
pub const FEE_EXPONENT_BIT_WIDTH: usize = 5;

/// Width in bits of the mantissa half of the packed fee.
pub const FEE_MANTISSA_BIT_WIDTH: usize = 11;

/// Bytes per public-data chunk.
pub const CHUNK_BYTES: usize = 9;

/// Bits per public-data chunk.
pub const CHUNK_BIT_WIDTH: usize = 72;

/// Depth of the account tree: account ids route through this many levels.
pub const ACCOUNT_TREE_DEPTH: usize = 24;

/// Depth of the per-account balance sub-tree, keyed by token id.
pub const BALANCE_TREE_DEPTH: usize = 11;

/// Depth of the per-account obsolete-nonce signal sub-tree, keyed by nonce.
pub const SIGNAL_TREE_DEPTH: usize = 32;

/// Version byte embedded in the transaction signing message.
pub const CURRENT_TX_VERSION: u8 = 1;

/// Largest account id the tree can address: one less than 2^ACCOUNT_TREE_DEPTH.
pub const MAX_ACCOUNT_ID: u32 = 0xFF_FFFF;

/// Largest token id an operation may pay its fee in: one less than
/// 2^BALANCE_TREE_DEPTH.
pub const MAX_PROCESSABLE_TOKEN: u32 = 2047;

/// Largest account id the tree can address.
pub fn max_account_id() -> (r: u32)
    ensures
        r == MAX_ACCOUNT_ID,
{
    MAX_ACCOUNT_ID
}

/// Largest token id an operation may pay its fee in.
pub fn max_processable_token() -> (r: u32)
    ensures
        r == MAX_PROCESSABLE_TOKEN,
{
    MAX_PROCESSABLE_TOKEN
}

} // verus!

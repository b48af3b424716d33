//! Order-book records: the off-chain order as the API serves it, the row
//! shape it is stored under, and the proven mapping between the two. The
//! SQL transport and the REST scope that move these records live outside
//! the library.

use vstd::prelude::*;
use crate::primitives::{be_value, lemma_be_value_bound, pow256, u128_from_be_slice};
use crate::tx::{Address, TxSignature};

verus! {

/// The window in which an order may be filled, as unix timestamps.
#[derive(Clone, Copy, PartialEq, Eq, Structural, Debug)]
pub struct TimeRange {
    pub valid_from: u64,
    pub valid_until: u64,
}

/// A signature made with an Ethereum key over the order.
#[derive(PartialEq, Eq, Debug)]
pub struct TxEthSignature {
    pub bytes: Vec<u8>,
}

/// One off-chain order: who trades which tokens at which price, when, and
/// under which rollup signature.
#[derive(PartialEq, Eq, Debug)]
pub struct Order {
    pub account_id: u32,
    pub recipient_address: Address,
    pub nonce: u32,
    pub token_buy: u32,
    pub token_sell: u32,
    pub price: (u128, u128, u128),
    pub amount: u128,
    pub time_range: TimeRange,
    pub signature: TxSignature,
}

/// An order together with the Ethereum signature that accompanied its
/// submission, if any.
#[derive(PartialEq, Eq, Debug)]
pub struct OrderWithSignature {
    pub order: Order,
    pub signature: Option<TxEthSignature>,
}

/// The stored row of one order: integer columns, the address as its 20
/// bytes, timestamps as unix seconds.
#[derive(PartialEq, Eq, Debug)]
pub struct StorageOrder {
    pub id: i64,
    pub account_id: i64,
    pub recipient_address: Vec<u8>,
    pub nonce: i64,
    pub token_buy: i64,
    pub token_sell: i64,
    pub sell_price: u128,
    pub buy_price: u128,
    pub earnest_price: u128,
    pub amount: u128,
    pub valid_from: i64,
    pub valid_thru: i64,
    pub signature: TxSignature,
    pub eth_signature: Option<TxEthSignature>,
}

impl StorageOrder {
    /// What the database schema guarantees of a stored row: the integer
    /// columns were written from 32-bit values, the address has its 20
    /// bytes, the timestamps are non-negative.
    pub open spec fn wf(self) -> bool {
        &&& 0 <= self.account_id <= u32::MAX
        &&& 0 <= self.nonce <= u32::MAX
        &&& 0 <= self.token_buy <= u32::MAX
        &&& 0 <= self.token_sell <= u32::MAX
        &&& self.recipient_address@.len() == 20
        &&& self.valid_from >= 0
        &&& self.valid_thru >= 0
    }
}

/// The order-record schema: how an order and its stored row correspond.
/// The SQL statements that load and store the rows live outside the
/// library and go through these two mappings.
#[derive(Clone, Copy, PartialEq, Eq, Structural, Debug)]
pub struct OrderSchema;

impl OrderSchema {
    /// The row under which an order is stored: every column written from
    /// the matching order field, the address spelled out as bytes.
    pub fn row_from_order(&self, order: &OrderWithSignature, id: i64) -> (r: StorageOrder)
        requires
            order.order.time_range.valid_from <= i64::MAX,
            order.order.time_range.valid_until <= i64::MAX,
        ensures
            r.wf(),
            r.id == id,
            r.account_id == order.order.account_id,
            r.recipient_address@ == order.order.recipient_address.be_bytes(),
            r.nonce == order.order.nonce,
            r.token_buy == order.order.token_buy,
            r.token_sell == order.order.token_sell,
            r.sell_price == order.order.price.0,
            r.buy_price == order.order.price.1,
            r.earnest_price == order.order.price.2,
            r.amount == order.order.amount,
            r.valid_from == order.order.time_range.valid_from,
            r.valid_thru == order.order.time_range.valid_until,
            r.signature == order.order.signature,
            (match order.signature {
                Some(s) => r.eth_signature matches Some(s2) && s2.bytes@ == s.bytes@,
                None => r.eth_signature is None,
            }),
    {
        let recipient_address = order.order.recipient_address.to_be_bytes();
        let eth_signature = match &order.signature {
            Some(s) => Some(TxEthSignature { bytes: copy_bytes(&s.bytes) }),
            None => None,
        };
        proof {
            crate::primitives::lemma_be_bytes_len(order.order.recipient_address.hi as nat, 4);
            crate::primitives::lemma_be_bytes_len(order.order.recipient_address.lo as nat, 16);
        }
        StorageOrder {
            id,
            account_id: order.order.account_id as i64,
            recipient_address,
            nonce: order.order.nonce as i64,
            token_buy: order.order.token_buy as i64,
            token_sell: order.order.token_sell as i64,
            sell_price: order.order.price.0,
            buy_price: order.order.price.1,
            earnest_price: order.order.price.2,
            amount: order.order.amount,
            valid_from: order.order.time_range.valid_from as i64,
            valid_thru: order.order.time_range.valid_until as i64,
            signature: order.order.signature,
            eth_signature,
        }
    }

    /// The order a stored row stands for: every field read back from the
    /// matching column, the address re-assembled from its bytes.
    pub fn order_from_row(&self, row: &StorageOrder) -> (r: OrderWithSignature)
        requires
            row.wf(),
        ensures
            r.order.account_id == row.account_id,
            r.order.recipient_address.hi == be_value(row.recipient_address@.subrange(0, 4)),
            r.order.recipient_address.lo == be_value(row.recipient_address@.subrange(4, 20)),
            r.order.nonce == row.nonce,
            r.order.token_buy == row.token_buy,
            r.order.token_sell == row.token_sell,
            r.order.price == (row.sell_price, row.buy_price, row.earnest_price),
            r.order.amount == row.amount,
            r.order.time_range == (TimeRange {
                valid_from: row.valid_from as u64,
                valid_until: row.valid_thru as u64,
            }),
            r.order.signature == row.signature,
            (match row.eth_signature {
                Some(s) => r.signature matches Some(s2) && s2.bytes@ == s.bytes@,
                None => r.signature is None,
            }),
    {
        let address_slice = row.recipient_address.as_slice();
        let hi_slice = vstd::slice::slice_subrange(address_slice, 0, 4);
        let lo_slice = vstd::slice::slice_subrange(address_slice, 4, 20);
        proof {
            lemma_be_value_bound(hi_slice@);
            assert(pow256(4) == 0x1_0000_0000) by {
                reveal_with_fuel(pow256, 5);
            }
        }
        let hi = u128_from_be_slice(hi_slice) as u32;
        let lo = u128_from_be_slice(lo_slice);
        let signature = match &row.eth_signature {
            Some(s) => Some(TxEthSignature { bytes: copy_bytes(&s.bytes) }),
            None => None,
        };
        OrderWithSignature {
            order: Order {
                account_id: row.account_id as u32,
                recipient_address: Address { hi, lo },
                nonce: row.nonce as u32,
                token_buy: row.token_buy as u32,
                token_sell: row.token_sell as u32,
                price: (row.sell_price, row.buy_price, row.earnest_price),
                amount: row.amount,
                time_range: TimeRange {
                    valid_from: row.valid_from as u64,
                    valid_until: row.valid_thru as u64,
                },
                signature: row.signature,
            },
            signature,
        }
    }
}

/// Shared state handed to the order endpoints: the record schema. The
/// transport that carries requests to the endpoints lives outside the
/// library.
#[derive(Clone, Copy, PartialEq, Eq, Structural, Debug)]
pub struct ApiOrderData {
    pub schema: OrderSchema,
}

impl ApiOrderData {
    pub fn new(schema: OrderSchema) -> (r: Self)
        ensures
            r == (ApiOrderData { schema }),
    {
        ApiOrderData { schema }
    }
}

/// A byte-for-byte copy of a byte vector.
fn copy_bytes(v: &Vec<u8>) -> (r: Vec<u8>)
    ensures
        r@ == v@,
{
    let mut out: Vec<u8> = Vec::new();
    let mut i: usize = 0;
    while i < v.len()
        invariant
            i <= v@.len(),
            out@ == v@.subrange(0, i as int),
        decreases v@.len() - i,
    {
        out.push(v[i]);
        proof {
            assert(out@ =~= v@.subrange(0, i + 1));
        }
        i = i + 1;
    }
    proof {
        assert(out@ =~= v@);
    }
    out
}

} // verus!

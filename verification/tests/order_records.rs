use rollup_core::order::{
    ApiOrderData, Order, OrderSchema, OrderWithSignature, StorageOrder, TimeRange, TxEthSignature,
};
use rollup_core::tx::{Address, PubKeyHash, TxSignature};

fn sample_order() -> OrderWithSignature {
    OrderWithSignature {
        order: Order {
            account_id: 4,
            recipient_address: Address {
                hi: 0x0102_0304,
                lo: 0x0506_0708_090a_0b0c_0d0e_0f10_1112_1314,
            },
            nonce: 9,
            token_buy: 2,
            token_sell: 3,
            price: (10, 20, 30),
            amount: 1000,
            time_range: TimeRange {
                valid_from: 100,
                valid_until: 200,
            },
            signature: TxSignature {
                recovered_signer: Some(PubKeyHash { hi: 5, lo: 6 }),
            },
        },
        signature: Some(TxEthSignature {
            bytes: vec![1, 2, 3],
        }),
    }
}

#[test]
fn row_stores_every_column() {
    let schema = OrderSchema;
    let row = schema.row_from_order(&sample_order(), 77);
    assert_eq!(row.id, 77);
    assert_eq!(row.account_id, 4);
    assert_eq!(
        row.recipient_address,
        vec![1, 2, 3, 4, 5, 6, 7, 8, 9, 10, 11, 12, 13, 14, 15, 16, 17, 18, 19, 20]
    );
    assert_eq!(row.nonce, 9);
    assert_eq!(row.token_buy, 2);
    assert_eq!(row.token_sell, 3);
    assert_eq!(row.sell_price, 10);
    assert_eq!(row.buy_price, 20);
    assert_eq!(row.earnest_price, 30);
    assert_eq!(row.amount, 1000);
    assert_eq!(row.valid_from, 100);
    assert_eq!(row.valid_thru, 200);
    assert_eq!(row.eth_signature.as_ref().unwrap().bytes, vec![1, 2, 3]);
}

#[test]
fn order_roundtrips_through_its_row() {
    let schema = OrderSchema;
    let submitted = sample_order();
    let row = schema.row_from_order(&submitted, 1);
    let back = schema.order_from_row(&row);
    assert_eq!(back.order, submitted.order);
    assert_eq!(back.signature, submitted.signature);
}

#[test]
fn order_from_row_reads_every_column() {
    let schema = OrderSchema;
    let row = StorageOrder {
        id: 5,
        account_id: 8,
        recipient_address: vec![0; 20],
        nonce: 1,
        token_buy: 2,
        token_sell: 3,
        sell_price: 4,
        buy_price: 5,
        earnest_price: 6,
        amount: 7,
        valid_from: 8,
        valid_thru: 9,
        signature: TxSignature {
            recovered_signer: None,
        },
        eth_signature: None,
    };
    let order = schema.order_from_row(&row);
    assert_eq!(order.order.account_id, 8);
    assert_eq!(order.order.recipient_address, Address { hi: 0, lo: 0 });
    assert_eq!(order.order.time_range.valid_from, 8);
    assert_eq!(order.order.time_range.valid_until, 9);
    assert!(order.signature.is_none());
}

#[test]
fn api_order_data_carries_the_schema() {
    let data = ApiOrderData::new(OrderSchema);
    assert_eq!(data.schema, OrderSchema);
}

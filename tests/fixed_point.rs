use payments_engine::fixed_point_util::serialize;
use payments_engine::{Client, HumanReadableClient, HumanReadableTransaction, Transaction, TransactionType};

#[test]
fn whole_and_fraction() {
    assert_eq!(serialize(&15000), "1.5000");
    assert_eq!(serialize(&20000), "2.0000");
    assert_eq!(serialize(&123456789), "12345.6789");
}

#[test]
fn zero_and_small() {
    assert_eq!(serialize(&0), "0.0000");
    assert_eq!(serialize(&7), "0.0007");
    assert_eq!(serialize(&10000), "1.0000");
}

#[test]
fn negative_amounts() {
    assert_eq!(serialize(&-5), "-0.0005");
    assert_eq!(serialize(&-15000), "-1.5000");
}

#[test]
fn extremes() {
    assert_eq!(serialize(&i64::MAX), "922337203685477.5807");
    assert_eq!(serialize(&i64::MIN), "-922337203685477.5808");
}

#[test]
fn conversions_keep_fields() {
    let c = Client { client: 4, available: 1, held: 2, total: 3, locked: true };
    let h: HumanReadableClient = c.into();
    assert_eq!(h, HumanReadableClient { client: 4, available: 1, held: 2, total: 3, locked: true });
    let r = HumanReadableTransaction { ty: TransactionType::Withdrawal, client: 5, tx: 6, amount: Some(7) };
    let t: Transaction = r.into();
    assert_eq!(
        t,
        Transaction { ty: TransactionType::Withdrawal, client: 5, tx: 6, amount: Some(7), disputed: false }
    );
}


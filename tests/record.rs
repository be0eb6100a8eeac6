use payments_engine::record::{
    client_key, decode_client, decode_transaction, encode_client, encode_transaction,
    index_to_kind, kind_to_index, transaction_key,
};
use payments_engine::{Client, Transaction, TransactionType};

#[test]
fn transaction_layout() {
    let t = Transaction {
        ty: TransactionType::Withdrawal,
        client: 0x0102,
        tx: 0x0a0b0c0d,
        amount: Some(15000),
        disputed: true,
    };
    let bytes = encode_transaction(&t);
    assert_eq!(
        bytes,
        vec![1, 0, 0, 0, 0x02, 0x01, 0x0d, 0x0c, 0x0b, 0x0a, 1, 0x98, 0x3a, 0, 0, 0, 0, 0, 0, 1]
    );
    assert_eq!(decode_transaction(&bytes), Some(t));
}

#[test]
fn transaction_without_amount_layout() {
    let t = Transaction { ty: TransactionType::Dispute, client: 3, tx: 9, amount: None, disputed: false };
    let bytes = encode_transaction(&t);
    assert_eq!(bytes, vec![2, 0, 0, 0, 3, 0, 9, 0, 0, 0, 0, 0]);
    assert_eq!(decode_transaction(&bytes), Some(t));
}

#[test]
fn negative_amount_round_trip() {
    let t = Transaction {
        ty: TransactionType::Deposit,
        client: u16::MAX,
        tx: u32::MAX,
        amount: Some(i64::MIN),
        disputed: false,
    };
    assert_eq!(decode_transaction(&encode_transaction(&t)), Some(t));
}

#[test]
fn transaction_layout_matches_bincode() {
    let t = Transaction {
        ty: TransactionType::Chargeback,
        client: 513,
        tx: 70000,
        amount: Some(-123456789),
        disputed: true,
    };
    let expected = bincode::serialize(&(4u32, 513u16, 70000u32, Some(-123456789i64), true)).unwrap();
    assert_eq!(encode_transaction(&t), expected);
    let c = Client { client: 9, available: -1, held: 20000, total: 19999, locked: true };
    let expected = bincode::serialize(&(9u16, -1i64, 20000i64, 19999i64, true)).unwrap();
    assert_eq!(encode_client(&c), expected);
}

#[test]
fn malformed_transactions_are_rejected() {
    let t = Transaction { ty: TransactionType::Deposit, client: 1, tx: 1, amount: Some(1), disputed: false };
    let good = encode_transaction(&t);
    // too short
    assert_eq!(decode_transaction(&good[..11]), None);
    // unknown kind
    let mut bad = good.clone();
    bad[0] = 5;
    assert_eq!(decode_transaction(&bad), None);
    // flag byte out of range
    let mut bad = good.clone();
    bad[19] = 2;
    assert_eq!(decode_transaction(&bad), None);
    // amount tag says absent but eight amount bytes follow
    let mut bad = good.clone();
    bad[10] = 0;
    assert_eq!(decode_transaction(&bad), None);
    // trailing byte
    let mut bad = good.clone();
    bad.push(0);
    assert_eq!(decode_transaction(&bad), None);
}

#[test]
fn client_layout() {
    let c = Client { client: 2, available: 15000, held: 0, total: 15000, locked: false };
    let bytes = encode_client(&c);
    assert_eq!(bytes.len(), 27);
    assert_eq!(&bytes[0..2], &[2, 0]);
    assert_eq!(&bytes[2..10], &[0x98, 0x3a, 0, 0, 0, 0, 0, 0]);
    assert_eq!(bytes[26], 0);
    assert_eq!(decode_client(&bytes), Some(c));
}

#[test]
fn malformed_clients_are_rejected() {
    let c = Client { client: 2, available: 1, held: 2, total: 3, locked: true };
    let good = encode_client(&c);
    assert_eq!(decode_client(&good[..26]), None);
    let mut bad = good.clone();
    bad[26] = 7;
    assert_eq!(decode_client(&bad), None);
}

#[test]
fn keys() {
    assert_eq!(transaction_key(0x01020304), vec![4, 3, 2, 1]);
    assert_eq!(client_key(0x0102), vec![2, 1]);
}

#[test]
fn kind_indices() {
    let kinds = [
        TransactionType::Deposit,
        TransactionType::Withdrawal,
        TransactionType::Dispute,
        TransactionType::Resolve,
        TransactionType::Chargeback,
    ];
    for (i, k) in kinds.iter().enumerate() {
        assert_eq!(kind_to_index(*k), i as u32);
        assert_eq!(index_to_kind(i as u32), Some(*k));
    }
    assert_eq!(index_to_kind(5), None);
}

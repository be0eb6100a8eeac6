use payments_engine::{
    process_transaction, Client, DbLayer, Error, HashMapDb, Transaction, TransactionType,
};

fn tx(ty: TransactionType, client: u16, tx: u32, amount: Option<i64>) -> Transaction {
    Transaction { ty, client, tx, amount, disputed: false }
}

fn client_of(db: &HashMapDb, id: u16) -> Client {
    let all = db.stream_clients();
    let mut found = None;
    for entry in all {
        let c = entry.unwrap();
        if c.client == id {
            assert!(found.is_none());
            found = Some(c);
        }
    }
    found.unwrap()
}

#[test]
fn transaction_processing_basic() {
    let inputs = vec![
        Transaction {
            ty: TransactionType::Deposit,
            client: 1,
            tx: 1,
            amount: Some(10000),
            disputed: false,
        },
        Transaction {
            ty: TransactionType::Deposit,
            client: 2,
            tx: 2,
            amount: Some(20000),
            disputed: false,
        },
        Transaction {
            ty: TransactionType::Deposit,
            client: 1,
            tx: 3,
            amount: Some(20000),
            disputed: false,
        },
        Transaction {
            ty: TransactionType::Withdrawal,
            client: 1,
            tx: 4,
            amount: Some(15000),
            disputed: false,
        },
        Transaction {
            ty: TransactionType::Withdrawal,
            client: 2,
            tx: 5,
            amount: Some(30000),
            disputed: false,
        },
    ];

    let mut db_layer = HashMapDb::new(2);

    for input in inputs {
        let _ = process_transaction(&mut db_layer, input);
    }

    let client_1 = Client { client: 1, available: 15000, held: 0, total: 15000, locked: false };

    let client_2 = Client { client: 2, available: 20000, held: 0, total: 20000, locked: false };

    let actual_out = db_layer.stream_clients().into_iter().next().unwrap().unwrap();
    println!("{:?}", actual_out);

    assert!(actual_out == client_1 || actual_out == client_2);
}

#[test]
fn end_to_end_two_clients() {
    let mut db = HashMapDb::new(2);
    assert!(process_transaction(&mut db, tx(TransactionType::Deposit, 1, 1, Some(10000))).is_ok());
    assert!(process_transaction(&mut db, tx(TransactionType::Deposit, 2, 2, Some(20000))).is_ok());
    assert!(process_transaction(&mut db, tx(TransactionType::Deposit, 1, 3, Some(20000))).is_ok());
    assert!(process_transaction(&mut db, tx(TransactionType::Withdrawal, 1, 4, Some(15000))).is_ok());
    let r = process_transaction(&mut db, tx(TransactionType::Withdrawal, 2, 5, Some(30000)));
    assert!(matches!(r, Err(Error::InsufficientFunds)));

    let all = db.stream_clients();
    assert_eq!(all.len(), 2);
    assert_eq!(
        client_of(&db, 1),
        Client { client: 1, available: 15000, held: 0, total: 15000, locked: false }
    );
    assert_eq!(
        client_of(&db, 2),
        Client { client: 2, available: 20000, held: 0, total: 20000, locked: false }
    );
    // the rejected withdrawal was not stored
    assert_eq!(db.get_transaction(5).unwrap(), None);
    assert_eq!(db.get_transaction(4).unwrap(), Some(tx(TransactionType::Withdrawal, 1, 4, Some(15000))));
}

#[test]
fn end_to_end_dispute_resolve_chargeback() {
    let mut db = HashMapDb::new(2);
    assert!(process_transaction(&mut db, tx(TransactionType::Deposit, 1, 1, Some(10000))).is_ok());

    assert!(process_transaction(&mut db, tx(TransactionType::Dispute, 1, 1, None)).is_ok());
    let c = client_of(&db, 1);
    assert_eq!((c.available, c.held, c.total, c.locked), (0, 10000, 10000, false));
    assert!(db.get_transaction(1).unwrap().unwrap().disputed);

    assert!(process_transaction(&mut db, tx(TransactionType::Resolve, 1, 1, None)).is_ok());
    let c = client_of(&db, 1);
    assert_eq!((c.available, c.held, c.total, c.locked), (10000, 0, 10000, false));
    assert!(!db.get_transaction(1).unwrap().unwrap().disputed);

    let r = process_transaction(&mut db, tx(TransactionType::Chargeback, 1, 1, None));
    assert!(matches!(r, Err(Error::NotDisputed)));
    let c = client_of(&db, 1);
    assert_eq!((c.available, c.held, c.total, c.locked), (10000, 0, 10000, false));
}

#[test]
fn dispute_then_chargeback_locks_account() {
    let mut db = HashMapDb::new(1);
    assert!(process_transaction(&mut db, tx(TransactionType::Deposit, 7, 10, Some(25000))).is_ok());
    assert!(process_transaction(&mut db, tx(TransactionType::Deposit, 7, 11, Some(5000))).is_ok());
    assert!(process_transaction(&mut db, tx(TransactionType::Dispute, 7, 10, None)).is_ok());
    assert!(process_transaction(&mut db, tx(TransactionType::Chargeback, 7, 10, None)).is_ok());
    assert_eq!(
        client_of(&db, 7),
        Client { client: 7, available: 5000, held: 0, total: 5000, locked: true }
    );
    assert!(!db.get_transaction(10).unwrap().unwrap().disputed);
}

#[test]
fn unknown_reference_leaves_account() {
    let mut db = HashMapDb::new(1);
    assert!(process_transaction(&mut db, tx(TransactionType::Deposit, 1, 1, Some(10000))).is_ok());
    for ty in [TransactionType::Dispute, TransactionType::Resolve, TransactionType::Chargeback] {
        let r = process_transaction(&mut db, tx(ty, 1, 99, None));
        assert!(matches!(r, Err(Error::ReferenceDoesNotExist)));
        assert_eq!(
            client_of(&db, 1),
            Client { client: 1, available: 10000, held: 0, total: 10000, locked: false }
        );
        assert_eq!(db.get_transaction(99).unwrap(), None);
    }
}

#[test]
fn foreign_reference_is_refused() {
    let mut db = HashMapDb::new(2);
    assert!(process_transaction(&mut db, tx(TransactionType::Deposit, 1, 1, Some(10000))).is_ok());
    assert!(process_transaction(&mut db, tx(TransactionType::Deposit, 2, 2, Some(3000))).is_ok());
    for ty in [TransactionType::Dispute, TransactionType::Resolve, TransactionType::Chargeback] {
        let r = process_transaction(&mut db, tx(ty, 2, 1, None));
        assert!(matches!(r, Err(Error::ReferencesWrongClient)));
    }
    assert_eq!(
        client_of(&db, 2),
        Client { client: 2, available: 3000, held: 0, total: 3000, locked: false }
    );
    assert!(!db.get_transaction(1).unwrap().unwrap().disputed);
}

#[test]
fn failed_first_transaction_still_creates_account() {
    let mut db = HashMapDb::new(1);
    let r = process_transaction(&mut db, tx(TransactionType::Withdrawal, 3, 1, Some(1)));
    assert!(matches!(r, Err(Error::InsufficientFunds)));
    assert_eq!(
        client_of(&db, 3),
        Client { client: 3, available: 0, held: 0, total: 0, locked: false }
    );
    assert_eq!(db.get_transaction(1).unwrap(), None);
}

#[test]
fn deposit_without_amount_is_refused() {
    let mut db = HashMapDb::new(1);
    let r = process_transaction(&mut db, tx(TransactionType::Deposit, 1, 1, None));
    assert!(matches!(r, Err(Error::NoAmount)));
    assert_eq!(db.get_transaction(1).unwrap(), None);
}

#[test]
fn stored_record_is_not_disputed() {
    let mut db = HashMapDb::new(1);
    let incoming = Transaction {
        ty: TransactionType::Deposit,
        client: 1,
        tx: 1,
        amount: Some(500),
        disputed: true,
    };
    assert!(process_transaction(&mut db, incoming).is_ok());
    assert!(!db.get_transaction(1).unwrap().unwrap().disputed);
}

#[test]
fn empty_store_exports_nothing() {
    let db = HashMapDb::new(0);
    assert!(db.stream_clients().is_empty());
}

#[test]
fn second_dispute_holds_nothing_more() {
    let mut db = HashMapDb::new(1);
    assert!(process_transaction(&mut db, tx(TransactionType::Deposit, 1, 1, Some(10000))).is_ok());
    assert!(process_transaction(&mut db, tx(TransactionType::Dispute, 1, 1, None)).is_ok());
    let r = process_transaction(&mut db, tx(TransactionType::Dispute, 1, 1, None));
    assert!(matches!(r, Err(Error::AlreadyDisputed)));
    assert_eq!(
        client_of(&db, 1),
        Client { client: 1, available: 0, held: 10000, total: 10000, locked: false }
    );
}

#[test]
fn cash_sequence_through_processing() {
    let mut db = HashMapDb::new(1);
    let steps = [
        (TransactionType::Deposit, 30000),
        (TransactionType::Withdrawal, 10000),
        (TransactionType::Withdrawal, 25000),
        (TransactionType::Deposit, 5000),
        (TransactionType::Withdrawal, 25000),
    ];
    let mut accepted: i64 = 0;
    for (i, (ty, amount)) in steps.iter().enumerate() {
        let r = process_transaction(&mut db, tx(*ty, 9, i as u32 + 1, Some(*amount)));
        if r.is_ok() {
            accepted += if *ty == TransactionType::Deposit { *amount } else { -*amount };
        } else {
            assert!(matches!(r, Err(Error::InsufficientFunds)));
        }
        let c = client_of(&db, 9);
        assert_eq!(c.total, c.available + c.held);
        assert_eq!(c.total, accepted);
    }
    assert_eq!(
        client_of(&db, 9),
        Client { client: 9, available: 0, held: 0, total: 0, locked: false }
    );
}

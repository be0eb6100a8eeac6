use payments_engine::db_layer::sled_db::{client_of_entry, clients_of_pairs, transaction_of_entry};
use payments_engine::record::{client_key, encode_client, encode_transaction};
use payments_engine::{process_transaction, Client, DbLayer, Error, SledDb, Transaction, TransactionType};

fn open(name: &str) -> SledDb {
    let path = format!("/tmp/payments_engine_tests/{}", name);
    SledDb::new(&path).unwrap()
}

#[test]
fn sled_round_trip_of_records() {
    let mut db = open("round_trip");
    let t = Transaction { ty: TransactionType::Deposit, client: 40, tx: 400, amount: Some(12345), disputed: true };
    db.write_transaction(t).unwrap();
    assert_eq!(db.get_transaction(400).unwrap(), Some(t));
    let c = Client { client: 40, available: -3, held: 12348, total: 12345, locked: true };
    db.write_client(c).unwrap();
    assert_eq!(db.get_client(40).unwrap(), Some(c));
    let exported: Vec<Client> = db.stream_clients().into_iter().map(|e| e.unwrap()).collect();
    assert_eq!(exported.iter().filter(|e| e.client == 40).count(), 1);
    assert!(exported.contains(&c));
}

#[test]
fn sled_absent_records() {
    let mut db = open("absent");
    assert_eq!(db.get_transaction(4_000_000_000).unwrap(), None);
    assert_eq!(db.get_client(65000).unwrap(), None);
}

#[test]
fn sled_processes_transactions() {
    let mut db = open("process");
    let id: u16 = 51;
    let base = Transaction { ty: TransactionType::Deposit, client: id, tx: 5100, amount: Some(20000), disputed: false };
    // start from a known state whatever an earlier run left behind
    db.write_client(Client { client: id, available: 0, held: 0, total: 0, locked: false }).unwrap();
    assert!(process_transaction(&mut db, base).is_ok());
    assert!(process_transaction(&mut db, Transaction { ty: TransactionType::Dispute, amount: None, ..base }).is_ok());
    assert_eq!(
        db.get_client(id).unwrap(),
        Some(Client { client: id, available: 0, held: 20000, total: 20000, locked: false })
    );
    let r = process_transaction(&mut db, Transaction { ty: TransactionType::Withdrawal, tx: 5101, amount: Some(1), ..base });
    assert!(matches!(r, Err(Error::InsufficientFunds)));
}

#[test]
fn entry_reads() {
    let t = Transaction { ty: TransactionType::Deposit, client: 1, tx: 7, amount: Some(5), disputed: false };
    assert_eq!(transaction_of_entry(7, None).unwrap(), None);
    assert_eq!(transaction_of_entry(7, Some(encode_transaction(&t))).unwrap(), Some(t));
    assert!(matches!(transaction_of_entry(8, Some(encode_transaction(&t))), Err(Error::DbLayer(_))));
    assert!(matches!(transaction_of_entry(7, Some(vec![1, 2, 3])), Err(Error::DbLayer(_))));
    let c = Client { client: 3, available: 1, held: 0, total: 1, locked: false };
    assert_eq!(client_of_entry(3, None).unwrap(), None);
    assert_eq!(client_of_entry(3, Some(encode_client(&c))).unwrap(), Some(c));
    assert!(matches!(client_of_entry(4, Some(encode_client(&c))), Err(Error::DbLayer(_))));
    assert!(matches!(client_of_entry(3, Some(vec![0; 26])), Err(Error::DbLayer(_))));
}

#[test]
fn export_items_per_entry() {
    let a = Client { client: 1, available: 10, held: 0, total: 10, locked: false };
    let b = Client { client: 2, available: 0, held: 5, total: 5, locked: true };
    let pairs = vec![
        (client_key(1), encode_client(&a)),
        (client_key(9), encode_client(&b)),
        (client_key(3), vec![0u8; 4]),
        (client_key(2), encode_client(&b)),
    ];
    let out = clients_of_pairs(&pairs);
    assert_eq!(out.len(), 4);
    assert_eq!(out[0].as_ref().unwrap(), &a);
    assert!(matches!(out[1], Err(Error::DbLayer(_))));
    assert!(matches!(out[2], Err(Error::DbLayer(_))));
    assert_eq!(out[3].as_ref().unwrap(), &b);
}

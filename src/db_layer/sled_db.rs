//! A backend that keeps everything in a sled database on disk.
//!
//! Transactions and accounts live in two trees of the database, `transactions`
//! and `accounts`, keyed by the little-endian bytes of their ids, and hold the
//! records in the layout of [`crate::record`]. A tree entry counts as stored
//! only where its bytes decode to a record with the id of its key. Every write
//! is flushed before it is acknowledged.
use vstd::prelude::*;

use super::sled_api::{
    open_db, open_tree, tree_entries, tree_flush, tree_get, tree_insert, tree_pairs,
};
use super::{lookup, DbLayer};
use crate::model::{Client, Error, Transaction};
use crate::record::{
    client_key, client_of_bytes, decode_client, decode_transaction, encode_client,
    encode_transaction, lemma_client_round_trip, lemma_transaction_round_trip,
    lemma_u16_le_injective, lemma_u32_le_injective, transaction_key,
    transaction_of_bytes, u16_le, u32_le,
};

verus! {

/// The transaction stored under `id` in a tree of entries, if one is.
pub open spec fn stored_transaction(entries: Map<Seq<u8>, Seq<u8>>, id: u32) -> Option<
    Transaction,
> {
    if entries.contains_key(u32_le(id)) {
        match transaction_of_bytes(entries[u32_le(id)]) {
            Some(t) => if t.tx == id {
                Some(t)
            } else {
                None
            },
            None => None,
        }
    } else {
        None
    }
}

/// The account stored under `id` in a tree of entries, if one is.
pub open spec fn stored_client(entries: Map<Seq<u8>, Seq<u8>>, id: u16) -> Option<Client> {
    if entries.contains_key(u16_le(id)) {
        match client_of_bytes(entries[u16_le(id)]) {
            Some(c) => if c.client == id {
                Some(c)
            } else {
                None
            },
            None => None,
        }
    } else {
        None
    }
}

/// The stored transactions of a tree of entries, by id.
pub open spec fn transactions_of(entries: Map<Seq<u8>, Seq<u8>>) -> Map<u32, Transaction> {
    Map::new(
        |id: u32| stored_transaction(entries, id) is Some,
        |id: u32| stored_transaction(entries, id)->Some_0,
    )
}

/// The stored accounts of a tree of entries, by client id.
pub open spec fn clients_of(entries: Map<Seq<u8>, Seq<u8>>) -> Map<u16, Client> {
    Map::new(
        |id: u16| stored_client(entries, id) is Some,
        |id: u16| stored_client(entries, id)->Some_0,
    )
}

fn corrupt_record() -> (r: Error)
    ensures
        r is DbLayer,
{
    Error::DbLayer("stored record does not decode under its key".to_owned())
}

/// A database with one tree of transactions and one of accounts.
pub struct SledDb {
    /// The open database, kept for as long as its trees are in use.
    db: sled::Db,
    transactions: sled::Tree,
    clients: sled::Tree,
}

impl SledDb {
    /// Opens or creates the database at `path` with its two trees.
    pub fn new(path: &str) -> (r: Result<SledDb, Error>)
        ensures
            r is Ok ==> r->Ok_0.well_formed() && !r->Ok_0.never_fails(),
            r is Err ==> r->Err_0 is DbLayer,
    {
        let db = match open_db(path) {
            Ok(db) => db,
            Err(e) => return Err(Error::DbLayer(e)),
        };
        let transactions = match open_tree(&db, "transactions") {
            Ok(t) => t,
            Err(e) => return Err(Error::DbLayer(e)),
        };
        let clients = match open_tree(&db, "accounts") {
            Ok(t) => t,
            Err(e) => return Err(Error::DbLayer(e)),
        };
        Ok(SledDb { db, transactions, clients })
    }
}

impl DbLayer for SledDb {
    closed spec fn transactions(&self) -> Map<u32, Transaction> {
        transactions_of(tree_entries(self.transactions))
    }

    closed spec fn clients(&self) -> Map<u16, Client> {
        clients_of(tree_entries(self.clients))
    }

    open spec fn never_fails(&self) -> bool {
        false
    }

    open spec fn well_formed(&self) -> bool {
        true
    }

    fn write_transaction(&mut self, transaction: Transaction) -> (r: Result<(), Error>) {
        let key = transaction_key(transaction.tx);
        let value = encode_transaction(&transaction);
        let ghost before = tree_entries(self.transactions);
        if let Err(e) = tree_insert(&mut self.transactions, key, value) {
            return Err(Error::DbLayer(e));
        }
        proof {
            let after = tree_entries(self.transactions);
            lemma_transaction_round_trip(transaction);
            assert forall|id: u32| #[trigger]
                stored_transaction(after, id) == if id == transaction.tx {
                    Some(transaction)
                } else {
                    stored_transaction(before, id)
                } by {
                lemma_u32_le_injective(id, transaction.tx);
            }
            assert(self.transactions() =~= old(self).transactions().insert(
                transaction.tx,
                transaction,
            ));
        }
        if let Err(e) = tree_flush(&self.transactions) {
            return Err(Error::DbLayer(e));
        }
        Ok(())
    }

    fn get_transaction(&mut self, transaction_id: u32) -> (r: Result<Option<Transaction>, Error>) {
        let key = transaction_key(transaction_id);
        match tree_get(&self.transactions, &key) {
            Err(e) => Err(Error::DbLayer(e)),
            Ok(entry) => transaction_of_entry(transaction_id, entry),
        }
    }

    fn write_client(&mut self, client: Client) -> (r: Result<(), Error>) {
        let key = client_key(client.client);
        let value = encode_client(&client);
        let ghost before = tree_entries(self.clients);
        if let Err(e) = tree_insert(&mut self.clients, key, value) {
            return Err(Error::DbLayer(e));
        }
        proof {
            let after = tree_entries(self.clients);
            lemma_client_round_trip(client);
            assert forall|id: u16| #[trigger]
                stored_client(after, id) == if id == client.client {
                    Some(client)
                } else {
                    stored_client(before, id)
                } by {
                lemma_u16_le_injective(id, client.client);
            }
            assert(self.clients() =~= old(self).clients().insert(client.client, client));
        }
        if let Err(e) = tree_flush(&self.clients) {
            return Err(Error::DbLayer(e));
        }
        Ok(())
    }

    fn get_client(&mut self, client_id: u16) -> (r: Result<Option<Client>, Error>) {
        let key = client_key(client_id);
        match tree_get(&self.clients, &key) {
            Err(e) => Err(Error::DbLayer(e)),
            Ok(entry) => client_of_entry(client_id, entry),
        }
    }

    fn stream_clients(&self) -> (r: Vec<Result<Client, Error>>) {
        let pairs = match tree_pairs(&self.clients) {
            Err(e) => {
                let out: Vec<Result<Client, Error>> = vec![Err(Error::DbLayer(e))];
                assert(!(out@[0] is Ok));
                return out;
            },
            Ok(pairs) => pairs,
        };
        let out = clients_of_pairs(&pairs);
        proof {
            let entries = tree_entries(self.clients);
            assert forall|j: int| 0 <= j < out@.len() && #[trigger] out@[j] is Ok implies lookup(
                self.clients(),
                out@[j]->Ok_0.client,
            ) == Some(out@[j]->Ok_0) by {
                let c = out@[j]->Ok_0;
                assert(entries.contains_key(pairs@[j].0@));
                assert(stored_client(entries, c.client) == Some(c));
            }
            assert forall|a: int, b: int|
                0 <= a < b < out@.len() && #[trigger] out@[a] is Ok && #[trigger] out@[b] is Ok
                    implies out@[a]->Ok_0.client != out@[b]->Ok_0.client by {
                assert(pairs@[a].0@ != pairs@[b].0@);
            }
            if forall|j: int| 0 <= j < out@.len() ==> #[trigger] out@[j] is Ok {
                assert forall|id: u16| #[trigger] self.clients().contains_key(id) implies exists|
                    j: int,
                |
                    0 <= j < out@.len() && #[trigger] out@[j] == Ok::<Client, Error>(
                        self.clients()[id],
                    ) by {
                    assert(entries.contains_key(u16_le(id)));
                    let j = choose|j: int|
                        0 <= j < pairs@.len() && #[trigger] pairs@[j].0@ == u16_le(id);
                    assert(out@[j] is Ok);
                    let c = out@[j]->Ok_0;
                    lemma_u16_le_injective(c.client, id);
                    assert(out@[j] == Ok::<Client, Error>(self.clients()[id]));
                }
            }
        }
        out
    }
}

/// What a read of the transaction `id` gives, from the entry found under its
/// key: nothing where there is none, the record where the entry decodes to a
/// transaction with that id, and a storage error otherwise.
pub fn transaction_of_entry(id: u32, entry: Option<Vec<u8>>) -> (r: Result<
    Option<Transaction>,
    Error,
>)
    ensures
        entry is None ==> r == Ok::<Option<Transaction>, Error>(None),
        entry is Some ==> (r is Ok <==> (transaction_of_bytes(entry->Some_0@) is Some
            && transaction_of_bytes(entry->Some_0@)->Some_0.tx == id)),
        r is Ok && entry is Some ==> r->Ok_0 == transaction_of_bytes(entry->Some_0@),
        r is Err ==> r->Err_0 is DbLayer,
{
    match entry {
        None => Ok(None),
        Some(bytes) => match decode_transaction(&bytes) {
            Some(t) => if t.tx == id {
                Ok(Some(t))
            } else {
                Err(corrupt_record())
            },
            None => Err(corrupt_record()),
        },
    }
}

/// What a read of the account `id` gives, from the entry found under its key:
/// nothing where there is none, the record where the entry decodes to an
/// account with that id, and a storage error otherwise.
pub fn client_of_entry(id: u16, entry: Option<Vec<u8>>) -> (r: Result<Option<Client>, Error>)
    ensures
        entry is None ==> r == Ok::<Option<Client>, Error>(None),
        entry is Some ==> (r is Ok <==> (client_of_bytes(entry->Some_0@) is Some
            && client_of_bytes(entry->Some_0@)->Some_0.client == id)),
        r is Ok && entry is Some ==> r->Ok_0 == client_of_bytes(entry->Some_0@),
        r is Err ==> r->Err_0 is DbLayer,
{
    match entry {
        None => Ok(None),
        Some(bytes) => match decode_client(&bytes) {
            Some(c) => if c.client == id {
                Ok(Some(c))
            } else {
                Err(corrupt_record())
            },
            None => Err(corrupt_record()),
        },
    }
}

/// One export item per entry of the accounts tree, in order: the account where
/// the value decodes to one whose key is the entry's key, a storage error
/// otherwise. A bad entry does not stop the ones after it.
pub fn clients_of_pairs(pairs: &Vec<(Vec<u8>, Vec<u8>)>) -> (r: Vec<Result<Client, Error>>)
    ensures
        r@.len() == pairs@.len(),
        forall|j: int|
            0 <= j < r@.len() ==> (#[trigger] r@[j] is Ok <==> (client_of_bytes(pairs@[j].1@) is Some
                && pairs@[j].0@ == u16_le(client_of_bytes(pairs@[j].1@)->Some_0.client))),
        forall|j: int|
            0 <= j < r@.len() && #[trigger] r@[j] is Ok ==> r@[j]->Ok_0 == client_of_bytes(
                pairs@[j].1@,
            )->Some_0,
        forall|j: int| 0 <= j < r@.len() && #[trigger] r@[j] is Err ==> r@[j]->Err_0 is DbLayer,
{
    let mut out: Vec<Result<Client, Error>> = Vec::new();
    let n = pairs.len();
    let mut i: usize = 0;
    while i < n
        invariant
            n == pairs@.len(),
            i <= n,
            out@.len() == i,
            forall|j: int|
                0 <= j < i ==> (#[trigger] out@[j] is Ok <==> (client_of_bytes(pairs@[j].1@) is Some
                    && pairs@[j].0@ == u16_le(client_of_bytes(pairs@[j].1@)->Some_0.client))),
            forall|j: int|
                0 <= j < i && #[trigger] out@[j] is Ok ==> out@[j]->Ok_0 == client_of_bytes(
                    pairs@[j].1@,
                )->Some_0,
            forall|j: int| 0 <= j < i && #[trigger] out@[j] is Err ==> out@[j]->Err_0 is DbLayer,
        decreases n - i,
    {
        let (k, v) = (&pairs[i].0, &pairs[i].1);
        let item = match decode_client(v) {
            Some(c) => {
                let expected = client_key(c.client);
                if bytes_equal(k, &expected) {
                    Ok(c)
                } else {
                    Err(corrupt_record())
                }
            },
            None => Err(corrupt_record()),
        };
        out.push(item);
        i += 1;
    }
    out
}

/// Whether two byte strings are equal.
fn bytes_equal(a: &Vec<u8>, b: &Vec<u8>) -> (r: bool)
    ensures
        r == (a@ == b@),
{
    if a.len() != b.len() {
        return false;
    }
    let mut i: usize = 0;
    while i < a.len()
        invariant
            a@.len() == b@.len(),
            i <= a@.len(),
            forall|j: int| 0 <= j < i ==> a@[j] == b@[j],
        decreases a@.len() - i,
    {
        if a[i] != b[i] {
            return false;
        }
        i += 1;
    }
    assert(a@ =~= b@);
    true
}

} // verus!

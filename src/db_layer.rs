//! The storage abstraction behind the ledger, and its two backends.
//!
//! A backend is seen through two maps: the stored transactions by id and the
//! stored accounts by client id. Every operation states its effect on them.
//! A backend whose `never_fails` holds answers every call with `Ok`; the
//! others may fail with `Error::DbLayer` where their storage does.
use vstd::prelude::*;

use crate::model::{Client, Error, Transaction};

pub mod hashmap;
mod sled_api;
pub mod sled_db;

verus! {

/// The value of `m` at `k`, if `m` has one.
pub open spec fn lookup<K, V>(m: Map<K, V>, k: K) -> Option<V> {
    if m.contains_key(k) {
        Some(m[k])
    } else {
        None
    }
}

/// Every stored transaction sits under its own id, and every stored account
/// under its own client id.
pub open spec fn keyed_by_id(txs: Map<u32, Transaction>, clients: Map<u16, Client>) -> bool {
    &&& forall|k: u32| #[trigger] txs.contains_key(k) ==> txs[k].tx == k
    &&& forall|k: u16| #[trigger] clients.contains_key(k) ==> clients[k].client == k
}

/// Storage of transactions and accounts.
pub trait DbLayer: Sized {
    /// The stored transactions, by id.
    spec fn transactions(&self) -> Map<u32, Transaction>;

    /// The stored accounts, by client id.
    spec fn clients(&self) -> Map<u16, Client>;

    /// Whether every operation of this backend succeeds.
    spec fn never_fails(&self) -> bool;

    /// What the backend keeps true between operations.
    spec fn well_formed(&self) -> bool;

    /// Stores a transaction under its id, replacing any stored before.
    fn write_transaction(&mut self, transaction: Transaction) -> (r: Result<(), Error>)
        requires
            old(self).well_formed(),
        ensures
            final(self).well_formed(),
            keyed_by_id(final(self).transactions(), final(self).clients()),
            final(self).never_fails() == old(self).never_fails(),
            r is Ok ==> final(self).transactions() == old(self).transactions().insert(
                transaction.tx,
                transaction,
            ),
            final(self).clients() == old(self).clients(),
            old(self).never_fails() ==> r is Ok,
            r is Err ==> r->Err_0 is DbLayer,
    ;

    /// The transaction stored under `transaction_id`, if any.
    fn get_transaction(&mut self, transaction_id: u32) -> (r: Result<Option<Transaction>, Error>)
        requires
            old(self).well_formed(),
        ensures
            final(self).well_formed(),
            keyed_by_id(final(self).transactions(), final(self).clients()),
            final(self).never_fails() == old(self).never_fails(),
            final(self).transactions() == old(self).transactions(),
            final(self).clients() == old(self).clients(),
            r is Ok ==> r->Ok_0 == lookup(old(self).transactions(), transaction_id),
            old(self).never_fails() ==> r is Ok,
            r is Err ==> r->Err_0 is DbLayer,
            keyed_by_id(old(self).transactions(), old(self).clients()),
    ;

    /// Stores an account under its client id, replacing any stored before.
    fn write_client(&mut self, client: Client) -> (r: Result<(), Error>)
        requires
            old(self).well_formed(),
        ensures
            final(self).well_formed(),
            keyed_by_id(final(self).transactions(), final(self).clients()),
            final(self).never_fails() == old(self).never_fails(),
            final(self).transactions() == old(self).transactions(),
            r is Ok ==> final(self).clients() == old(self).clients().insert(client.client, client),
            old(self).never_fails() ==> r is Ok,
            r is Err ==> r->Err_0 is DbLayer,
    ;

    /// The account stored under `client_id`, if any.
    fn get_client(&mut self, client_id: u16) -> (r: Result<Option<Client>, Error>)
        requires
            old(self).well_formed(),
        ensures
            final(self).well_formed(),
            keyed_by_id(final(self).transactions(), final(self).clients()),
            final(self).never_fails() == old(self).never_fails(),
            final(self).transactions() == old(self).transactions(),
            final(self).clients() == old(self).clients(),
            r is Ok ==> r->Ok_0 == lookup(old(self).clients(), client_id),
            old(self).never_fails() ==> r is Ok,
            r is Err ==> r->Err_0 is DbLayer,
            keyed_by_id(old(self).transactions(), old(self).clients()),
    ;

    /// Every stored account, each once, in no particular order. An entry that
    /// cannot be read comes out as an error in its place; where no entry is an
    /// error, every stored account is there.
    fn stream_clients(&self) -> (r: Vec<Result<Client, Error>>)
        requires
            self.well_formed(),
        ensures
            forall|i: int|
                0 <= i < r@.len() && #[trigger] r@[i] is Ok ==> lookup(
                    self.clients(),
                    r@[i]->Ok_0.client,
                ) == Some(r@[i]->Ok_0),
            forall|i: int, j: int|
                0 <= i < j < r@.len() && #[trigger] r@[i] is Ok && #[trigger] r@[j] is Ok
                    ==> r@[i]->Ok_0.client != r@[j]->Ok_0.client,
            forall|i: int| 0 <= i < r@.len() && #[trigger] r@[i] is Err ==> r@[i]->Err_0 is DbLayer,
            self.never_fails() ==> forall|i: int| 0 <= i < r@.len() ==> #[trigger] r@[i] is Ok,
            (forall|i: int| 0 <= i < r@.len() ==> #[trigger] r@[i] is Ok) ==> forall|id: u16|
                #[trigger] self.clients().contains_key(id) ==> exists|i: int|
                    0 <= i < r@.len() && #[trigger] r@[i] == Ok::<Client, Error>(self.clients()[id]),
    ;
}

} // verus!

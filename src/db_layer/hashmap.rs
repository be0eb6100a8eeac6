//! A backend that keeps everything in memory for the life of the process.
use std::collections::HashMap;

use vstd::prelude::*;

use super::{keyed_by_id, DbLayer};
use crate::model::{Client, Error, Transaction};

verus! {

/// Transactions and accounts in two hash maps. The ids of the stored accounts
/// are also kept in the order in which they were first stored, so that the
/// export walks them in an order that does not depend on hashing.
pub struct HashMapDb {
    transactions_map: HashMap<u32, Transaction>,
    clients_map: HashMap<u16, Client>,
    client_ids: Vec<u16>,
}

impl HashMapDb {
    /// An empty store, with room for `buffer_size` accounts.
    pub fn new(buffer_size: usize) -> (r: HashMapDb)
        ensures
            r.well_formed(),
            r.never_fails(),
            r.transactions() == Map::<u32, Transaction>::empty(),
            r.clients() == Map::<u16, Client>::empty(),
    {
        let r = HashMapDb {
            transactions_map: HashMap::new(),
            clients_map: HashMap::with_capacity(buffer_size),
            client_ids: Vec::new(),
        };
        assert(r.transactions() =~= Map::<u32, Transaction>::empty());
        assert(r.clients() =~= Map::<u16, Client>::empty());
        r
    }
}

impl DbLayer for HashMapDb {
    closed spec fn transactions(&self) -> Map<u32, Transaction> {
        self.transactions_map@
    }

    closed spec fn clients(&self) -> Map<u16, Client> {
        self.clients_map@
    }

    open spec fn never_fails(&self) -> bool {
        true
    }

    closed spec fn well_formed(&self) -> bool {
        &&& keyed_by_id(self.transactions_map@, self.clients_map@)
        &&& self.client_ids@.no_duplicates()
        &&& forall|id: u16| #[trigger]
            self.clients_map@.contains_key(id) <==> self.client_ids@.contains(id)
    }

    fn write_transaction(&mut self, transaction: Transaction) -> (r: Result<(), Error>) {
        self.transactions_map.insert(transaction.tx, transaction);
        Ok(())
    }

    fn get_transaction(&mut self, transaction_id: u32) -> (r: Result<Option<Transaction>, Error>) {
        match self.transactions_map.get(&transaction_id) {
            Some(t) => Ok(Some(*t)),
            None => Ok(None),
        }
    }

    fn write_client(&mut self, client: Client) -> (r: Result<(), Error>) {
        if !self.clients_map.contains_key(&client.client) {
            self.client_ids.push(client.client);
        }
        self.clients_map.insert(client.client, client);
        proof {
            assert forall|id: u16| #[trigger]
                self.clients_map@.contains_key(id) <==> self.client_ids@.contains(id) by {
                if id != client.client {
                    assert(old(self).client_ids@.contains(id) ==> self.client_ids@.contains(id)) by {
                        if old(self).client_ids@.contains(id) {
                            let k = choose|k: int|
                                0 <= k < old(self).client_ids@.len() && old(self).client_ids@[k]
                                    == id;
                            assert(self.client_ids@[k] == id);
                        }
                    }
                } else {
                    assert(self.client_ids@.contains(id)) by {
                        if old(self).client_ids@.contains(id) {
                            let k = choose|k: int|
                                0 <= k < old(self).client_ids@.len() && old(self).client_ids@[k]
                                    == id;
                            assert(self.client_ids@[k] == id);
                        } else {
                            assert(self.client_ids@[self.client_ids@.len() - 1] == id);
                        }
                    }
                }
            }
        }
        Ok(())
    }

    fn get_client(&mut self, client_id: u16) -> (r: Result<Option<Client>, Error>) {
        match self.clients_map.get(&client_id) {
            Some(c) => Ok(Some(*c)),
            None => Ok(None),
        }
    }

    fn stream_clients(&self) -> (r: Vec<Result<Client, Error>>) {
        let mut out: Vec<Result<Client, Error>> = Vec::new();
        let n = self.client_ids.len();
        let mut i: usize = 0;
        while i < n
            invariant
                self.well_formed(),
                n == self.client_ids@.len(),
                i <= n,
                out@.len() == i,
                forall|j: int|
                    0 <= j < i ==> #[trigger] out@[j] == Ok::<Client, Error>(
                        self.clients_map@[self.client_ids@[j]],
                    ),
            decreases n - i,
        {
            let id = self.client_ids[i];
            assert(self.client_ids@.contains(id));
            let c = match self.clients_map.get(&id) {
                Some(c) => *c,
                None => {
                    assert(false);
                    Client::fresh(id)
                },
            };
            out.push(Ok(c));
            i += 1;
        }
        proof {
            assert forall|j: int| 0 <= j < out@.len() implies #[trigger] out@[j] == Ok::<
                Client,
                Error,
            >(self.clients_map@[self.client_ids@[j]]) && self.clients_map@.contains_key(
                self.client_ids@[j],
            ) && self.clients_map@[self.client_ids@[j]].client == self.client_ids@[j] by {
                assert(self.client_ids@.contains(self.client_ids@[j]));
            }
            assert forall|id: u16| #[trigger] self.clients_map@.contains_key(id) implies exists|
                i: int,
            |
                0 <= i < out@.len() && #[trigger] out@[i] == Ok::<Client, Error>(
                    self.clients_map@[id],
                ) by {
                assert(self.client_ids@.contains(id));
                let k = choose|k: int| 0 <= k < self.client_ids@.len() && self.client_ids@[k] == id;
                assert(out@[k] == Ok::<Client, Error>(self.clients_map@[id]));
            }
            assert forall|i: int, j: int|
                0 <= i < j < out@.len() && #[trigger] out@[i] is Ok && #[trigger] out@[j] is Ok
                    implies out@[i]->Ok_0.client != out@[j]->Ok_0.client by {
                assert(self.client_ids@[i] != self.client_ids@[j]);
            }
        }
        out
    }
}

} // verus!

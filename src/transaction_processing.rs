//! One transaction end to end: load the account, load the referenced
//! transaction where there is one, apply the ledger rule, store the results.
use vstd::prelude::*;

use crate::db_layer::{keyed_by_id, lookup, DbLayer};
use crate::ledger::{
    chargeback_outcome, deposit_outcome, dispute_outcome, process_chargeback, process_deposit,
    process_dispute, process_resolve, process_withdrawal, resolve_outcome, with_disputed,
    withdrawal_outcome,
};
use crate::model::{Client, Error, Transaction, TransactionType};

verus! {

/// The account a transaction works on: the stored one, or a fresh one.
pub open spec fn loaded_client(clients: Map<u16, Client>, id: u16) -> Client {
    if clients.contains_key(id) {
        clients[id]
    } else {
        Client::spec_fresh(id)
    }
}

/// What one transaction does to the stored state: the account afterwards, the
/// transaction record to store, if any, and the result. A failed operation
/// stores no transaction and leaves the account as it was loaded.
pub open spec fn process_outcome(
    txs: Map<u32, Transaction>,
    clients: Map<u16, Client>,
    t: Transaction,
) -> (Client, Option<Transaction>, Result<(), Error>) {
    let c = loaded_client(clients, t.client);
    match t.ty {
        TransactionType::Deposit => {
            let (c1, r) = deposit_outcome(c, t);
            (
                c1,
                if r is Ok {
                    Some(with_disputed(t, false))
                } else {
                    None
                },
                r,
            )
        },
        TransactionType::Withdrawal => {
            let (c1, r) = withdrawal_outcome(c, t);
            (
                c1,
                if r is Ok {
                    Some(with_disputed(t, false))
                } else {
                    None
                },
                r,
            )
        },
        TransactionType::Dispute => {
            let (c1, x1, r) = dispute_outcome(c, lookup(txs, t.tx));
            (
                c1,
                if r is Ok {
                    x1
                } else {
                    None
                },
                r,
            )
        },
        TransactionType::Resolve => {
            let (c1, x1, r) = resolve_outcome(c, lookup(txs, t.tx));
            (
                c1,
                if r is Ok {
                    x1
                } else {
                    None
                },
                r,
            )
        },
        TransactionType::Chargeback => {
            let (c1, x1, r) = chargeback_outcome(c, lookup(txs, t.tx));
            (
                c1,
                if r is Ok {
                    x1
                } else {
                    None
                },
                r,
            )
        },
    }
}

/// The stored transactions after `record`, if any, is stored under its id.
pub open spec fn stored_after(txs: Map<u32, Transaction>, record: Option<Transaction>) -> Map<
    u32,
    Transaction,
> {
    match record {
        Some(x) => txs.insert(x.tx, x),
        None => txs,
    }
}

/// The result is a failure of the storage backend.
pub open spec fn is_storage_failure(r: Result<(), Error>) -> bool {
    r is Err && r->Err_0 is DbLayer
}

/// Processes a single transaction against the store.
///
/// Unless the store fails, the result is that of the ledger rule, the account
/// is stored whether the rule succeeded or not (so an account exists from its
/// first transaction on), and the transaction record is stored only where the
/// rule succeeded. A store failure ends the call at once, with the store as it
/// then stands.
pub fn process_transaction<D: DbLayer>(db: &mut D, transaction: Transaction) -> (r: Result<
    (),
    Error,
>)
    requires
        old(db).well_formed(),
    ensures
        final(db).well_formed(),
        keyed_by_id(final(db).transactions(), final(db).clients()),
        final(db).never_fails() == old(db).never_fails(),
        old(db).never_fails() ==> !is_storage_failure(r),
        ({
            let (c1, record, res) = process_outcome(
                old(db).transactions(),
                old(db).clients(),
                transaction,
            );
            !is_storage_failure(r) ==> {
                &&& r == res
                &&& final(db).clients() == old(db).clients().insert(transaction.client, c1)
                &&& final(db).transactions() == stored_after(old(db).transactions(), record)
            }
        }),
{
    let mut client = match db.get_client(transaction.client) {
        Err(e) => return Err(e),
        Ok(Some(c)) => c,
        Ok(None) => Client::fresh(transaction.client),
    };
    let result = match transaction.ty {
        TransactionType::Deposit | TransactionType::Withdrawal => {
            let r = if let TransactionType::Deposit = transaction.ty {
                process_deposit(&mut client, transaction)
            } else {
                process_withdrawal(&mut client, transaction)
            };
            if let Ok(()) = r {
                let record = Transaction {
                    ty: transaction.ty,
                    client: transaction.client,
                    tx: transaction.tx,
                    amount: transaction.amount,
                    disputed: false,
                };
                if let Err(e) = db.write_transaction(record) {
                    return Err(e);
                }
            }
            r
        },
        _ => {
            let mut referenced = match db.get_transaction(transaction.tx) {
                Err(e) => return Err(e),
                Ok(x) => x,
            };
            let r = match transaction.ty {
                TransactionType::Dispute => process_dispute(&mut client, &mut referenced),
                TransactionType::Resolve => process_resolve(&mut client, &mut referenced),
                _ => process_chargeback(&mut client, &mut referenced),
            };
            if let Ok(()) = r {
                if let Some(x) = referenced {
                    if let Err(e) = db.write_transaction(x) {
                        return Err(e);
                    }
                }
            }
            r
        },
    };
    if let Err(e) = db.write_client(client) {
        return Err(e);
    }
    result
}

} // verus!

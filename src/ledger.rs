//! The rules that move money within one account.
//!
//! Each operation is an exec function whose effect is pinned down by a spec
//! function of the same name with `_outcome` appended: the new account, the
//! new state of the referenced transaction where there is one, and the result.
//! A failed operation changes nothing.
use vstd::prelude::*;

use crate::model::{Client, Error, Transaction};

verus! {

/// `v` is in the range of `i64`.
pub open spec fn fits(v: int) -> bool {
    i64::MIN <= v <= i64::MAX
}

/// The account with its balances replaced; the id and the lock stay.
pub open spec fn with_balances(c: Client, available: int, held: int, total: int) -> Client {
    Client {
        client: c.client,
        available: available as i64,
        held: held as i64,
        total: total as i64,
        locked: c.locked,
    }
}

/// The transaction with its dispute flag set to `disputed`.
pub open spec fn with_disputed(t: Transaction, disputed: bool) -> Transaction {
    Transaction { ty: t.ty, client: t.client, tx: t.tx, amount: t.amount, disputed }
}

/// A deposit of `t.amount`: `available` and `total` grow by it.
pub open spec fn deposit_outcome(c: Client, t: Transaction) -> (Client, Result<(), Error>) {
    match t.amount {
        None => (c, Err(Error::NoAmount)),
        Some(a) => if fits(c.available + a) && fits(c.total + a) {
            (with_balances(c, c.available + a, c.held as int, c.total + a), Ok(()))
        } else {
            (c, Err(Error::Overflow))
        },
    }
}

/// A withdrawal of `t.amount`: refused unless `available` covers it, then
/// `available` and `total` shrink by it.
pub open spec fn withdrawal_outcome(c: Client, t: Transaction) -> (Client, Result<(), Error>) {
    match t.amount {
        None => (c, Err(Error::NoAmount)),
        Some(a) => if c.available - a < 0 {
            (c, Err(Error::InsufficientFunds))
        } else if fits(c.available - a) && fits(c.total - a) {
            (with_balances(c, c.available - a, c.held as int, c.total - a), Ok(()))
        } else {
            (c, Err(Error::Overflow))
        },
    }
}

/// A dispute of the referenced transaction: its amount moves from `available`
/// to `held`, and the transaction is marked disputed. A transaction already
/// under dispute cannot be disputed again: the funds are held once.
pub open spec fn dispute_outcome(c: Client, r: Option<Transaction>) -> (
    Client,
    Option<Transaction>,
    Result<(), Error>,
) {
    match r {
        None => (c, r, Err(Error::ReferenceDoesNotExist)),
        Some(x) => if x.client != c.client {
            (c, r, Err(Error::ReferencesWrongClient))
        } else if x.disputed {
            (c, r, Err(Error::AlreadyDisputed))
        } else {
            match x.amount {
                None => (c, r, Err(Error::NoAmount)),
                Some(a) => if fits(c.available - a) && fits(c.held + a) {
                    (
                        with_balances(c, c.available - a, c.held + a, c.total as int),
                        Some(with_disputed(x, true)),
                        Ok(()),
                    )
                } else {
                    (c, r, Err(Error::Overflow))
                },
            }
        },
    }
}

/// A resolve of the referenced, disputed transaction: its amount moves back
/// from `held` to `available`, and the dispute is closed.
pub open spec fn resolve_outcome(c: Client, r: Option<Transaction>) -> (
    Client,
    Option<Transaction>,
    Result<(), Error>,
) {
    match r {
        None => (c, r, Err(Error::ReferenceDoesNotExist)),
        Some(x) => if x.client != c.client {
            (c, r, Err(Error::ReferencesWrongClient))
        } else if !x.disputed {
            (c, r, Err(Error::NotDisputed))
        } else {
            match x.amount {
                None => (c, r, Err(Error::NoAmount)),
                Some(a) => if fits(c.available + a) && fits(c.held - a) {
                    (
                        with_balances(c, c.available + a, c.held - a, c.total as int),
                        Some(with_disputed(x, false)),
                        Ok(()),
                    )
                } else {
                    (c, r, Err(Error::Overflow))
                },
            }
        },
    }
}

/// A chargeback of the referenced, disputed transaction: its amount leaves
/// `held` and `total`, the account is locked and the dispute is closed.
pub open spec fn chargeback_outcome(c: Client, r: Option<Transaction>) -> (
    Client,
    Option<Transaction>,
    Result<(), Error>,
) {
    match r {
        None => (c, r, Err(Error::ReferenceDoesNotExist)),
        Some(x) => if x.client != c.client {
            (c, r, Err(Error::ReferencesWrongClient))
        } else if !x.disputed {
            (c, r, Err(Error::NotDisputed))
        } else {
            match x.amount {
                None => (c, r, Err(Error::NoAmount)),
                Some(a) => if fits(c.held - a) && fits(c.total - a) {
                    (
                        Client {
                            client: c.client,
                            available: c.available,
                            held: (c.held - a) as i64,
                            total: (c.total - a) as i64,
                            locked: true,
                        },
                        Some(with_disputed(x, false)),
                        Ok(()),
                    )
                } else {
                    (c, r, Err(Error::Overflow))
                },
            }
        },
    }
}

/// Applies a deposit to the account.
pub fn process_deposit(client: &mut Client, transaction: Transaction) -> (r: Result<(), Error>)
    ensures
        (*final(client), r) == deposit_outcome(*old(client), transaction),
{
    match transaction.amount {
        None => Err(Error::NoAmount),
        Some(amount) => match (client.available.checked_add(amount), client.total.checked_add(amount)) {
            (Some(available), Some(total)) => {
                client.available = available;
                client.total = total;
                Ok(())
            },
            _ => Err(Error::Overflow),
        },
    }
}

/// Applies a withdrawal to the account; never a partial one.
pub fn process_withdrawal(client: &mut Client, transaction: Transaction) -> (r: Result<(), Error>)
    ensures
        (*final(client), r) == withdrawal_outcome(*old(client), transaction),
{
    match transaction.amount {
        None => Err(Error::NoAmount),
        Some(amount) => {
            if client.available < amount {
                return Err(Error::InsufficientFunds);
            }
            match (client.available.checked_sub(amount), client.total.checked_sub(amount)) {
                (Some(available), Some(total)) => {
                    client.available = available;
                    client.total = total;
                    Ok(())
                },
                _ => Err(Error::Overflow),
            }
        },
    }
}

/// Opens a dispute on the referenced transaction; refuses one already under dispute.
pub fn process_dispute(
    client: &mut Client,
    referenced_transaction: &mut Option<Transaction>,
) -> (r: Result<(), Error>)
    ensures
        (*final(client), *final(referenced_transaction), r) == dispute_outcome(
            *old(client),
            *old(referenced_transaction),
        ),
{
    let x = match *referenced_transaction {
        None => return Err(Error::ReferenceDoesNotExist),
        Some(x) => x,
    };
    if x.client != client.client {
        return Err(Error::ReferencesWrongClient);
    }
    if x.disputed {
        return Err(Error::AlreadyDisputed);
    }
    let amount = match x.amount {
        None => return Err(Error::NoAmount),
        Some(amount) => amount,
    };
    match (client.available.checked_sub(amount), client.held.checked_add(amount)) {
        (Some(available), Some(held)) => {
            client.available = available;
            client.held = held;
            *referenced_transaction = Some(
                Transaction { ty: x.ty, client: x.client, tx: x.tx, amount: x.amount, disputed: true },
            );
            Ok(())
        },
        _ => Err(Error::Overflow),
    }
}

/// Closes a dispute on the referenced transaction, releasing the held funds.
pub fn process_resolve(
    client: &mut Client,
    referenced_transaction: &mut Option<Transaction>,
) -> (r: Result<(), Error>)
    ensures
        (*final(client), *final(referenced_transaction), r) == resolve_outcome(
            *old(client),
            *old(referenced_transaction),
        ),
{
    let x = match *referenced_transaction {
        None => return Err(Error::ReferenceDoesNotExist),
        Some(x) => x,
    };
    if x.client != client.client {
        return Err(Error::ReferencesWrongClient);
    }
    if !x.disputed {
        return Err(Error::NotDisputed);
    }
    let amount = match x.amount {
        None => return Err(Error::NoAmount),
        Some(amount) => amount,
    };
    match (client.available.checked_add(amount), client.held.checked_sub(amount)) {
        (Some(available), Some(held)) => {
            client.available = available;
            client.held = held;
            *referenced_transaction = Some(
                Transaction { ty: x.ty, client: x.client, tx: x.tx, amount: x.amount, disputed: false },
            );
            Ok(())
        },
        _ => Err(Error::Overflow),
    }
}

/// Reverses the referenced, disputed transaction and locks the account.
pub fn process_chargeback(
    client: &mut Client,
    referenced_transaction: &mut Option<Transaction>,
) -> (r: Result<(), Error>)
    ensures
        (*final(client), *final(referenced_transaction), r) == chargeback_outcome(
            *old(client),
            *old(referenced_transaction),
        ),
{
    let x = match *referenced_transaction {
        None => return Err(Error::ReferenceDoesNotExist),
        Some(x) => x,
    };
    if x.client != client.client {
        return Err(Error::ReferencesWrongClient);
    }
    if !x.disputed {
        return Err(Error::NotDisputed);
    }
    let amount = match x.amount {
        None => return Err(Error::NoAmount),
        Some(amount) => amount,
    };
    match (client.held.checked_sub(amount), client.total.checked_sub(amount)) {
        (Some(held), Some(total)) => {
            client.held = held;
            client.total = total;
            client.locked = true;
            *referenced_transaction = Some(
                Transaction { ty: x.ty, client: x.client, tx: x.tx, amount: x.amount, disputed: false },
            );
            Ok(())
        },
        _ => Err(Error::Overflow),
    }
}

} // verus!

//! Properties of the ledger rules, proved over the outcome functions that the
//! operations of [`crate::ledger`] are specified by.
use vstd::prelude::*;

use crate::ledger::{
    chargeback_outcome, deposit_outcome, dispute_outcome, fits, resolve_outcome, with_disputed,
    withdrawal_outcome,
};
use crate::db_layer::{keyed_by_id, lookup};
use crate::model::{Client, Error, Transaction, TransactionType};
use crate::transaction_processing::{loaded_client, process_outcome, stored_after};

verus! {

/// A deposit or a withdrawal, by its kind, applied to the account.
pub open spec fn cash_outcome(c: Client, t: Transaction) -> (Client, Result<(), Error>) {
    if t.ty == TransactionType::Deposit {
        deposit_outcome(c, t)
    } else {
        withdrawal_outcome(c, t)
    }
}

/// What a deposit adds to the balance, or a withdrawal takes from it.
pub open spec fn signed_amount(t: Transaction) -> int {
    let a = match t.amount {
        Some(a) => a as int,
        None => 0,
    };
    if t.ty == TransactionType::Deposit {
        a
    } else {
        -a
    }
}

/// The account after the deposits and withdrawals of `ts`, in order.
pub open spec fn apply_cash(c: Client, ts: Seq<Transaction>) -> Client
    decreases ts.len(),
{
    if ts.len() == 0 {
        c
    } else {
        cash_outcome(apply_cash(c, ts.drop_last()), ts.last()).0
    }
}

/// The sum of the deposits of `ts` minus the sum of its withdrawals, counting
/// only those that were accepted when `ts` was applied to `c` in order.
pub open spec fn accepted_sum(c: Client, ts: Seq<Transaction>) -> int
    decreases ts.len(),
{
    if ts.len() == 0 {
        0
    } else {
        accepted_sum(c, ts.drop_last()) + if cash_outcome(
            apply_cash(c, ts.drop_last()),
            ts.last(),
        ).1 is Ok {
            signed_amount(ts.last())
        } else {
            0
        }
    }
}

/// Every operation keeps `total == available + held`, whether it succeeds or fails.
pub proof fn lemma_operations_keep_balance(c: Client, t: Transaction, x: Option<Transaction>)
    requires
        c.balanced(),
    ensures
        deposit_outcome(c, t).0.balanced(),
        withdrawal_outcome(c, t).0.balanced(),
        dispute_outcome(c, x).0.balanced(),
        resolve_outcome(c, x).0.balanced(),
        chargeback_outcome(c, x).0.balanced(),
{
}

/// All of `ts` are deposits or withdrawals.
pub open spec fn all_cash(ts: Seq<Transaction>) -> bool {
    forall|i: int|
        0 <= i < ts.len() ==> #[trigger] ts[i].ty == TransactionType::Deposit || ts[i].ty
            == TransactionType::Withdrawal
}

/// After any sequence of deposits and withdrawals on one account, `total` has
/// moved by exactly the accepted deposits minus the accepted withdrawals,
/// `total == available + held` still holds, and `held` and the lock are as
/// they were. Every prefix of `ts` is such a sequence too, so this holds after
/// each step.
pub proof fn lemma_cash_sequence(c: Client, ts: Seq<Transaction>)
    requires
        c.balanced(),
        all_cash(ts),
    ensures
        apply_cash(c, ts).total == c.total + accepted_sum(c, ts),
        apply_cash(c, ts).balanced(),
        apply_cash(c, ts).held == c.held,
        apply_cash(c, ts).locked == c.locked,
        apply_cash(c, ts).client == c.client,
    decreases ts.len(),
{
    if ts.len() > 0 {
        let front = ts.drop_last();
        assert(ts.last() == ts[ts.len() - 1]);
        assert forall|i: int| 0 <= i < front.len() implies #[trigger] front[i].ty
            == TransactionType::Deposit || front[i].ty == TransactionType::Withdrawal by {
            assert(front[i] == ts[i]);
        }
        lemma_cash_sequence(c, front);
    }
}

/// A withdrawal of more than is available changes nothing and fails with
/// `InsufficientFunds`.
pub proof fn lemma_withdrawal_beyond_available(c: Client, t: Transaction)
    requires
        t.amount is Some,
        t.amount->Some_0 > c.available,
    ensures
        withdrawal_outcome(c, t) == (c, Err::<(), Error>(Error::InsufficientFunds)),
{
}

/// A dispute of an undisputed transaction of this client moves exactly its
/// amount from `available` to `held`, leaves `total` alone and marks the
/// transaction disputed.
pub proof fn lemma_dispute_moves_amount(c: Client, x: Transaction)
    requires
        x.client == c.client,
        !x.disputed,
        x.amount is Some,
        fits(c.available - x.amount->Some_0),
        fits(c.held + x.amount->Some_0),
    ensures
        ({
            let (c1, x1, r) = dispute_outcome(c, Some(x));
            let a = x.amount->Some_0;
            &&& r is Ok
            &&& c1.available == c.available - a
            &&& c1.held == c.held + a
            &&& c1.total == c.total
            &&& c1.locked == c.locked
            &&& c1.client == c.client
            &&& x1 == Some(with_disputed(x, true))
        }),
{
}

/// A resolve after a dispute restores the account exactly and closes the dispute.
pub proof fn lemma_resolve_reverses_dispute(c: Client, x: Transaction)
    requires
        x.client == c.client,
        !x.disputed,
        x.amount is Some,
        fits(c.available - x.amount->Some_0),
        fits(c.held + x.amount->Some_0),
    ensures
        ({
            let (c1, x1, r1) = dispute_outcome(c, Some(x));
            &&& r1 is Ok
            &&& resolve_outcome(c1, x1) == (c, Some(with_disputed(x, false)), Ok::<(), Error>(()))
        }),
{
}

/// A dispute of a transaction already under dispute fails with
/// `AlreadyDisputed` and changes nothing.
pub proof fn lemma_dispute_disputed(c: Client, x: Transaction)
    requires
        x.client == c.client,
        x.disputed,
    ensures
        dispute_outcome(c, Some(x)) == (c, Some(x), Err::<(), Error>(Error::AlreadyDisputed)),
{
}

/// A resolve of a transaction that is not disputed fails with `NotDisputed`
/// and changes nothing.
pub proof fn lemma_resolve_undisputed(c: Client, x: Transaction)
    requires
        x.client == c.client,
        !x.disputed,
    ensures
        resolve_outcome(c, Some(x)) == (c, Some(x), Err::<(), Error>(Error::NotDisputed)),
{
}

/// A chargeback of a disputed transaction takes its amount out of `held` and
/// `total`, locks the account and closes the dispute.
pub proof fn lemma_chargeback_disputed(c: Client, x: Transaction)
    requires
        x.client == c.client,
        x.disputed,
        x.amount is Some,
        fits(c.held - x.amount->Some_0),
        fits(c.total - x.amount->Some_0),
    ensures
        ({
            let (c1, x1, r) = chargeback_outcome(c, Some(x));
            let a = x.amount->Some_0;
            &&& r is Ok
            &&& c1.held == c.held - a
            &&& c1.total == c.total - a
            &&& c1.available == c.available
            &&& c1.locked
            &&& c1.client == c.client
            &&& x1 == Some(with_disputed(x, false))
        }),
{
}

/// A chargeback of a transaction that is not disputed fails with `NotDisputed`
/// and changes nothing.
pub proof fn lemma_chargeback_undisputed(c: Client, x: Transaction)
    requires
        x.client == c.client,
        !x.disputed,
    ensures
        chargeback_outcome(c, Some(x)) == (c, Some(x), Err::<(), Error>(Error::NotDisputed)),
{
}

/// A dispute, resolve or chargeback of a transaction that does not exist fails
/// with `ReferenceDoesNotExist` and changes nothing.
pub proof fn lemma_missing_reference(c: Client)
    ensures
        dispute_outcome(c, None) == (c, None::<Transaction>, Err::<(), Error>(
            Error::ReferenceDoesNotExist,
        )),
        resolve_outcome(c, None) == (c, None::<Transaction>, Err::<(), Error>(
            Error::ReferenceDoesNotExist,
        )),
        chargeback_outcome(c, None) == (c, None::<Transaction>, Err::<(), Error>(
            Error::ReferenceDoesNotExist,
        )),
{
}

/// A dispute, resolve or chargeback of another client's transaction fails with
/// `ReferencesWrongClient` and changes nothing.
pub proof fn lemma_foreign_reference(c: Client, x: Transaction)
    requires
        x.client != c.client,
    ensures
        dispute_outcome(c, Some(x)) == (c, Some(x), Err::<(), Error>(
            Error::ReferencesWrongClient,
        )),
        resolve_outcome(c, Some(x)) == (c, Some(x), Err::<(), Error>(
            Error::ReferencesWrongClient,
        )),
        chargeback_outcome(c, Some(x)) == (c, Some(x), Err::<(), Error>(
            Error::ReferencesWrongClient,
        )),
{
}

/// The transaction refers to another one: a dispute, a resolve or a chargeback.
pub open spec fn is_reference(t: Transaction) -> bool {
    t.ty == TransactionType::Dispute || t.ty == TransactionType::Resolve || t.ty
        == TransactionType::Chargeback
}

/// Processing a dispute, resolve or chargeback of a transaction id that was
/// never stored fails with `ReferenceDoesNotExist`, stores no transaction and
/// leaves the account as it was.
pub proof fn lemma_process_unknown_reference(
    txs: Map<u32, Transaction>,
    clients: Map<u16, Client>,
    t: Transaction,
)
    requires
        is_reference(t),
        !txs.contains_key(t.tx),
    ensures
        process_outcome(txs, clients, t) == (loaded_client(clients, t.client), None::<
            Transaction,
        >, Err::<(), Error>(Error::ReferenceDoesNotExist)),
        clients.contains_key(t.client) ==> process_step((txs, clients), t) == (txs, clients),
{
    if clients.contains_key(t.client) {
        assert(clients.insert(t.client, clients[t.client]) =~= clients);
    }
}

/// Processing a dispute, resolve or chargeback of a stored transaction of
/// another client fails with `ReferencesWrongClient`, stores no transaction
/// and leaves the account as it was.
pub proof fn lemma_process_foreign_reference(
    txs: Map<u32, Transaction>,
    clients: Map<u16, Client>,
    t: Transaction,
)
    requires
        keyed_by_id(txs, clients),
        is_reference(t),
        txs.contains_key(t.tx),
        txs[t.tx].client != t.client,
    ensures
        process_outcome(txs, clients, t) == (loaded_client(clients, t.client), None::<
            Transaction,
        >, Err::<(), Error>(Error::ReferencesWrongClient)),
        clients.contains_key(t.client) ==> process_step((txs, clients), t) == (txs, clients),
{
    assert(clients.contains_key(t.client) ==> clients[t.client].client == t.client);
    if clients.contains_key(t.client) {
        assert(clients.insert(t.client, clients[t.client]) =~= clients);
    }
}

/// Every account is balanced, `total == available + held`.
pub open spec fn all_balanced(clients: Map<u16, Client>) -> bool {
    forall|k: u16| #[trigger] clients.contains_key(k) ==> clients[k].balanced()
}

/// Processing any transaction keeps every stored account balanced: the
/// account it stores is balanced whenever all stored accounts were.
pub proof fn lemma_process_keeps_accounts_balanced(
    txs: Map<u32, Transaction>,
    clients: Map<u16, Client>,
    t: Transaction,
)
    requires
        all_balanced(clients),
    ensures
        all_balanced(clients.insert(t.client, process_outcome(txs, clients, t).0)),
{
    let c = loaded_client(clients, t.client);
    assert(c.balanced());
    lemma_operations_keep_balance(c, t, lookup(txs, t.tx));
}

/// The stored transactions and accounts after one transaction: what a call of
/// `process_transaction` leaves in a store that does not fail.
pub open spec fn process_step(
    state: (Map<u32, Transaction>, Map<u16, Client>),
    t: Transaction,
) -> (Map<u32, Transaction>, Map<u16, Client>) {
    let (c1, record, _) = process_outcome(state.0, state.1, t);
    (stored_after(state.0, record), state.1.insert(t.client, c1))
}

/// The stored transactions and accounts after processing `ts` in order,
/// one `process_transaction` call each, in a store that does not fail.
pub open spec fn process_all(
    txs: Map<u32, Transaction>,
    clients: Map<u16, Client>,
    ts: Seq<Transaction>,
) -> (Map<u32, Transaction>, Map<u16, Client>)
    decreases ts.len(),
{
    if ts.len() == 0 {
        (txs, clients)
    } else {
        process_step(process_all(txs, clients, ts.drop_last()), ts.last())
    }
}

/// Processing a sequence of deposits and withdrawals of one client leaves that
/// client's account as the ledger rules give it: starting from the stored
/// account (or a fresh one), `total` moves by exactly the accepted deposits
/// minus the accepted withdrawals, `total == available + held`, and `held`
/// and the lock are unchanged. An account is stored from the first call on.
pub proof fn lemma_process_cash_sequence(
    txs: Map<u32, Transaction>,
    clients: Map<u16, Client>,
    ts: Seq<Transaction>,
    id: u16,
)
    requires
        keyed_by_id(txs, clients),
        all_balanced(clients),
        all_cash(ts),
        forall|i: int| 0 <= i < ts.len() ==> #[trigger] ts[i].client == id,
    ensures
        ({
            let start = loaded_client(clients, id);
            let a = loaded_client(process_all(txs, clients, ts).1, id);
            &&& a == apply_cash(start, ts)
            &&& a.total == start.total + accepted_sum(start, ts)
            &&& a.balanced()
            &&& a.held == start.held
            &&& a.locked == start.locked
            &&& ts.len() > 0 ==> process_all(txs, clients, ts).1.contains_key(id)
        }),
    decreases ts.len(),
{
    let start = loaded_client(clients, id);
    assert(start.balanced() && start.client == id) by {
        if clients.contains_key(id) {
            assert(clients[id].client == id);
            assert(clients[id].balanced());
        }
    }
    if ts.len() > 0 {
        let front = ts.drop_last();
        let t = ts.last();
        assert(t == ts[ts.len() - 1]);
        assert forall|i: int| 0 <= i < front.len() implies #[trigger] front[i].ty
            == TransactionType::Deposit || front[i].ty == TransactionType::Withdrawal by {
            assert(front[i] == ts[i]);
        }
        assert forall|i: int| 0 <= i < front.len() implies #[trigger] front[i].client == id by {
            assert(front[i] == ts[i]);
        }
        lemma_process_cash_sequence(txs, clients, front, id);
        lemma_cash_sequence(start, front);
        let prev = process_all(txs, clients, front);
        assert(loaded_client(prev.1, id) == apply_cash(start, front));
    }
    lemma_cash_sequence(start, ts);
}

/// Processing a withdrawal of more than the account has available fails with
/// `InsufficientFunds`, stores no transaction and leaves the account as it
/// was: a store that held the account holds it unchanged.
pub proof fn lemma_process_withdrawal_beyond_available(
    txs: Map<u32, Transaction>,
    clients: Map<u16, Client>,
    t: Transaction,
)
    requires
        t.ty == TransactionType::Withdrawal,
        t.amount is Some,
        t.amount->Some_0 > loaded_client(clients, t.client).available,
    ensures
        process_outcome(txs, clients, t) == (loaded_client(clients, t.client), None::<
            Transaction,
        >, Err::<(), Error>(Error::InsufficientFunds)),
        clients.contains_key(t.client) ==> process_step((txs, clients), t) == (txs, clients),
{
    if clients.contains_key(t.client) {
        assert(clients.insert(t.client, clients[t.client]) =~= clients);
    }
}

} // verus!

use vstd::prelude::*;

verus! {

/// The error type of every operation of the library.
#[derive(Debug)]
pub enum Error {
    /// A deposit or withdrawal, or the transaction referenced by a dispute, has no amount.
    NoAmount,
    /// A withdrawal would leave fewer than zero available funds.
    InsufficientFunds,
    /// A dispute, resolve or chargeback references a transaction that was never stored.
    ReferenceDoesNotExist,
    /// A dispute, resolve or chargeback references a transaction of another client.
    ReferencesWrongClient,
    /// A resolve or chargeback references a transaction that is not under dispute.
    NotDisputed,
    /// A dispute references a transaction that is already under dispute.
    AlreadyDisputed,
    /// A balance would leave the range of `i64`.
    Overflow,
    /// The storage backend failed; the text says why.
    DbLayer(String),
}

/// The kinds of transaction.
#[derive(Debug, PartialEq, Eq, Structural, Clone, Copy)]
pub enum TransactionType {
    Deposit,
    Withdrawal,
    Dispute,
    Resolve,
    Chargeback,
}

/// A single transaction, as processed and as stored.
#[derive(Debug, PartialEq, Eq, Structural, Clone, Copy)]
pub struct Transaction {
    /// What the transaction does.
    pub ty: TransactionType,
    /// The client that every transaction is tied to.
    pub client: u16,
    /// The id of a deposit or withdrawal; disputes, resolutions and chargebacks
    /// carry the id of the transaction they refer to.
    pub tx: u32,
    /// The amount, scaled by 10,000; present for deposits and withdrawals only.
    pub amount: Option<i64>,
    /// Whether a stored deposit or withdrawal is currently under dispute.
    pub disputed: bool,
}

/// A transaction as it arrives from an input source, before any dispute.
#[derive(Debug, PartialEq, Eq, Structural, Clone, Copy)]
pub struct HumanReadableTransaction {
    pub ty: TransactionType,
    pub client: u16,
    pub tx: u32,
    pub amount: Option<i64>,
}

impl From<HumanReadableTransaction> for Transaction {
    fn from(transaction: HumanReadableTransaction) -> (r: Transaction)
        ensures
            r == Transaction::from_readable(transaction),
    {
        Transaction {
            ty: transaction.ty,
            client: transaction.client,
            tx: transaction.tx,
            amount: transaction.amount,
            disputed: false,
        }
    }
}

impl vstd::std_specs::convert::FromSpecImpl<HumanReadableTransaction> for Transaction {
    open spec fn obeys_from_spec() -> bool {
        true
    }

    open spec fn from_spec(v: HumanReadableTransaction) -> Transaction {
        Transaction::from_readable(v)
    }
}

impl Transaction {
    /// The transaction that an incoming record stands for: the same fields, not disputed.
    pub open spec fn from_readable(t: HumanReadableTransaction) -> Transaction {
        Transaction { ty: t.ty, client: t.client, tx: t.tx, amount: t.amount, disputed: false }
    }
}

/// The state of one client's account.
#[derive(Debug, PartialEq, Eq, Structural, Clone, Copy)]
pub struct Client {
    /// The client id.
    pub client: u16,
    /// Funds available for withdrawal or other use.
    pub available: i64,
    /// Funds held while a dispute is open.
    pub held: i64,
    /// All funds of the account, disputed or not.
    pub total: i64,
    /// Whether the account was locked by a chargeback.
    pub locked: bool,
}

impl Client {
    /// `total` equals `available + held`.
    pub open spec fn balanced(self) -> bool {
        self.total == self.available + self.held
    }

    /// The account that a client id starts with: zero balances, unlocked.
    pub open spec fn spec_fresh(id: u16) -> Client {
        Client { client: id, available: 0, held: 0, total: 0, locked: false }
    }

    /// A fresh account for the client `id`.
    pub fn fresh(id: u16) -> (r: Client)
        ensures
            r == Client::spec_fresh(id),
            r.balanced(),
    {
        Client { client: id, available: 0, held: 0, total: 0, locked: false }
    }
}

/// An account state as handed to an output sink.
#[derive(Debug, PartialEq, Eq, Structural, Clone, Copy)]
pub struct HumanReadableClient {
    pub client: u16,
    pub available: i64,
    pub held: i64,
    pub total: i64,
    pub locked: bool,
}

impl From<Client> for HumanReadableClient {
    fn from(client: Client) -> (r: HumanReadableClient)
        ensures
            r == HumanReadableClient::from_client(client),
    {
        HumanReadableClient {
            client: client.client,
            available: client.available,
            held: client.held,
            total: client.total,
            locked: client.locked,
        }
    }
}

impl vstd::std_specs::convert::FromSpecImpl<Client> for HumanReadableClient {
    open spec fn obeys_from_spec() -> bool {
        true
    }

    open spec fn from_spec(v: Client) -> HumanReadableClient {
        HumanReadableClient::from_client(v)
    }
}

impl HumanReadableClient {
    /// The same fields as the account.
    pub open spec fn from_client(c: Client) -> HumanReadableClient {
        HumanReadableClient {
            client: c.client,
            available: c.available,
            held: c.held,
            total: c.total,
            locked: c.locked,
        }
    }
}

} // verus!

//! The byte layout of stored records.
//!
//! Integers are little-endian and of fixed width; a transaction kind is a
//! `u32` index; an optional amount is a tag byte (0 absent, 1 present)
//! followed by the amount; a flag is one byte, 0 or 1.
//! A transaction takes 12 bytes without an amount and 20 with one; an account
//! takes 27. Keys are the record's id: 4 bytes for a transaction, 2 for an
//! account.
use vstd::prelude::*;

use crate::model::{Client, Transaction, TransactionType};

verus! {

/// The two little-endian bytes of `v`.
pub open spec fn u16_le(v: u16) -> Seq<u8> {
    seq![v as u8, (v >> 8u16) as u8]
}

/// The four little-endian bytes of `v`.
pub open spec fn u32_le(v: u32) -> Seq<u8> {
    seq![v as u8, (v >> 8u32) as u8, (v >> 16u32) as u8, (v >> 24u32) as u8]
}

/// The eight little-endian bytes of `v`.
pub open spec fn u64_le(v: u64) -> Seq<u8> {
    seq![
        v as u8,
        (v >> 8u64) as u8,
        (v >> 16u64) as u8,
        (v >> 24u64) as u8,
        (v >> 32u64) as u8,
        (v >> 40u64) as u8,
        (v >> 48u64) as u8,
        (v >> 56u64) as u8,
    ]
}

/// The `u16` whose little-endian bytes start `s`.
pub open spec fn le_u16(s: Seq<u8>) -> u16 {
    (s[0] as u16) | ((s[1] as u16) << 8u16)
}

/// The `u32` whose little-endian bytes start `s`.
pub open spec fn le_u32(s: Seq<u8>) -> u32 {
    (s[0] as u32) | ((s[1] as u32) << 8u32) | ((s[2] as u32) << 16u32) | ((s[3] as u32) << 24u32)
}

/// The `u64` whose little-endian bytes start `s`.
pub open spec fn le_u64(s: Seq<u8>) -> u64 {
    (s[0] as u64) | ((s[1] as u64) << 8u64) | ((s[2] as u64) << 16u64) | ((s[3] as u64) << 24u64)
        | ((s[4] as u64) << 32u64) | ((s[5] as u64) << 40u64) | ((s[6] as u64) << 48u64) | ((
    s[7] as u64) << 56u64)
}

/// The index that stands for a transaction kind.
pub open spec fn kind_index(k: TransactionType) -> u32 {
    match k {
        TransactionType::Deposit => 0,
        TransactionType::Withdrawal => 1,
        TransactionType::Dispute => 2,
        TransactionType::Resolve => 3,
        TransactionType::Chargeback => 4,
    }
}

/// The transaction kind of an index, if there is one.
pub open spec fn kind_of_index(i: u32) -> Option<TransactionType> {
    if i == 0 {
        Some(TransactionType::Deposit)
    } else if i == 1 {
        Some(TransactionType::Withdrawal)
    } else if i == 2 {
        Some(TransactionType::Dispute)
    } else if i == 3 {
        Some(TransactionType::Resolve)
    } else if i == 4 {
        Some(TransactionType::Chargeback)
    } else {
        None
    }
}

/// The byte of a flag.
pub open spec fn flag_byte(b: bool) -> u8 {
    if b {
        1
    } else {
        0
    }
}

/// The flag of a byte, if it is 0 or 1.
pub open spec fn flag_of_byte(b: u8) -> Option<bool> {
    if b == 0 {
        Some(false)
    } else if b == 1 {
        Some(true)
    } else {
        None
    }
}

/// The bytes of an optional amount.
pub open spec fn amount_bytes(a: Option<i64>) -> Seq<u8> {
    match a {
        None => seq![0u8],
        Some(v) => seq![1u8] + u64_le(v as u64),
    }
}

/// The stored bytes of a transaction.
pub open spec fn transaction_bytes(t: Transaction) -> Seq<u8> {
    u32_le(kind_index(t.ty)) + u16_le(t.client) + u32_le(t.tx) + amount_bytes(t.amount) + seq![
        flag_byte(t.disputed),
    ]
}

/// The transaction that `s` holds, if `s` is the stored form of one.
pub open spec fn transaction_of_bytes(s: Seq<u8>) -> Option<Transaction> {
    if s.len() < 12 {
        None
    } else {
        let kind = kind_of_index(le_u32(s.subrange(0, 4)));
        let client = le_u16(s.subrange(4, 6));
        let tx = le_u32(s.subrange(6, 10));
        let amount: Option<Option<i64>> = if s[10] == 0 && s.len() == 12 {
            Some(None)
        } else if s[10] == 1 && s.len() == 20 {
            Some(Some(le_u64(s.subrange(11, 19)) as i64))
        } else {
            None
        };
        let disputed = flag_of_byte(s[s.len() - 1]);
        if kind is Some && amount is Some && disputed is Some {
            Some(
                Transaction {
                    ty: kind->Some_0,
                    client,
                    tx,
                    amount: amount->Some_0,
                    disputed: disputed->Some_0,
                },
            )
        } else {
            None
        }
    }
}

/// The stored bytes of an account.
pub open spec fn client_bytes(c: Client) -> Seq<u8> {
    u16_le(c.client) + u64_le(c.available as u64) + u64_le(c.held as u64) + u64_le(
        c.total as u64,
    ) + seq![flag_byte(c.locked)]
}

/// The account that `s` holds, if `s` is the stored form of one.
pub open spec fn client_of_bytes(s: Seq<u8>) -> Option<Client> {
    if s.len() != 27 {
        None
    } else {
        match flag_of_byte(s[26]) {
            None => None,
            Some(locked) => Some(
                Client {
                    client: le_u16(s.subrange(0, 2)),
                    available: le_u64(s.subrange(2, 10)) as i64,
                    held: le_u64(s.subrange(10, 18)) as i64,
                    total: le_u64(s.subrange(18, 26)) as i64,
                    locked,
                },
            ),
        }
    }
}

pub proof fn lemma_u16_round_trip(v: u16)
    ensures
        le_u16(u16_le(v)) == v,
{
    assert(((v as u8) as u16 | (((v >> 8u16) as u8) as u16) << 8u16) == v) by (bit_vector);
}

pub proof fn lemma_u32_round_trip(v: u32)
    ensures
        le_u32(u32_le(v)) == v,
{
    assert(((v as u8) as u32 | (((v >> 8u32) as u8) as u32) << 8u32 | (((v >> 16u32) as u8) as u32)
        << 16u32 | (((v >> 24u32) as u8) as u32) << 24u32) == v) by (bit_vector);
}

pub proof fn lemma_u64_round_trip(v: u64)
    ensures
        le_u64(u64_le(v)) == v,
{
    assert(((v as u8) as u64 | (((v >> 8u64) as u8) as u64) << 8u64 | (((v >> 16u64) as u8) as u64)
        << 16u64 | (((v >> 24u64) as u8) as u64) << 24u64 | (((v >> 32u64) as u8) as u64) << 32u64
        | (((v >> 40u64) as u8) as u64) << 40u64 | (((v >> 48u64) as u8) as u64) << 48u64 | (((v
        >> 56u64) as u8) as u64) << 56u64) == v) by (bit_vector);
}

pub proof fn lemma_i64_round_trip(v: i64)
    ensures
        (le_u64(u64_le(v as u64)) as i64) == v,
{
    lemma_u64_round_trip(v as u64);
    assert(((v as u64) as i64) == v) by (bit_vector);
}

/// Distinct ids have distinct keys.
pub proof fn lemma_u16_le_injective(a: u16, b: u16)
    ensures
        u16_le(a) == u16_le(b) ==> a == b,
{
    lemma_u16_round_trip(a);
    lemma_u16_round_trip(b);
}

/// Distinct ids have distinct keys.
pub proof fn lemma_u32_le_injective(a: u32, b: u32)
    ensures
        u32_le(a) == u32_le(b) ==> a == b,
{
    lemma_u32_round_trip(a);
    lemma_u32_round_trip(b);
}

/// Decoding the stored form of a transaction gives the transaction back.
pub proof fn lemma_transaction_round_trip(t: Transaction)
    ensures
        transaction_of_bytes(transaction_bytes(t)) == Some(t),
{
    let s = transaction_bytes(t);
    let head = u32_le(kind_index(t.ty)) + u16_le(t.client) + u32_le(t.tx);
    assert(s.subrange(0, 4) =~= u32_le(kind_index(t.ty)));
    assert(s.subrange(4, 6) =~= u16_le(t.client));
    assert(s.subrange(6, 10) =~= u32_le(t.tx));
    lemma_u32_round_trip(kind_index(t.ty));
    lemma_u16_round_trip(t.client);
    lemma_u32_round_trip(t.tx);
    match t.amount {
        None => {
            assert(s[10] == 0);
        },
        Some(a) => {
            assert(s[10] == 1);
            assert(s.subrange(11, 19) =~= u64_le(a as u64));
            lemma_i64_round_trip(a);
        },
    }
}

/// Decoding the stored form of an account gives the account back.
pub proof fn lemma_client_round_trip(c: Client)
    ensures
        client_of_bytes(client_bytes(c)) == Some(c),
{
    let s = client_bytes(c);
    assert(s.subrange(0, 2) =~= u16_le(c.client));
    assert(s.subrange(2, 10) =~= u64_le(c.available as u64));
    assert(s.subrange(10, 18) =~= u64_le(c.held as u64));
    assert(s.subrange(18, 26) =~= u64_le(c.total as u64));
    lemma_u16_round_trip(c.client);
    lemma_i64_round_trip(c.available);
    lemma_i64_round_trip(c.held);
    lemma_i64_round_trip(c.total);
}

fn push_u16(out: &mut Vec<u8>, v: u16)
    ensures
        final(out)@ == old(out)@ + u16_le(v),
{
    out.push(v as u8);
    out.push((v >> 8u16) as u8);
    assert(final(out)@ =~= old(out)@ + u16_le(v));
}

fn push_u32(out: &mut Vec<u8>, v: u32)
    ensures
        final(out)@ == old(out)@ + u32_le(v),
{
    out.push(v as u8);
    out.push((v >> 8u32) as u8);
    out.push((v >> 16u32) as u8);
    out.push((v >> 24u32) as u8);
    assert(final(out)@ =~= old(out)@ + u32_le(v));
}

fn push_u64(out: &mut Vec<u8>, v: u64)
    ensures
        final(out)@ == old(out)@ + u64_le(v),
{
    out.push(v as u8);
    out.push((v >> 8u64) as u8);
    out.push((v >> 16u64) as u8);
    out.push((v >> 24u64) as u8);
    out.push((v >> 32u64) as u8);
    out.push((v >> 40u64) as u8);
    out.push((v >> 48u64) as u8);
    out.push((v >> 56u64) as u8);
    assert(final(out)@ =~= old(out)@ + u64_le(v));
}

fn read_u16(b: &[u8], i: usize) -> (r: u16)
    requires
        i + 2 <= b@.len(),
    ensures
        r == le_u16(b@.subrange(i as int, i + 2)),
{
    (b[i] as u16) | ((b[i + 1] as u16) << 8u16)
}

fn read_u32(b: &[u8], i: usize) -> (r: u32)
    requires
        i + 4 <= b@.len(),
    ensures
        r == le_u32(b@.subrange(i as int, i + 4)),
{
    (b[i] as u32) | ((b[i + 1] as u32) << 8u32) | ((b[i + 2] as u32) << 16u32) | ((b[i
        + 3] as u32) << 24u32)
}

fn read_u64(b: &[u8], i: usize) -> (r: u64)
    requires
        i + 8 <= b@.len(),
    ensures
        r == le_u64(b@.subrange(i as int, i + 8)),
{
    (b[i] as u64) | ((b[i + 1] as u64) << 8u64) | ((b[i + 2] as u64) << 16u64) | ((b[i
        + 3] as u64) << 24u64) | ((b[i + 4] as u64) << 32u64) | ((b[i + 5] as u64) << 40u64)
        | ((b[i + 6] as u64) << 48u64) | ((b[i + 7] as u64) << 56u64)
}

fn flag_to_byte(b: bool) -> (r: u8)
    ensures
        r == flag_byte(b),
{
    if b {
        1
    } else {
        0
    }
}

fn byte_to_flag(b: u8) -> (r: Option<bool>)
    ensures
        r == flag_of_byte(b),
{
    if b == 0 {
        Some(false)
    } else if b == 1 {
        Some(true)
    } else {
        None
    }
}

/// The index of a transaction kind.
pub fn kind_to_index(k: TransactionType) -> (r: u32)
    ensures
        r == kind_index(k),
{
    match k {
        TransactionType::Deposit => 0,
        TransactionType::Withdrawal => 1,
        TransactionType::Dispute => 2,
        TransactionType::Resolve => 3,
        TransactionType::Chargeback => 4,
    }
}

/// The transaction kind of an index, if there is one.
pub fn index_to_kind(i: u32) -> (r: Option<TransactionType>)
    ensures
        r == kind_of_index(i),
{
    if i == 0 {
        Some(TransactionType::Deposit)
    } else if i == 1 {
        Some(TransactionType::Withdrawal)
    } else if i == 2 {
        Some(TransactionType::Dispute)
    } else if i == 3 {
        Some(TransactionType::Resolve)
    } else if i == 4 {
        Some(TransactionType::Chargeback)
    } else {
        None
    }
}

/// The key under which the transaction `tx` is stored.
pub fn transaction_key(tx: u32) -> (r: Vec<u8>)
    ensures
        r@ == u32_le(tx),
{
    let mut out: Vec<u8> = Vec::new();
    push_u32(&mut out, tx);
    assert(out@ =~= u32_le(tx));
    out
}

/// The key under which the account `client` is stored.
pub fn client_key(client: u16) -> (r: Vec<u8>)
    ensures
        r@ == u16_le(client),
{
    let mut out: Vec<u8> = Vec::new();
    push_u16(&mut out, client);
    assert(out@ =~= u16_le(client));
    out
}

/// The stored form of a transaction.
pub fn encode_transaction(t: &Transaction) -> (r: Vec<u8>)
    ensures
        r@ == transaction_bytes(*t),
{
    let mut out: Vec<u8> = Vec::new();
    push_u32(&mut out, kind_to_index(t.ty));
    push_u16(&mut out, t.client);
    push_u32(&mut out, t.tx);
    match t.amount {
        None => out.push(0u8),
        Some(a) => {
            out.push(1u8);
            push_u64(&mut out, a as u64);
        },
    }
    out.push(flag_to_byte(t.disputed));
    assert(out@ =~= transaction_bytes(*t));
    out
}

/// The transaction that `b` holds, or `None` where `b` is not the stored form of one.
pub fn decode_transaction(b: &[u8]) -> (r: Option<Transaction>)
    ensures
        r == transaction_of_bytes(b@),
{
    let n = b.len();
    if n < 12 {
        return None;
    }
    let kind = index_to_kind(read_u32(b, 0));
    let client = read_u16(b, 4);
    let tx = read_u32(b, 6);
    let amount: Option<Option<i64>> = if b[10] == 0 && n == 12 {
        Some(None)
    } else if b[10] == 1 && n == 20 {
        Some(Some(read_u64(b, 11) as i64))
    } else {
        None
    };
    let disputed = byte_to_flag(b[n - 1]);
    match (kind, amount, disputed) {
        (Some(ty), Some(amount), Some(disputed)) => Some(
            Transaction { ty, client, tx, amount, disputed },
        ),
        _ => None,
    }
}

/// The stored form of an account.
pub fn encode_client(c: &Client) -> (r: Vec<u8>)
    ensures
        r@ == client_bytes(*c),
{
    let mut out: Vec<u8> = Vec::new();
    push_u16(&mut out, c.client);
    push_u64(&mut out, c.available as u64);
    push_u64(&mut out, c.held as u64);
    push_u64(&mut out, c.total as u64);
    out.push(flag_to_byte(c.locked));
    assert(out@ =~= client_bytes(*c));
    out
}

/// The account that `b` holds, or `None` where `b` is not the stored form of one.
pub fn decode_client(b: &[u8]) -> (r: Option<Client>)
    ensures
        r == client_of_bytes(b@),
{
    if b.len() != 27 {
        return None;
    }
    match byte_to_flag(b[26]) {
        None => None,
        Some(locked) => Some(
            Client {
                client: read_u16(b, 0),
                available: read_u64(b, 2) as i64,
                held: read_u64(b, 10) as i64,
                total: read_u64(b, 18) as i64,
                locked,
            },
        ),
    }
}

} // verus!

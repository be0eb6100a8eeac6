//! A ledger of client accounts driven by a stream of deposits, withdrawals,
//! disputes, resolutions and chargebacks.
//!
//! The library is laid out leaf first:
//! - [`model`]: transactions, client accounts and the error type;
//! - [`ledger`]: the rules that move money within one account;
//! - [`record`]: the byte layout of stored records;
//! - [`db_layer`]: the storage abstraction and its two backends;
//! - [`transaction_processing`]: one transaction end to end against a backend;
//! - [`laws`]: properties of the rules, proved;
//! - [`fixed_point_util`]: the text form of fixed-point amounts;
//! - [`writer`]: the sink that final account states are handed to.
pub mod db_layer;
pub mod fixed_point_util;
pub mod laws;
pub mod ledger;
pub mod model;
pub mod record;
pub mod transaction_processing;
pub mod writer;

pub use model::{Client, Error, HumanReadableClient, HumanReadableTransaction, Transaction, TransactionType};
pub use db_layer::hashmap::HashMapDb;
pub use db_layer::sled_db::SledDb;
pub use db_layer::DbLayer;
pub use transaction_processing::process_transaction;
pub use writer::ClientWriter;

//! A minimal append-only ledger: account balances, sequenced operations, and
//! hash-linked blocks cut from the log of accepted operations.

pub mod chain;
pub mod command;
pub mod laws;
pub mod ledger;

pub use chain::{Block, Chain};
pub use command::{Command, CommandName, ParseError, Reply};
pub use ledger::{Amount, Balance, LedgerError, Transaction, TransactionTypes, Transactor};

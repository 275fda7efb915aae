//! The ways in which handling a transaction, or a whole run, can fail.

use crate::amount::{decimal, decimal_string};
use vstd::prelude::*;
use vstd::string::StringExecFns;

verus! {

/// Why a transaction was rejected, or why a run could not be carried out.
#[derive(Debug, PartialEq, Eq)]
pub enum TxnFlowError {
    /// A withdrawal asked for more than the account has available.
    InsufficientFunds,
    /// A deposit record without an amount.
    InvalidDepositTransaction,
    /// A withdrawal record without an amount.
    InvalidWithdrawalTransaction,
    /// The transaction referred to is unknown, or belongs to another client.
    InvalidTransactionRef(u32),
    /// A resolution or chargeback of a transaction that is not under dispute.
    TransactionNotDisputed,
    /// A dispute of a transaction that is already under dispute.
    TransactionAlreadyDisputed,
    /// The account is locked and takes no further transactions.
    LockedAccount,
    /// The program was not given exactly one argument.
    InvalidArguments,
    /// The named input could not be read.
    IOException(String),
    /// An input record could not be decoded.
    DeserializationException,
    /// An output record could not be encoded.
    SerializationException,
}

impl TxnFlowError {
    /// The error in words.
    pub open spec fn message_text(self) -> Seq<char> {
        match self {
            TxnFlowError::InsufficientFunds => "Insufficient funds for a withdrawal"@,
            TxnFlowError::InvalidDepositTransaction => "`deposit` transaction must contain `amount`"@,
            TxnFlowError::InvalidWithdrawalTransaction => "`withdrawal` transaction must contain `amount`"@,
            TxnFlowError::InvalidTransactionRef(id) => "Transaction not found: "@ + decimal(
                id as nat,
            ),
            TxnFlowError::TransactionNotDisputed => "Referenced a transaction that is not under dispute"@,
            TxnFlowError::TransactionAlreadyDisputed => "Disputing a transaction that is already under dispute"@,
            TxnFlowError::LockedAccount => "Attempted transaction on a locked account"@,
            TxnFlowError::InvalidArguments => "This program must be called with a single argument referring to a csv file"@,
            TxnFlowError::IOException(name) => "Failed reading "@ + name@,
            TxnFlowError::DeserializationException => "Failed deserializing record in csv"@,
            TxnFlowError::SerializationException => "Failed serializing record to csv"@,
        }
    }

    /// How grave the error is when a transaction is rejected with it.
    ///
    /// A transaction that the client's funds or lock forbid, or that lacks its
    /// amount, is an error; anything else is a warning.
    pub open spec fn level(self) -> Level {
        match self {
            TxnFlowError::InsufficientFunds
            | TxnFlowError::InvalidWithdrawalTransaction
            | TxnFlowError::InvalidDepositTransaction
            | TxnFlowError::LockedAccount => Level::Error,
            _ => Level::Warn,
        }
    }

    /// The error in words.
    pub fn message(&self) -> (text: String)
        ensures
            text@ == self.message_text(),
    {
        match self {
            TxnFlowError::InsufficientFunds => String::from_str(
                "Insufficient funds for a withdrawal",
            ),
            TxnFlowError::InvalidDepositTransaction => String::from_str(
                "`deposit` transaction must contain `amount`",
            ),
            TxnFlowError::InvalidWithdrawalTransaction => String::from_str(
                "`withdrawal` transaction must contain `amount`",
            ),
            TxnFlowError::InvalidTransactionRef(id) => {
                let mut text = String::from_str("Transaction not found: ");
                text.append(decimal_string(*id as u128).as_str());
                text
            },
            TxnFlowError::TransactionNotDisputed => String::from_str(
                "Referenced a transaction that is not under dispute",
            ),
            TxnFlowError::TransactionAlreadyDisputed => String::from_str(
                "Disputing a transaction that is already under dispute",
            ),
            TxnFlowError::LockedAccount => String::from_str(
                "Attempted transaction on a locked account",
            ),
            TxnFlowError::InvalidArguments => String::from_str(
                "This program must be called with a single argument referring to a csv file",
            ),
            TxnFlowError::IOException(name) => {
                let mut text = String::from_str("Failed reading ");
                text.append(name.as_str());
                text
            },
            TxnFlowError::DeserializationException => String::from_str(
                "Failed deserializing record in csv",
            ),
            TxnFlowError::SerializationException => String::from_str(
                "Failed serializing record to csv",
            ),
        }
    }
}

/// How grave a log entry is.
#[derive(Clone, Copy, Debug, PartialEq, Eq, Structural)]
pub enum Level {
    Error,
    Warn,
}

/// A line for the log: how grave it is, and what it says.
#[derive(Debug, PartialEq, Eq)]
pub struct LogEntry {
    pub level: Level,
    pub message: String,
}

/// The log entry for a transaction rejected with `e`: the error's level and
/// its message.
pub fn log_error(e: TxnFlowError) -> (entry: LogEntry)
    ensures
        entry.level == e.level(),
        entry.message@ == e.message_text(),
{
    let level = match &e {
        TxnFlowError::InsufficientFunds
        | TxnFlowError::InvalidWithdrawalTransaction
        | TxnFlowError::InvalidDepositTransaction => Level::Error,
        TxnFlowError::LockedAccount => Level::Error,
        _ => Level::Warn,
    };
    LogEntry { level, message: e.message() }
}

} // verus!

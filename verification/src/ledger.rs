//! The mathematical model of the engine: what is recorded, what every client
//! holds, and what one transaction makes of both.

use crate::accounts::Balance;
use crate::database::{balance_of, record, StoredTxn};
use crate::errors::TxnFlowError;
use crate::txn::{Txn, TxnType};
use vstd::prelude::*;

verus! {

/// The state of the engine: the recorded transactions by id and the balances
/// by client.
#[verifier::ext_equal]
pub struct Ledger {
    pub records: Map<u32, StoredTxn>,
    pub accounts: Map<u16, Balance>,
}

impl Ledger {
    /// The state before any transaction.
    pub open spec fn empty() -> Ledger {
        Ledger { records: Map::empty(), accounts: Map::empty() }
    }

    /// What `client` holds; a client without an account holds nothing.
    pub open spec fn balance(self, client: u16) -> Balance {
        balance_of(self.accounts, client)
    }

    /// The recorded transaction that `txn` refers to: the one stored under
    /// its id, provided that it belongs to the same client.
    pub open spec fn reference(self, txn: Txn) -> Option<StoredTxn> {
        if self.records.contains_key(txn.id) && self.records[txn.id].client == txn.client {
            Some(self.records[txn.id])
        } else {
            None
        }
    }

    /// The ledger once `client` has an account: a new, empty one where there
    /// was none.
    pub open spec fn opened(self, client: u16) -> Ledger {
        Ledger { records: self.records, accounts: self.accounts.insert(client, self.balance(client)) }
    }

    /// The ledger with `balance` as what `client` holds.
    pub open spec fn with_balance(self, client: u16, balance: Balance) -> Ledger {
        Ledger { records: self.records, accounts: self.accounts.insert(client, balance) }
    }

    /// The ledger with the dispute flag of the transaction recorded under
    /// `id` set to `disputed`.
    pub open spec fn with_disputed(self, id: u32, disputed: bool) -> Ledger {
        Ledger {
            records: self.records.insert(id, StoredTxn { disputed, ..self.records[id] }),
            accounts: self.accounts,
        }
    }

    /// The ledger after `outcome`, the result of applying a transaction that
    /// refers to the record under `id` to the account of `client`. The new
    /// balance is stored; the record's dispute flag becomes `disputed` if the
    /// account accepted the transaction.
    pub open spec fn settled(
        self,
        client: u16,
        outcome: (Balance, Result<(), TxnFlowError>),
        id: u32,
        disputed: bool,
    ) -> (Ledger, Result<(), TxnFlowError>) {
        let ledger = self.with_balance(client, outcome.0);
        if outcome.1 is Ok {
            (ledger.with_disputed(id, disputed), outcome.1)
        } else {
            (ledger, outcome.1)
        }
    }

    /// What one transaction makes of the ledger, and whether it is accepted.
    ///
    /// The transaction is recorded if it is a deposit or withdrawal, and the
    /// client's account is opened if there was none; both happen whether or
    /// not the transaction is then accepted. A record that cannot be stored
    /// ends the step. Otherwise a deposit or withdrawal is applied to the
    /// account. A dispute, resolution or chargeback must refer to a recorded
    /// transaction of the same client, which must not be under dispute for a
    /// dispute and must be for the other two; it is then applied to the
    /// account, and a dispute or resolution that the account accepts sets or
    /// clears the record's dispute flag.
    pub open spec fn step(self, txn: Txn) -> (Ledger, Result<(), TxnFlowError>) {
        let (records, stored) = record(self.records, txn);
        let ledger = Ledger { records, accounts: self.accounts }.opened(txn.client);
        let balance = ledger.balance(txn.client);
        if stored is Err {
            (ledger, stored)
        } else {
            match txn.kind {
                TxnType::Deposit => {
                    let outcome = balance.deposit(txn.amount->0 as int);
                    (ledger.with_balance(txn.client, outcome.0), outcome.1)
                },
                TxnType::Withdrawal => {
                    let outcome = balance.withdraw(txn.amount->0 as int);
                    (ledger.with_balance(txn.client, outcome.0), outcome.1)
                },
                TxnType::Dispute => match ledger.reference(txn) {
                    None => (ledger, Err(TxnFlowError::InvalidTransactionRef(txn.id))),
                    Some(reference) => if reference.disputed {
                        (ledger, Err(TxnFlowError::TransactionAlreadyDisputed))
                    } else {
                        ledger.settled(txn.client, balance.open_dispute(reference), txn.id, true)
                    },
                },
                TxnType::Resolve => match ledger.reference(txn) {
                    None => (ledger, Err(TxnFlowError::InvalidTransactionRef(txn.id))),
                    Some(reference) => if !reference.disputed {
                        (ledger, Err(TxnFlowError::TransactionNotDisputed))
                    } else {
                        ledger.settled(
                            txn.client,
                            balance.resolve_dispute(reference),
                            txn.id,
                            false,
                        )
                    },
                },
                TxnType::Chargeback => match ledger.reference(txn) {
                    None => (ledger, Err(TxnFlowError::InvalidTransactionRef(txn.id))),
                    Some(reference) => if !reference.disputed {
                        (ledger, Err(TxnFlowError::TransactionNotDisputed))
                    } else {
                        let outcome = balance.chargeback(reference);
                        (ledger.with_balance(txn.client, outcome.0), outcome.1)
                    },
                },
            }
        }
    }

    /// The balances that `txn` leaves its client with can be stored in an
    /// account.
    pub open spec fn admits(self, txn: Txn) -> bool {
        self.step(txn).0.balance(txn.client).fits()
    }

    /// The ledger after the transactions `txns`, applied in order.
    pub open spec fn run(self, txns: Seq<Txn>) -> Ledger
        decreases txns.len(),
    {
        if txns.len() == 0 {
            self
        } else {
            self.run(txns.drop_last()).step(txns.last()).0
        }
    }
}

} // verus!

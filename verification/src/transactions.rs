//! The manager that takes each transaction through the stores.

use crate::accounts::UserAccount;
use crate::database::{AccountsStore, TxnStore};
use crate::errors::TxnFlowError;
use crate::ledger::Ledger;
use crate::txn::{Txn, TxnType};
use vstd::prelude::*;

verus! {

/// Applies transactions, one at a time and in the order given, to a
/// transaction store and an account store.
pub struct TxnManager<T: TxnStore, A: AccountsStore> {
    pub txn_store: T,
    pub account_store: A,
}

impl<T: TxnStore, A: AccountsStore> View for TxnManager<T, A> {
    type V = Ledger;

    open spec fn view(&self) -> Ledger {
        Ledger { records: self.txn_store.records(), accounts: self.account_store.accounts() }
    }
}

impl<T: TxnStore, A: AccountsStore> TxnManager<T, A> {
    /// Whether `txn` can be applied: whether the balances it would leave its
    /// client with can be stored in an account.
    pub fn admits(&self, txn: &Txn) -> (b: bool)
        ensures
            b == self@.admits(*txn),
    {
        let fresh = UserAccount::new();
        let account = match self.account_store.get_account(txn.client) {
            Some(account) => account,
            None => &fresh,
        };
        proof {
            account.lemma_fits();
        }
        match txn.kind {
            TxnType::Deposit => match txn.amount {
                Some(amount) => account.admits_deposit(amount),
                None => true,
            },
            TxnType::Withdrawal => true,
            TxnType::Dispute => match self.txn_store.get_txn(txn.id) {
                Some(ref_txn) => ref_txn.client != txn.client || ref_txn.disputed
                    || account.admits_dispute(ref_txn),
                None => true,
            },
            TxnType::Resolve => match self.txn_store.get_txn(txn.id) {
                Some(ref_txn) => ref_txn.client != txn.client || !ref_txn.disputed
                    || account.admits_resolve(ref_txn),
                None => true,
            },
            TxnType::Chargeback => match self.txn_store.get_txn(txn.id) {
                Some(ref_txn) => ref_txn.client != txn.client || !ref_txn.disputed
                    || account.admits_chargeback(ref_txn),
                None => true,
            },
        }
    }

    /// Applies `txn` if it can be applied. Where the balances it would leave
    /// could not be stored, nothing changes and the result is `None`.
    pub fn try_process(&mut self, txn: Txn) -> (r: Option<Result<(), TxnFlowError>>)
        ensures
            r is Some <==> old(self)@.admits(txn),
            match r {
                Some(result) => (final(self)@, result) == old(self)@.step(txn),
                None => final(self)@ == old(self)@,
            },
    {
        if self.admits(&txn) {
            Some(self.process(txn))
        } else {
            None
        }
    }

    /// Applies `txn`: the stores become what [`Ledger::step`] says, and the
    /// result is its verdict. The balances that `txn` leaves must be in range
    /// (see [`TxnManager::admits`]); [`TxnManager::try_process`] asks for
    /// nothing.
    pub fn process(&mut self, txn: Txn) -> (r: Result<(), TxnFlowError>)
        requires
            old(self)@.admits(txn),
        ensures
            (final(self)@, r) == old(self)@.step(txn),
    {
        // Record the transaction and fetch the client's account.
        let stored = self.txn_store.store_txn(&txn);
        let account = self.account_store.get_or_create_account(txn.client);

        let result = match stored {
            // A transaction that could not be recorded goes no further.
            Err(e) => Err(e),
            Ok(()) => match txn.kind {
                TxnType::Deposit => account.process_deposit(txn),
                TxnType::Withdrawal => account.process_withdrawal(txn),
                TxnType::Dispute => match self.txn_store.get_txn_mut(txn.id) {
                    // The transaction referred to must exist and belong to the client.
                    Some(ref_txn) => {
                        if ref_txn.client != txn.client {
                            Err(TxnFlowError::InvalidTransactionRef(txn.id))
                        } else if !ref_txn.disputed {
                            let result = account.process_dispute(ref_txn);
                            if result.is_ok() {
                                ref_txn.disputed = true;
                            }
                            result
                        } else {
                            Err(TxnFlowError::TransactionAlreadyDisputed)
                        }
                    },
                    None => Err(TxnFlowError::InvalidTransactionRef(txn.id)),
                },
                TxnType::Resolve => match self.txn_store.get_txn_mut(txn.id) {
                    Some(ref_txn) => {
                        if ref_txn.client != txn.client {
                            Err(TxnFlowError::InvalidTransactionRef(txn.id))
                        } else if ref_txn.disputed {
                            let result = account.process_resolve(ref_txn);
                            if result.is_ok() {
                                ref_txn.disputed = false;
                            }
                            result
                        } else {
                            Err(TxnFlowError::TransactionNotDisputed)
                        }
                    },
                    None => Err(TxnFlowError::InvalidTransactionRef(txn.id)),
                },
                TxnType::Chargeback => match self.txn_store.get_txn(txn.id) {
                    Some(ref_txn) => {
                        if ref_txn.client != txn.client {
                            Err(TxnFlowError::InvalidTransactionRef(txn.id))
                        } else if ref_txn.disputed {
                            account.process_chargeback(ref_txn)
                        } else {
                            Err(TxnFlowError::TransactionNotDisputed)
                        }
                    },
                    None => Err(TxnFlowError::InvalidTransactionRef(txn.id)),
                },
            },
        };
        proof {
            assert(self@ =~= old(self)@.step(txn).0);
        }
        result
    }
}

} // verus!

//! A client's account: its balances and the rules by which they change.

use crate::database::{StoredTxn, StoredTxnType};
use crate::errors::TxnFlowError;
use crate::txn::{Txn, TxnType};
use vstd::prelude::*;

verus! {

/// The mathematical state of an account: unbounded balances and the lock.
pub struct Balance {
    pub available: int,
    pub held: int,
    pub locked: bool,
}

impl Balance {
    /// The state of an account that has seen no transaction.
    pub open spec fn zero() -> Balance {
        Balance { available: 0, held: 0, locked: false }
    }

    /// Everything the account holds: available and held funds together.
    pub open spec fn total(self) -> int {
        self.available + self.held
    }

    /// Both balances are in range: an account can store them.
    pub open spec fn fits(self) -> bool {
        &&& i64::MIN <= self.available <= i64::MAX
        &&& i64::MIN <= self.held <= i64::MAX
    }

    /// The balances moved by the given differences; the lock is kept.
    pub open spec fn shifted(self, available: int, held: int) -> Balance {
        Balance { available: self.available + available, held: self.held + held, locked: self.locked }
    }

    /// A deposit of `amount`: credited to the available funds unless the
    /// account is locked.
    pub open spec fn deposit(self, amount: int) -> (Balance, Result<(), TxnFlowError>) {
        if self.locked {
            (self, Err(TxnFlowError::LockedAccount))
        } else {
            (self.shifted(amount, 0), Ok(()))
        }
    }

    /// A withdrawal of `amount`: taken from the available funds if they
    /// cover it and the account is not locked.
    pub open spec fn withdraw(self, amount: int) -> (Balance, Result<(), TxnFlowError>) {
        if self.locked {
            (self, Err(TxnFlowError::LockedAccount))
        } else if self.available >= amount {
            (self.shifted(-amount, 0), Ok(()))
        } else {
            (self, Err(TxnFlowError::InsufficientFunds))
        }
    }

    /// A dispute of `reference`: its amount becomes held. For a deposit the
    /// amount leaves the available funds; for a withdrawal it had left them
    /// already.
    pub open spec fn open_dispute(self, reference: StoredTxn) -> (Balance, Result<(), TxnFlowError>) {
        if self.locked {
            (self, Err(TxnFlowError::LockedAccount))
        } else {
            match reference.kind {
                StoredTxnType::Deposit => (
                    self.shifted(-(reference.amount as int), reference.amount as int),
                    Ok(()),
                ),
                StoredTxnType::Withdrawal => (self.shifted(0, reference.amount as int), Ok(())),
            }
        }
    }

    /// The resolution of a dispute of `reference`: what the dispute moved is
    /// moved back.
    pub open spec fn resolve_dispute(self, reference: StoredTxn) -> (
        Balance,
        Result<(), TxnFlowError>,
    ) {
        if self.locked {
            (self, Err(TxnFlowError::LockedAccount))
        } else {
            match reference.kind {
                StoredTxnType::Deposit => (
                    self.shifted(reference.amount as int, -(reference.amount as int)),
                    Ok(()),
                ),
                StoredTxnType::Withdrawal => (self.shifted(0, -(reference.amount as int)), Ok(())),
            }
        }
    }

    /// A chargeback of the disputed `reference`: the held amount is released
    /// and the account is locked. A deposit is thereby lost to the client; a
    /// withdrawal is undone, its amount returning to the available funds.
    pub open spec fn chargeback(self, reference: StoredTxn) -> (Balance, Result<(), TxnFlowError>) {
        if self.locked {
            (self, Err(TxnFlowError::LockedAccount))
        } else {
            let moved = match reference.kind {
                StoredTxnType::Deposit => self.shifted(0, -(reference.amount as int)),
                StoredTxnType::Withdrawal => self.shifted(
                    reference.amount as int,
                    -(reference.amount as int),
                ),
            };
            (Balance { locked: true, ..moved }, Ok(()))
        }
    }
}

/// Whether `value` can be stored as a balance.
fn in_range(value: i128) -> (b: bool)
    ensures
        b == (i64::MIN <= value <= i64::MAX),
{
    i64::MIN as i128 <= value && value <= i64::MAX as i128
}

/// What is reported of one client's account at the end of a run.
#[derive(Clone, Copy, Debug, PartialEq, Eq)]
pub struct OutputAccount {
    pub client: u16,
    pub available: i64,
    pub held: i64,
    pub total: i128,
    pub locked: bool,
}

impl OutputAccount {
    /// This report is that of `balance`: the balances, their sum and the
    /// lock are those of `balance`.
    pub open spec fn reports(self, balance: Balance) -> bool {
        &&& self.available == balance.available
        &&& self.held == balance.held
        &&& self.total == balance.total()
        &&& self.locked == balance.locked
    }
}

/// A client's account.
#[derive(Debug)]
pub struct UserAccount {
    available: i64,
    held: i64,
    locked: bool,
}

impl View for UserAccount {
    type V = Balance;

    closed spec fn view(&self) -> Balance {
        Balance { available: self.available as int, held: self.held as int, locked: self.locked }
    }
}

impl UserAccount {
    /// The balances of an account are in range.
    pub proof fn lemma_fits(self)
        ensures
            self@.fits(),
    {
    }

    /// The account as it is reported: the balances, their sum and the lock.
    pub fn as_output_account(&self, client: u16) -> (out: OutputAccount)
        ensures
            out.client == client,
            out.reports(self@),
            out.total == out.available + out.held,
    {
        OutputAccount {
            client,
            available: self.available,
            held: self.held,
            total: self.available as i128 + self.held as i128,
            locked: self.locked,
        }
    }

    /// An account that has seen no transaction.
    pub fn new() -> (account: UserAccount)
        ensures
            account@ == Balance::zero(),
    {
        UserAccount { available: 0, held: 0, locked: false }
    }

    /// Whether a deposit of `amount` leaves balances that the account can
    /// store.
    pub fn admits_deposit(&self, amount: u64) -> (b: bool)
        ensures
            b == self@.deposit(amount as int).0.fits(),
    {
        self.locked || in_range(self.available as i128 + amount as i128)
    }

    /// Whether a dispute of `ref_txn` leaves balances that the account can
    /// store.
    pub fn admits_dispute(&self, ref_txn: &StoredTxn) -> (b: bool)
        ensures
            b == self@.open_dispute(*ref_txn).0.fits(),
    {
        self.locked || match ref_txn.kind {
            StoredTxnType::Deposit => in_range(self.available as i128 - ref_txn.amount as i128)
                && in_range(self.held as i128 + ref_txn.amount as i128),
            StoredTxnType::Withdrawal => in_range(self.held as i128 + ref_txn.amount as i128),
        }
    }

    /// Whether resolving the dispute of `ref_txn` leaves balances that the
    /// account can store.
    pub fn admits_resolve(&self, ref_txn: &StoredTxn) -> (b: bool)
        ensures
            b == self@.resolve_dispute(*ref_txn).0.fits(),
    {
        self.locked || match ref_txn.kind {
            StoredTxnType::Deposit => in_range(self.available as i128 + ref_txn.amount as i128)
                && in_range(self.held as i128 - ref_txn.amount as i128),
            StoredTxnType::Withdrawal => in_range(self.held as i128 - ref_txn.amount as i128),
        }
    }

    /// Whether a chargeback of `ref_txn` leaves balances that the account can
    /// store.
    pub fn admits_chargeback(&self, ref_txn: &StoredTxn) -> (b: bool)
        ensures
            b == self@.chargeback(*ref_txn).0.fits(),
    {
        self.locked || match ref_txn.kind {
            StoredTxnType::Deposit => in_range(self.held as i128 - ref_txn.amount as i128),
            StoredTxnType::Withdrawal => in_range(self.held as i128 - ref_txn.amount as i128)
                && in_range(self.available as i128 + ref_txn.amount as i128),
        }
    }

    /// Applies the deposit `txn`, which must carry its amount: the amount is
    /// credited to the available funds unless the account is locked. The
    /// balances must stay in range (see [`UserAccount::admits_deposit`]).
    pub fn process_deposit(&mut self, txn: Txn) -> (r: Result<(), TxnFlowError>)
        requires
            txn.kind == TxnType::Deposit,
            txn.amount is Some,
            old(self)@.deposit(txn.amount->0 as int).0.fits(),
        ensures
            (final(self)@, r) == old(self)@.deposit(txn.amount->0 as int),
    {
        let amount: u64 = txn.amount.unwrap();
        if !self.locked {
            self.available = (self.available as i128 + amount as i128) as i64;
            Ok(())
        } else {
            Err(TxnFlowError::LockedAccount)
        }
    }

    /// Applies the withdrawal `txn`, which must carry its amount: the amount
    /// is taken from the available funds if they cover it and the account is
    /// not locked.
    pub fn process_withdrawal(&mut self, txn: Txn) -> (r: Result<(), TxnFlowError>)
        requires
            txn.kind == TxnType::Withdrawal,
            txn.amount is Some,
        ensures
            (final(self)@, r) == old(self)@.withdraw(txn.amount->0 as int),
            r is Ok <==> !old(self)@.locked && txn.amount->0 <= old(self)@.available,
            old(self)@.available >= 0 ==> final(self)@.available >= 0,
    {
        let amount: u64 = txn.amount.unwrap();
        if !self.locked {
            if self.available as i128 >= amount as i128 {
                self.available = (self.available as i128 - amount as i128) as i64;
                Ok(())
            } else {
                Err(TxnFlowError::InsufficientFunds)
            }
        } else {
            Err(TxnFlowError::LockedAccount)
        }
    }

    /// Opens a dispute of the recorded transaction `ref_txn`: its amount
    /// becomes held unless the account is locked. The balances must stay in
    /// range (see [`UserAccount::admits_dispute`]).
    pub fn process_dispute(&mut self, ref_txn: &StoredTxn) -> (r: Result<(), TxnFlowError>)
        requires
            old(self)@.open_dispute(*ref_txn).0.fits(),
        ensures
            (final(self)@, r) == old(self)@.open_dispute(*ref_txn),
    {
        if !self.locked {
            match ref_txn.kind {
                StoredTxnType::Deposit => {
                    self.available = (self.available as i128 - ref_txn.amount as i128) as i64;
                    self.held = (self.held as i128 + ref_txn.amount as i128) as i64;
                },
                StoredTxnType::Withdrawal => {
                    self.held = (self.held as i128 + ref_txn.amount as i128) as i64;
                },
            }
            Ok(())
        } else {
            Err(TxnFlowError::LockedAccount)
        }
    }

    /// Resolves the dispute of the recorded transaction `ref_txn`: what the
    /// dispute moved is moved back unless the account is locked. The balances
    /// must stay in range (see [`UserAccount::admits_resolve`]).
    pub fn process_resolve(&mut self, ref_txn: &StoredTxn) -> (r: Result<(), TxnFlowError>)
        requires
            old(self)@.resolve_dispute(*ref_txn).0.fits(),
        ensures
            (final(self)@, r) == old(self)@.resolve_dispute(*ref_txn),
    {
        if !self.locked {
            match ref_txn.kind {
                StoredTxnType::Deposit => {
                    self.available = (self.available as i128 + ref_txn.amount as i128) as i64;
                    self.held = (self.held as i128 - ref_txn.amount as i128) as i64;
                },
                StoredTxnType::Withdrawal => {
                    self.held = (self.held as i128 - ref_txn.amount as i128) as i64;
                },
            }
            Ok(())
        } else {
            Err(TxnFlowError::LockedAccount)
        }
    }

    /// Charges back the disputed transaction `ref_txn` and locks the account,
    /// unless it is locked already. The balances must stay in range (see
    /// [`UserAccount::admits_chargeback`]).
    pub fn process_chargeback(&mut self, ref_txn: &StoredTxn) -> (r: Result<(), TxnFlowError>)
        requires
            old(self)@.chargeback(*ref_txn).0.fits(),
        ensures
            (final(self)@, r) == old(self)@.chargeback(*ref_txn),
    {
        if !self.locked {
            match ref_txn.kind {
                StoredTxnType::Deposit => {
                    self.held = (self.held as i128 - ref_txn.amount as i128) as i64;
                },
                StoredTxnType::Withdrawal => {
                    self.held = (self.held as i128 - ref_txn.amount as i128) as i64;
                    self.available = (self.available as i128 + ref_txn.amount as i128) as i64;
                },
            }
            self.locked = true;
            Ok(())
        } else {
            Err(TxnFlowError::LockedAccount)
        }
    }
}

} // verus!

//! The stores that hold recorded transactions and client accounts.

use crate::accounts::{Balance, OutputAccount, UserAccount};
use crate::errors::TxnFlowError;
use crate::txn::{Txn, TxnType};
use std::collections::hash_map::Entry;
use std::collections::HashMap;
use vstd::prelude::*;

verus! {

/// The kinds of transaction that are recorded and can later be disputed.
#[derive(Clone, Copy, Debug, PartialEq, Eq, Structural)]
pub enum StoredTxnType {
    Deposit,
    Withdrawal,
}

/// A deposit or withdrawal as the transaction store keeps it.
#[derive(Clone, Copy, Debug, PartialEq, Eq)]
pub struct StoredTxn {
    pub client: u16,
    pub kind: StoredTxnType,
    pub amount: u64,
    pub disputed: bool,
}

/// What recording `txn` makes of the recorded transactions, and whether it
/// is accepted.
///
/// A deposit or withdrawal that carries an amount is stored under its id, not
/// disputed, in place of whatever was stored under that id. One without an
/// amount is refused. Records of other kinds leave the store as it was.
pub open spec fn record(records: Map<u32, StoredTxn>, txn: Txn) -> (
    Map<u32, StoredTxn>,
    Result<(), TxnFlowError>,
) {
    match (txn.kind, txn.amount) {
        (TxnType::Deposit, Some(amount)) => (
            records.insert(
                txn.id,
                StoredTxn {
                    client: txn.client,
                    kind: StoredTxnType::Deposit,
                    amount,
                    disputed: false,
                },
            ),
            Ok(()),
        ),
        (TxnType::Deposit, None) => (records, Err(TxnFlowError::InvalidDepositTransaction)),
        (TxnType::Withdrawal, Some(amount)) => (
            records.insert(
                txn.id,
                StoredTxn {
                    client: txn.client,
                    kind: StoredTxnType::Withdrawal,
                    amount,
                    disputed: false,
                },
            ),
            Ok(()),
        ),
        (TxnType::Withdrawal, None) => (records, Err(TxnFlowError::InvalidWithdrawalTransaction)),
        _ => (records, Ok(())),
    }
}

/// The balance that `accounts` holds for `client`: that of a new account
/// where the client has none yet.
pub open spec fn balance_of(accounts: Map<u16, Balance>, client: u16) -> Balance {
    if accounts.contains_key(client) {
        accounts[client]
    } else {
        Balance::zero()
    }
}

/// A store of recorded deposits and withdrawals, found by transaction id.
pub trait TxnStore {
    /// The recorded transactions.
    spec fn records(&self) -> Map<u32, StoredTxn>;

    /// The transaction recorded under `id`, if there is one.
    fn get_txn(&self, id: u32) -> (r: Option<&StoredTxn>)
        ensures
            match r {
                Some(t) => self.records().contains_key(id) && *t == self.records()[id],
                None => !self.records().contains_key(id),
            },
    ;

    /// The transaction recorded under `id`, if there is one, to be changed in
    /// place. Nothing else in the store changes.
    fn get_txn_mut(&mut self, id: u32) -> (r: Option<&mut StoredTxn>)
        ensures
            match r {
                Some(t) => {
                    &&& old(self).records().contains_key(id)
                    &&& *t == old(self).records()[id]
                    &&& final(self).records() == old(self).records().insert(id, *final(t))
                },
                None => {
                    &&& !old(self).records().contains_key(id)
                    &&& final(self).records() == old(self).records()
                },
            },
    ;

    /// Records `txn` if it is a deposit or a withdrawal.
    fn store_txn(&mut self, txn: &Txn) -> (r: Result<(), TxnFlowError>)
        ensures
            (final(self).records(), r) == record(old(self).records(), *txn),
    ;
}

/// A store of client accounts, found by client id.
pub trait AccountsStore {
    /// The balances of the clients that have an account.
    spec fn accounts(&self) -> Map<u16, Balance>;

    /// The account of client `id`, if the client has one.
    fn get_account(&self, id: u16) -> (r: Option<&UserAccount>)
        ensures
            match r {
                Some(account) => self.accounts().contains_key(id) && account@
                    == self.accounts()[id],
                None => !self.accounts().contains_key(id),
            },
    ;

    /// The account of client `id`, to be changed in place; a new one is
    /// opened where the client has none. No other account changes.
    fn get_or_create_account(&mut self, id: u16) -> (r: &mut UserAccount)
        ensures
            r@ == balance_of(old(self).accounts(), id),
            final(self).accounts() == old(self).accounts().insert(id, final(r)@),
    ;
}

/// A transaction store held in memory.
pub struct MemTxnStore {
    txns: HashMap<u32, StoredTxn>,
}

impl MemTxnStore {
    /// A store with no transaction recorded.
    pub fn new() -> (store: MemTxnStore)
        ensures
            store.records() == Map::<u32, StoredTxn>::empty(),
    {
        MemTxnStore { txns: HashMap::new() }
    }
}

impl TxnStore for MemTxnStore {
    closed spec fn records(&self) -> Map<u32, StoredTxn> {
        self.txns@
    }

    fn get_txn(&self, id: u32) -> (r: Option<&StoredTxn>) {
        self.txns.get(&id)
    }

    fn get_txn_mut(&mut self, id: u32) -> (r: Option<&mut StoredTxn>) {
        match self.txns.entry(id) {
            Entry::Occupied(entry) => Some(entry.into_mut()),
            Entry::Vacant(_) => None,
        }
    }

    // Ids are taken to be unique: a second record under one id replaces the first.
    fn store_txn(&mut self, txn: &Txn) -> (r: Result<(), TxnFlowError>) {
        match txn.kind {
            TxnType::Deposit => {
                match txn.amount {
                    Some(amount) => {
                        self.txns.insert(
                            txn.id,
                            StoredTxn {
                                client: txn.client,
                                kind: StoredTxnType::Deposit,
                                amount,
                                disputed: false,
                            },
                        );
                    },
                    None => {
                        return Err(TxnFlowError::InvalidDepositTransaction);
                    },
                }
            },
            TxnType::Withdrawal => {
                match txn.amount {
                    Some(amount) => {
                        self.txns.insert(
                            txn.id,
                            StoredTxn {
                                client: txn.client,
                                kind: StoredTxnType::Withdrawal,
                                amount,
                                disputed: false,
                            },
                        );
                    },
                    None => {
                        return Err(TxnFlowError::InvalidWithdrawalTransaction);
                    },
                }
            },
            _ => (),
        };
        Ok(())
    }
}

/// The balances of the accounts in `accounts`, client by client.
spec fn balances(accounts: Map<u16, UserAccount>) -> Map<u16, Balance> {
    Map::new(|client: u16| accounts.contains_key(client), |client: u16| accounts[client]@)
}

/// An account store held in memory.
pub struct MemAccountsStore {
    accounts: HashMap<u16, UserAccount>,
}

impl MemAccountsStore {
    /// A store with no account.
    pub fn new() -> (store: MemAccountsStore)
        ensures
            store.accounts() == Map::<u16, Balance>::empty(),
    {
        let store = MemAccountsStore { accounts: HashMap::new() };
        assert(store.accounts() =~= Map::<u16, Balance>::empty());
        store
    }

    /// The report of every account, one for each client that has an account,
    /// in ascending order of client.
    pub fn snapshot(&self) -> (out: Vec<OutputAccount>)
        ensures
            forall|i: int, j: int| 0 <= i < j < out.len() ==> out[i].client < out[j].client,
            forall|i: int|
                0 <= i < out.len() ==> {
                    &&& self.accounts().contains_key(#[trigger] out[i].client)
                    &&& out[i].reports(self.accounts()[out[i].client])
                    &&& out[i].total == out[i].available + out[i].held
                },
            forall|client: u16|
                self.accounts().contains_key(client) ==> exists|i: int|
                    0 <= i < out.len() && #[trigger] out[i].client == client,
    {
        let mut out: Vec<OutputAccount> = Vec::new();
        let mut next: u32 = 0;
        while next <= u16::MAX as u32
            invariant
                next <= u16::MAX + 1,
                forall|i: int, j: int| 0 <= i < j < out.len() ==> out[i].client < out[j].client,
                forall|i: int|
                    0 <= i < out.len() ==> {
                        &&& (#[trigger] out[i].client) < next
                        &&& self.accounts().contains_key(out[i].client)
                        &&& out[i].reports(self.accounts()[out[i].client])
                        &&& out[i].total == out[i].available + out[i].held
                    },
                forall|client: u16|
                    client < next && self.accounts().contains_key(client) ==> exists|i: int|
                        0 <= i < out.len() && #[trigger] out[i].client == client,
            decreases u16::MAX + 1 - next,
        {
            let client = next as u16;
            let ghost reported = out@;
            match self.get_account(client) {
                Some(account) => {
                    out.push(account.as_output_account(client));
                    assert(out[reported.len() as int].client == client);
                },
                None => {},
            }
            assert forall|earlier: u16|
                earlier < next && self.accounts().contains_key(earlier) implies exists|i: int|
                0 <= i < out.len() && #[trigger] out[i].client == earlier by {
                let i = choose|i: int|
                    0 <= i < reported.len() && #[trigger] reported[i].client == earlier;
                assert(out[i].client == earlier);
            }
            next += 1;
        }
        out
    }
}

impl AccountsStore for MemAccountsStore {
    closed spec fn accounts(&self) -> Map<u16, Balance> {
        balances(self.accounts@)
    }

    fn get_account(&self, id: u16) -> (r: Option<&UserAccount>) {
        self.accounts.get(&id)
    }

    fn get_or_create_account(&mut self, id: u16) -> (r: &mut UserAccount) {
        proof {
            // Whatever the caller leaves in the account, the balances follow it.
            let known = self.accounts@;
            assert forall|account: UserAccount| #[trigger]
                balances(known.insert(id, account)) == balances(known).insert(id, account@) by {
                assert(balances(known.insert(id, account)) =~= balances(known).insert(
                    id,
                    account@,
                ));
            }
        }
        self.accounts.entry(id).or_insert(UserAccount::new())
    }
}

} // verus!

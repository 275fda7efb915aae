use txnflow::database::{AccountsStore, MemAccountsStore, MemTxnStore, TxnStore};
use txnflow::{OutputAccount, Txn, TxnFlowError, TxnManager, TxnType};

fn manager() -> TxnManager<MemTxnStore, MemAccountsStore> {
    TxnManager { txn_store: MemTxnStore::new(), account_store: MemAccountsStore::new() }
}

fn deposit(id: u32, client: u16, amount: u64) -> Txn {
    Txn { id, kind: TxnType::Deposit, client, amount: Some(amount) }
}

fn withdrawal(id: u32, client: u16, amount: u64) -> Txn {
    Txn { id, kind: TxnType::Withdrawal, client, amount: Some(amount) }
}

fn dispute(id: u32, client: u16) -> Txn {
    Txn { id, kind: TxnType::Dispute, client, amount: None }
}

fn resolve(id: u32, client: u16) -> Txn {
    Txn { id, kind: TxnType::Resolve, client, amount: None }
}

fn chargeback(id: u32, client: u16) -> Txn {
    Txn { id, kind: TxnType::Chargeback, client, amount: None }
}

fn apply(m: &mut TxnManager<MemTxnStore, MemAccountsStore>, txn: Txn) -> Result<(), TxnFlowError> {
    m.try_process(txn).expect("balances stay in range")
}

fn account(client: u16, available: i64, held: i64, locked: bool) -> OutputAccount {
    OutputAccount { client, available, held, total: available as i128 + held as i128, locked }
}

#[test]
fn deposit_credits_available() {
    let mut m = manager();
    assert_eq!(apply(&mut m, deposit(1, 1, 50000)), Ok(()));
    assert_eq!(m.account_store.snapshot(), vec![account(1, 50000, 0, false)]);
}

#[test]
fn withdrawal_beyond_available_is_rejected() {
    let mut m = manager();
    assert_eq!(apply(&mut m, deposit(1, 1, 50000)), Ok(()));
    assert_eq!(apply(&mut m, withdrawal(2, 1, 60000)), Err(TxnFlowError::InsufficientFunds));
    assert_eq!(m.account_store.snapshot(), vec![account(1, 50000, 0, false)]);
}

#[test]
fn withdrawal_of_all_available_succeeds() {
    let mut m = manager();
    assert_eq!(apply(&mut m, deposit(1, 1, 50000)), Ok(()));
    assert_eq!(apply(&mut m, withdrawal(2, 1, 50000)), Ok(()));
    assert_eq!(m.account_store.snapshot(), vec![account(1, 0, 0, false)]);
    assert_eq!(apply(&mut m, withdrawal(3, 1, 1)), Err(TxnFlowError::InsufficientFunds));
    assert_eq!(m.account_store.snapshot(), vec![account(1, 0, 0, false)]);
}

#[test]
fn dispute_of_deposit_holds_funds() {
    let mut m = manager();
    assert_eq!(apply(&mut m, deposit(1, 1, 50000)), Ok(()));
    assert_eq!(apply(&mut m, dispute(1, 1)), Ok(()));
    assert_eq!(m.account_store.snapshot(), vec![account(1, 0, 50000, false)]);
    assert_eq!(m.account_store.snapshot()[0].total, 50000);
    assert!(m.txn_store.get_txn(1).unwrap().disputed);
}

#[test]
fn chargeback_of_deposit_locks_account() {
    let mut m = manager();
    assert_eq!(apply(&mut m, deposit(1, 1, 50000)), Ok(()));
    assert_eq!(apply(&mut m, dispute(1, 1)), Ok(()));
    assert_eq!(apply(&mut m, chargeback(1, 1)), Ok(()));
    assert_eq!(m.account_store.snapshot(), vec![account(1, 0, 0, true)]);
    assert_eq!(apply(&mut m, deposit(3, 1, 10000)), Err(TxnFlowError::LockedAccount));
    assert_eq!(m.account_store.snapshot(), vec![account(1, 0, 0, true)]);
    // The record keeps its dispute flag after the chargeback.
    assert!(m.txn_store.get_txn(1).unwrap().disputed);
}

#[test]
fn chargeback_of_withdrawal_returns_funds() {
    let mut m = manager();
    assert_eq!(apply(&mut m, deposit(3, 2, 100000)), Ok(()));
    assert_eq!(apply(&mut m, withdrawal(4, 2, 30000)), Ok(()));
    assert_eq!(m.account_store.snapshot(), vec![account(2, 70000, 0, false)]);
    assert_eq!(apply(&mut m, dispute(4, 2)), Ok(()));
    assert_eq!(m.account_store.snapshot(), vec![account(2, 70000, 30000, false)]);
    assert_eq!(apply(&mut m, chargeback(4, 2)), Ok(()));
    assert_eq!(m.account_store.snapshot(), vec![account(2, 100000, 0, true)]);
}

#[test]
fn resolve_undoes_dispute_of_deposit() {
    let mut m = manager();
    assert_eq!(apply(&mut m, deposit(1, 1, 50000)), Ok(()));
    assert_eq!(apply(&mut m, withdrawal(2, 1, 20000)), Ok(()));
    let before = m.account_store.snapshot();
    assert_eq!(apply(&mut m, dispute(1, 1)), Ok(()));
    assert_eq!(m.account_store.snapshot(), vec![account(1, -20000, 50000, false)]);
    assert_eq!(apply(&mut m, resolve(1, 1)), Ok(()));
    assert_eq!(m.account_store.snapshot(), before);
    assert!(!m.txn_store.get_txn(1).unwrap().disputed);
}

#[test]
fn resolve_undoes_dispute_of_withdrawal() {
    let mut m = manager();
    assert_eq!(apply(&mut m, deposit(1, 1, 50000)), Ok(()));
    assert_eq!(apply(&mut m, withdrawal(2, 1, 20000)), Ok(()));
    let before = m.account_store.snapshot();
    assert_eq!(apply(&mut m, dispute(2, 1)), Ok(()));
    assert_eq!(m.account_store.snapshot(), vec![account(1, 30000, 20000, false)]);
    assert_eq!(apply(&mut m, resolve(2, 1)), Ok(()));
    assert_eq!(m.account_store.snapshot(), before);
}

#[test]
fn second_dispute_is_rejected() {
    let mut m = manager();
    assert_eq!(apply(&mut m, deposit(1, 1, 50000)), Ok(()));
    assert_eq!(apply(&mut m, dispute(1, 1)), Ok(()));
    let before = m.account_store.snapshot();
    assert_eq!(apply(&mut m, dispute(1, 1)), Err(TxnFlowError::TransactionAlreadyDisputed));
    assert_eq!(m.account_store.snapshot(), before);
    // Other transactions in between do not change that.
    assert_eq!(apply(&mut m, deposit(2, 1, 10000)), Ok(()));
    assert_eq!(apply(&mut m, deposit(3, 2, 10000)), Ok(()));
    let before = m.account_store.snapshot();
    assert_eq!(apply(&mut m, dispute(1, 1)), Err(TxnFlowError::TransactionAlreadyDisputed));
    assert_eq!(m.account_store.snapshot(), before);
    // After a resolution the transaction can be disputed again.
    assert_eq!(apply(&mut m, resolve(1, 1)), Ok(()));
    assert_eq!(apply(&mut m, dispute(1, 1)), Ok(()));
}

#[test]
fn resolve_without_dispute_is_rejected() {
    let mut m = manager();
    assert_eq!(apply(&mut m, deposit(1, 1, 50000)), Ok(()));
    let before = m.account_store.snapshot();
    assert_eq!(apply(&mut m, resolve(1, 1)), Err(TxnFlowError::TransactionNotDisputed));
    assert_eq!(m.account_store.snapshot(), before);
    assert!(!m.txn_store.get_txn(1).unwrap().disputed);
}

#[test]
fn chargeback_without_dispute_is_rejected() {
    let mut m = manager();
    assert_eq!(apply(&mut m, deposit(1, 1, 50000)), Ok(()));
    let before = m.account_store.snapshot();
    assert_eq!(apply(&mut m, chargeback(1, 1)), Err(TxnFlowError::TransactionNotDisputed));
    assert_eq!(m.account_store.snapshot(), before);
    assert_eq!(apply(&mut m, withdrawal(2, 1, 10000)), Ok(()));
}

#[test]
fn reference_to_unknown_transaction_is_rejected() {
    let mut m = manager();
    assert_eq!(apply(&mut m, deposit(1, 1, 50000)), Ok(()));
    let before = m.account_store.snapshot();
    assert_eq!(apply(&mut m, dispute(7, 1)), Err(TxnFlowError::InvalidTransactionRef(7)));
    assert_eq!(apply(&mut m, resolve(8, 1)), Err(TxnFlowError::InvalidTransactionRef(8)));
    assert_eq!(apply(&mut m, chargeback(9, 1)), Err(TxnFlowError::InvalidTransactionRef(9)));
    assert_eq!(m.account_store.snapshot(), before);
}

#[test]
fn reference_to_another_clients_transaction_is_rejected() {
    let mut m = manager();
    assert_eq!(apply(&mut m, deposit(1, 1, 50000)), Ok(()));
    assert_eq!(apply(&mut m, dispute(1, 2)), Err(TxnFlowError::InvalidTransactionRef(1)));
    assert!(!m.txn_store.get_txn(1).unwrap().disputed);
    assert_eq!(apply(&mut m, dispute(1, 1)), Ok(()));
    assert_eq!(apply(&mut m, resolve(1, 2)), Err(TxnFlowError::InvalidTransactionRef(1)));
    assert_eq!(apply(&mut m, chargeback(1, 2)), Err(TxnFlowError::InvalidTransactionRef(1)));
    assert!(m.txn_store.get_txn(1).unwrap().disputed);
    // The other client now has an account, an empty one.
    assert_eq!(
        m.account_store.snapshot(),
        vec![account(1, 0, 50000, false), account(2, 0, 0, false)]
    );
}

#[test]
fn deposit_without_amount_is_rejected() {
    let mut m = manager();
    let txn = Txn { id: 1, kind: TxnType::Deposit, client: 5, amount: None };
    assert_eq!(apply(&mut m, txn), Err(TxnFlowError::InvalidDepositTransaction));
    assert!(m.txn_store.get_txn(1).is_none());
    // The account is opened all the same.
    assert_eq!(m.account_store.snapshot(), vec![account(5, 0, 0, false)]);
}

#[test]
fn withdrawal_without_amount_is_rejected() {
    let mut m = manager();
    let txn = Txn { id: 1, kind: TxnType::Withdrawal, client: 5, amount: None };
    assert_eq!(apply(&mut m, txn), Err(TxnFlowError::InvalidWithdrawalTransaction));
    assert!(m.txn_store.get_txn(1).is_none());
    assert_eq!(m.account_store.snapshot(), vec![account(5, 0, 0, false)]);
}

#[test]
fn locked_account_rejects_every_kind() {
    let mut m = manager();
    assert_eq!(apply(&mut m, deposit(1, 1, 50000)), Ok(()));
    assert_eq!(apply(&mut m, deposit(2, 1, 20000)), Ok(()));
    assert_eq!(apply(&mut m, deposit(3, 1, 10000)), Ok(()));
    assert_eq!(apply(&mut m, dispute(1, 1)), Ok(()));
    assert_eq!(apply(&mut m, dispute(2, 1)), Ok(()));
    assert_eq!(apply(&mut m, chargeback(1, 1)), Ok(()));
    let locked = vec![account(1, 10000, 20000, true)];
    assert_eq!(m.account_store.snapshot(), locked);
    assert_eq!(apply(&mut m, deposit(4, 1, 1)), Err(TxnFlowError::LockedAccount));
    assert_eq!(apply(&mut m, withdrawal(5, 1, 1)), Err(TxnFlowError::LockedAccount));
    assert_eq!(apply(&mut m, dispute(3, 1)), Err(TxnFlowError::LockedAccount));
    assert_eq!(apply(&mut m, resolve(2, 1)), Err(TxnFlowError::LockedAccount));
    assert_eq!(apply(&mut m, chargeback(2, 1)), Err(TxnFlowError::LockedAccount));
    assert_eq!(m.account_store.snapshot(), locked);
    // A dispute that the locked account turned away leaves the record undisputed.
    assert!(!m.txn_store.get_txn(3).unwrap().disputed);
    assert!(m.txn_store.get_txn(2).unwrap().disputed);
}

#[test]
fn rejected_withdrawal_is_recorded_all_the_same() {
    let mut m = manager();
    assert_eq!(apply(&mut m, withdrawal(1, 1, 30000)), Err(TxnFlowError::InsufficientFunds));
    let stored = m.txn_store.get_txn(1).unwrap();
    assert_eq!(stored.client, 1);
    assert_eq!(stored.amount, 30000);
    assert!(!stored.disputed);
}

#[test]
fn snapshot_is_ordered_by_client() {
    let mut m = manager();
    assert_eq!(apply(&mut m, deposit(1, 700, 10)), Ok(()));
    assert_eq!(apply(&mut m, deposit(2, 3, 20)), Ok(()));
    assert_eq!(apply(&mut m, deposit(3, 65535, 30)), Ok(()));
    assert_eq!(apply(&mut m, deposit(4, 0, 40)), Ok(()));
    assert_eq!(apply(&mut m, deposit(5, 3, 5)), Ok(()));
    assert_eq!(
        m.account_store.snapshot(),
        vec![
            account(0, 40, 0, false),
            account(3, 25, 0, false),
            account(700, 10, 0, false),
            account(65535, 30, 0, false),
        ]
    );
}

#[test]
fn snapshot_of_empty_store_is_empty() {
    assert_eq!(MemAccountsStore::new().snapshot(), vec![]);
}

#[test]
fn total_is_available_plus_held() {
    let mut m = manager();
    assert_eq!(apply(&mut m, deposit(1, 1, 50000)), Ok(()));
    assert_eq!(apply(&mut m, deposit(2, 1, 25000)), Ok(()));
    assert_eq!(apply(&mut m, dispute(2, 1)), Ok(()));
    for out in m.account_store.snapshot() {
        assert_eq!(out.total, out.available as i128 + out.held as i128);
    }
    assert_eq!(m.account_store.snapshot()[0].total, 75000);
}

#[test]
fn transaction_that_would_overflow_is_not_applied() {
    let mut m = manager();
    assert_eq!(apply(&mut m, deposit(1, 1, i64::MAX as u64)), Ok(()));
    assert!(!m.admits(&deposit(2, 1, 1)));
    assert_eq!(m.try_process(deposit(2, 1, 1)), None);
    // Nothing was recorded and nothing changed.
    assert!(m.txn_store.get_txn(2).is_none());
    assert_eq!(m.account_store.snapshot(), vec![account(1, i64::MAX, 0, false)]);
    // A deposit too large for any account.
    assert_eq!(m.try_process(deposit(3, 2, u64::MAX)), None);
    assert!(m.account_store.get_account(2).is_none());
    // Transactions that fit go on as before.
    assert!(m.admits(&withdrawal(4, 1, 1)));
    assert_eq!(m.process(withdrawal(4, 1, 1)), Ok(()));
    assert_eq!(m.try_process(deposit(5, 1, 1)), Some(Ok(())));
    assert_eq!(m.account_store.snapshot(), vec![account(1, i64::MAX, 0, false)]);
}

#[test]
fn dispute_that_would_overflow_is_not_applied() {
    let mut m = manager();
    assert_eq!(apply(&mut m, deposit(1, 1, i64::MAX as u64)), Ok(()));
    assert_eq!(apply(&mut m, withdrawal(2, 1, i64::MAX as u64)), Ok(()));
    assert_eq!(apply(&mut m, dispute(2, 1)), Ok(()));
    assert_eq!(m.account_store.snapshot(), vec![account(1, 0, i64::MAX, false)]);
    assert!(!m.admits(&dispute(1, 1)));
    assert_eq!(m.try_process(dispute(1, 1)), None);
    assert!(!m.txn_store.get_txn(1).unwrap().disputed);
    assert!(!m.admits(&chargeback(2, 1)) || m.admits(&resolve(2, 1)));
    assert_eq!(m.try_process(resolve(2, 1)), Some(Ok(())));
    assert_eq!(m.account_store.snapshot(), vec![account(1, 0, 0, false)]);
}

#[test]
fn get_or_create_account_is_idempotent() {
    let mut store = MemAccountsStore::new();
    assert!(store.get_account(9).is_none());
    let first = store.get_or_create_account(9).as_output_account(9);
    assert_eq!(first, account(9, 0, 0, false));
    let txn = deposit(1, 9, 12345);
    assert_eq!(store.get_or_create_account(9).process_deposit(txn), Ok(()));
    let again = store.get_or_create_account(9).as_output_account(9);
    assert_eq!(again, account(9, 12345, 0, false));
    assert_eq!(store.snapshot(), vec![account(9, 12345, 0, false)]);
}

#[test]
fn store_keeps_deposits_and_withdrawals_only() {
    let mut store = MemTxnStore::new();
    assert_eq!(store.store_txn(&deposit(1, 1, 10)), Ok(()));
    assert_eq!(store.store_txn(&withdrawal(2, 1, 20)), Ok(()));
    assert_eq!(store.store_txn(&dispute(3, 1)), Ok(()));
    assert_eq!(store.store_txn(&resolve(4, 1)), Ok(()));
    assert_eq!(store.store_txn(&chargeback(5, 1)), Ok(()));
    assert_eq!(store.get_txn(1).unwrap().amount, 10);
    assert_eq!(store.get_txn(2).unwrap().amount, 20);
    assert!(store.get_txn(3).is_none());
    assert!(store.get_txn(4).is_none());
    assert!(store.get_txn(5).is_none());
    assert!(store.get_txn_mut(3).is_none());
    store.get_txn_mut(2).unwrap().disputed = true;
    assert!(store.get_txn(2).unwrap().disputed);
    assert!(!store.get_txn(1).unwrap().disputed);
}

#[test]
fn later_record_under_the_same_id_replaces_the_earlier() {
    let mut m = manager();
    assert_eq!(apply(&mut m, deposit(1, 1, 50000)), Ok(()));
    assert_eq!(apply(&mut m, dispute(1, 1)), Ok(()));
    assert_eq!(apply(&mut m, deposit(1, 1, 20000)), Ok(()));
    let stored = m.txn_store.get_txn(1).unwrap();
    assert_eq!(stored.amount, 20000);
    assert!(!stored.disputed);
    assert_eq!(m.account_store.snapshot(), vec![account(1, 20000, 50000, false)]);
}

#[test]
fn deposit_of_nothing_changes_nothing() {
    let mut m = manager();
    assert_eq!(apply(&mut m, deposit(1, 1, 0)), Ok(()));
    assert_eq!(apply(&mut m, withdrawal(2, 1, 0)), Ok(()));
    assert_eq!(m.account_store.snapshot(), vec![account(1, 0, 0, false)]);
}

#[test]
fn accounts_do_not_affect_each_other() {
    let mut m = manager();
    assert_eq!(apply(&mut m, deposit(1, 1, 50000)), Ok(()));
    assert_eq!(apply(&mut m, deposit(2, 2, 70000)), Ok(()));
    assert_eq!(apply(&mut m, dispute(1, 1)), Ok(()));
    assert_eq!(apply(&mut m, chargeback(1, 1)), Ok(()));
    assert_eq!(apply(&mut m, withdrawal(3, 2, 30000)), Ok(()));
    assert_eq!(
        m.account_store.snapshot(),
        vec![account(1, 0, 0, true), account(2, 40000, 0, false)]
    );
}

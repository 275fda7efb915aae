//! What holds of the engine whatever the transactions are.
//!
//! Each lemma is stated over [`Balance`] or [`Ledger`], the models that the
//! contracts of the executable functions are written in, so each holds of the
//! running engine as well.

use crate::accounts::Balance;
use crate::database::{StoredTxn, StoredTxnType};
use crate::errors::TxnFlowError;
use crate::ledger::Ledger;
use crate::txn::{Txn, TxnType};
use vstd::prelude::*;

verus! {

/// A locked account rejects every operation and keeps its balances.
pub proof fn lemma_locked_account_is_frozen(balance: Balance, amount: int, reference: StoredTxn)
    requires
        balance.locked,
    ensures
        balance.deposit(amount) == (balance, Err::<(), _>(TxnFlowError::LockedAccount)),
        balance.withdraw(amount) == (balance, Err::<(), _>(TxnFlowError::LockedAccount)),
        balance.open_dispute(reference) == (balance, Err::<(), _>(TxnFlowError::LockedAccount)),
        balance.resolve_dispute(reference) == (balance, Err::<(), _>(TxnFlowError::LockedAccount)),
        balance.chargeback(reference) == (balance, Err::<(), _>(TxnFlowError::LockedAccount)),
{
}

/// No operation unlocks an account.
pub proof fn lemma_lock_is_final(balance: Balance, amount: int, reference: StoredTxn)
    requires
        balance.locked,
    ensures
        balance.deposit(amount).0.locked,
        balance.withdraw(amount).0.locked,
        balance.open_dispute(reference).0.locked,
        balance.resolve_dispute(reference).0.locked,
        balance.chargeback(reference).0.locked,
{
}

/// Once a client's account is locked, no transaction of any client changes
/// what that client holds.
pub proof fn lemma_locked_balance_survives_step(ledger: Ledger, client: u16, txn: Txn)
    requires
        ledger.balance(client).locked,
    ensures
        ledger.step(txn).0.balance(client) == ledger.balance(client),
{
}

/// Once a client's account is locked, no sequence of transactions changes
/// what that client holds.
pub proof fn lemma_locked_balance_survives_run(ledger: Ledger, client: u16, txns: Seq<Txn>)
    requires
        ledger.balance(client).locked,
    ensures
        ledger.run(txns).balance(client) == ledger.balance(client),
    decreases txns.len(),
{
    if txns.len() > 0 {
        lemma_locked_balance_survives_run(ledger, client, txns.drop_last());
        lemma_locked_balance_survives_step(ledger.run(txns.drop_last()), client, txns.last());
    }
}

/// A withdrawal from an account that is not locked is accepted exactly when
/// the available funds cover it, and it never takes available funds that were
/// not negative below zero.
pub proof fn lemma_withdrawal_needs_funds(balance: Balance, amount: int)
    requires
        amount >= 0,
    ensures
        balance.withdraw(amount).1 is Ok <==> !balance.locked && amount <= balance.available,
        balance.withdraw(amount).1 is Ok ==> balance.withdraw(amount).0 == balance.shifted(
            -amount,
            0,
        ),
        balance.withdraw(amount).1 is Err ==> balance.withdraw(amount).0 == balance,
        balance.available >= 0 ==> balance.withdraw(amount).0.available >= 0,
{
}

/// The chargeback of a withdrawal never lowers the available funds.
pub proof fn lemma_withdrawal_chargeback_returns_funds(balance: Balance, reference: StoredTxn)
    requires
        reference.kind == StoredTxnType::Withdrawal,
    ensures
        balance.chargeback(reference).0.available >= balance.available,
{
}

/// A withdrawal record is accepted exactly when it carries an amount, the
/// client's account is not locked and its available funds cover the amount.
pub proof fn lemma_withdrawal_step(ledger: Ledger, txn: Txn)
    requires
        txn.kind == TxnType::Withdrawal,
    ensures
        ledger.step(txn).1 is Ok <==> {
            &&& txn.amount is Some
            &&& !ledger.balance(txn.client).locked
            &&& txn.amount->0 <= ledger.balance(txn.client).available
        },
        ledger.balance(txn.client).available >= 0 ==> ledger.step(txn).0.balance(
            txn.client,
        ).available >= 0,
{
}

/// Opening a dispute and resolving it restores the balances exactly.
pub proof fn lemma_resolve_undoes_dispute(balance: Balance, reference: StoredTxn)
    ensures
        balance.open_dispute(reference).0.resolve_dispute(reference).0 == balance,
        balance.open_dispute(reference).1 is Ok ==> balance.open_dispute(
            reference,
        ).0.resolve_dispute(reference).1 is Ok,
{
}

/// A dispute that is accepted, followed at once by its resolution, leaves
/// every balance and every record as it was before the dispute.
pub proof fn lemma_dispute_then_resolve_restores(ledger: Ledger, dispute: Txn, resolve: Txn)
    requires
        dispute.kind == TxnType::Dispute,
        resolve.kind == TxnType::Resolve,
        resolve.id == dispute.id,
        resolve.client == dispute.client,
        ledger.step(dispute).1 is Ok,
    ensures
        ledger.step(dispute).0.step(resolve) == (ledger.opened(dispute.client), Ok::<
            _,
            TxnFlowError,
        >(())),
        ledger.opened(dispute.client).records == ledger.records,
        forall|client: u16| #[trigger]
            ledger.opened(dispute.client).balance(client) == ledger.balance(client),
{
    let disputed = ledger.step(dispute).0;
    assert(disputed.step(resolve).0 =~= ledger.opened(dispute.client));
    assert(ledger.opened(dispute.client).records =~= ledger.records);
}

/// A transaction is turned away without a trace: every balance and every
/// record stays as it was. (The client's account is opened if there was none.)
pub open spec fn rejected(ledger: Ledger, txn: Txn, error: TxnFlowError) -> bool {
    &&& ledger.step(txn) == (ledger.opened(txn.client), Err::<(), _>(error))
    &&& ledger.step(txn).0.records == ledger.records
    &&& forall|client: u16| #[trigger]
        ledger.step(txn).0.balance(client) == ledger.balance(client)
}

/// A dispute of a transaction that is under dispute is rejected, and changes
/// nothing: so is the second of two disputes in a row.
pub proof fn lemma_second_dispute_rejected(ledger: Ledger, dispute: Txn)
    requires
        dispute.kind == TxnType::Dispute,
        ledger.step(dispute).1 is Ok,
    ensures
        rejected(ledger.step(dispute).0, dispute, TxnFlowError::TransactionAlreadyDisputed),
        ledger.step(dispute).0.step(dispute).0 == ledger.step(dispute).0,
{
    let disputed = ledger.step(dispute).0;
    assert(disputed.opened(dispute.client) =~= disputed);
}

/// `txn` neither resolves the dispute of the transaction recorded under `id`
/// nor records a new transaction in its place.
pub open spec fn keeps_dispute(txn: Txn, id: u32) -> bool {
    txn.id == id ==> txn.kind == TxnType::Dispute || txn.kind == TxnType::Chargeback
}

/// A transaction that a client has under dispute stays so through any
/// transactions that neither resolve the dispute nor record anew under its id.
pub proof fn lemma_dispute_stands(ledger: Ledger, txns: Seq<Txn>, dispute: Txn)
    requires
        ledger.reference(dispute) is Some,
        ledger.reference(dispute)->0.disputed,
        forall|i: int| 0 <= i < txns.len() ==> keeps_dispute(#[trigger] txns[i], dispute.id),
    ensures
        ledger.run(txns).reference(dispute) == ledger.reference(dispute),
    decreases txns.len(),
{
    if txns.len() > 0 {
        let before = txns.drop_last();
        assert forall|i: int| 0 <= i < before.len() implies keeps_dispute(
            #[trigger] before[i],
            dispute.id,
        ) by {
            assert(before[i] == txns[i]);
        }
        lemma_dispute_stands(ledger, before, dispute);
        assert(keeps_dispute(txns.last(), dispute.id));
    }
}

/// Disputing a transaction a second time, with no resolution in between, is
/// rejected and changes nothing, whatever else happened in between.
pub proof fn lemma_repeated_dispute_rejected(ledger: Ledger, dispute: Txn, between: Seq<Txn>)
    requires
        dispute.kind == TxnType::Dispute,
        ledger.step(dispute).1 is Ok,
        forall|i: int| 0 <= i < between.len() ==> keeps_dispute(#[trigger] between[i], dispute.id),
    ensures
        rejected(
            ledger.step(dispute).0.run(between),
            dispute,
            TxnFlowError::TransactionAlreadyDisputed,
        ),
{
    let disputed = ledger.step(dispute).0;
    lemma_dispute_stands(disputed, between, dispute);
    let later = disputed.run(between);
    assert(later.opened(dispute.client).records =~= later.records);
}

/// A resolution or chargeback of a transaction that is not under dispute is
/// rejected and changes nothing.
pub proof fn lemma_undisputed_cannot_be_settled(ledger: Ledger, txn: Txn)
    requires
        txn.kind == TxnType::Resolve || txn.kind == TxnType::Chargeback,
        !ledger.records.contains_key(txn.id) || !ledger.records[txn.id].disputed,
    ensures
        ledger.reference(txn) is None ==> rejected(
            ledger,
            txn,
            TxnFlowError::InvalidTransactionRef(txn.id),
        ),
        ledger.reference(txn) is Some ==> rejected(
            ledger,
            txn,
            TxnFlowError::TransactionNotDisputed,
        ),
{
    assert(ledger.opened(txn.client).records =~= ledger.records);
}

/// Where no record under `id` is disputed, none is after transactions among
/// which there is no dispute of `id`.
pub proof fn lemma_undisputed_without_dispute(ledger: Ledger, txns: Seq<Txn>, id: u32)
    requires
        !ledger.records.contains_key(id) || !ledger.records[id].disputed,
        forall|i: int|
            0 <= i < txns.len() ==> !((#[trigger] txns[i]).kind == TxnType::Dispute && txns[i].id
                == id),
    ensures
        !ledger.run(txns).records.contains_key(id) || !ledger.run(txns).records[id].disputed,
    decreases txns.len(),
{
    if txns.len() > 0 {
        let before = txns.drop_last();
        assert forall|i: int| 0 <= i < before.len() implies !((#[trigger] before[i]).kind
            == TxnType::Dispute && before[i].id == id) by {
            assert(before[i] == txns[i]);
        }
        lemma_undisputed_without_dispute(ledger, before, id);
        assert(!(txns.last().kind == TxnType::Dispute && txns.last().id == id));
    }
}

/// A resolution or chargeback of a transaction that was never disputed is
/// rejected and changes nothing.
pub proof fn lemma_never_disputed_cannot_be_settled(history: Seq<Txn>, txn: Txn)
    requires
        txn.kind == TxnType::Resolve || txn.kind == TxnType::Chargeback,
        forall|i: int|
            0 <= i < history.len() ==> !((#[trigger] history[i]).kind == TxnType::Dispute
                && history[i].id == txn.id),
    ensures
        Ledger::empty().run(history).step(txn).1 is Err,
        rejected(
            Ledger::empty().run(history),
            txn,
            Ledger::empty().run(history).step(txn).1->Err_0,
        ),
{
    lemma_undisputed_without_dispute(Ledger::empty(), history, txn.id);
    lemma_undisputed_cannot_be_settled(Ledger::empty().run(history), txn);
}

/// A dispute, resolution or chargeback that refers to no recorded
/// transaction, or to one of another client, is rejected and changes nothing.
pub proof fn lemma_foreign_reference_rejected(ledger: Ledger, txn: Txn)
    requires
        txn.kind == TxnType::Dispute || txn.kind == TxnType::Resolve || txn.kind
            == TxnType::Chargeback,
        !ledger.records.contains_key(txn.id) || ledger.records[txn.id].client != txn.client,
    ensures
        rejected(ledger, txn, TxnFlowError::InvalidTransactionRef(txn.id)),
{
    assert(ledger.opened(txn.client).records =~= ledger.records);
}

} // verus!

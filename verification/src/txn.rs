//! Incoming transaction records.

use vstd::prelude::*;

verus! {

/// What a transaction record asks for.
#[derive(Clone, Copy, Debug, PartialEq, Eq, Structural)]
pub enum TxnType {
    Deposit,
    Withdrawal,
    Dispute,
    Resolve,
    Chargeback,
}

/// One transaction record as it arrives.
///
/// `amount` is counted in ten-thousandths of a unit. Deposits and withdrawals
/// carry one; disputes, resolutions and chargebacks name an earlier deposit or
/// withdrawal by `id` instead.
#[derive(Clone, Copy, Debug, PartialEq, Eq)]
pub struct Txn {
    pub id: u32,
    pub kind: TxnType,
    pub client: u16,
    pub amount: Option<u64>,
}

} // verus!

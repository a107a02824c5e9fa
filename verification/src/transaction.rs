//! Transactions and the records kept of deposits.
use crate::decimal::Amount;
use vstd::prelude::*;

verus! {

/// Most digits after the point that an incoming amount may have.
pub const MAX_AMOUNT_SCALE: u32 = 4;

#[derive(Debug, Clone, Copy, PartialEq, Eq)]
pub enum TransactionType {
    Deposit,
    Withdrawal,
    Dispute,
    Resolve,
    Chargeback,
}

/// One incoming transaction.
#[derive(Debug, Clone, Copy)]
pub struct Transaction {
    pub client: u16,
    pub tx_type: TransactionType,
    pub tx: u32,
    pub amount: Option<Amount>,
}

impl Transaction {
    pub open spec fn wf(self) -> bool {
        self.amount matches Some(a) ==> a.wf()
    }
}

/// What is remembered of an accepted deposit, so that it can be disputed.
#[derive(Debug, Clone, Copy)]
pub struct DepositRecord {
    pub client_id: u16,
    pub amount: Amount,
    pub disputed: bool,
}

impl DepositRecord {
    /// The record of a deposit that is not under dispute.
    pub fn new(client_id: u16, amount: Amount) -> (r: DepositRecord)
        ensures
            r == (DepositRecord { client_id, amount, disputed: false }),
    {
        DepositRecord { client_id, amount, disputed: false }
    }
}

/// Refuses an incoming amount with more than four digits after the point.
pub fn check_amount_precision(amount: Option<Amount>) -> (r: Result<Option<Amount>, String>)
    ensures
        r is Err <==> (amount matches Some(a) && a.scale > MAX_AMOUNT_SCALE),
        r is Ok ==> r == Ok::<Option<Amount>, String>(amount),
        r is Err ==> r->Err_0@ == "amount precision exceeds 4 decimal places"@,
{
    if let Some(value) = amount {
        if value.scale > MAX_AMOUNT_SCALE {
            return Err("amount precision exceeds 4 decimal places".to_owned());
        }
    }
    Ok(amount)
}

} // verus!

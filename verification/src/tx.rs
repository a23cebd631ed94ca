//! Core transaction types: money as a scaled integer, client and transaction
//! identifiers, and the tagged transaction record.

use vstd::prelude::*;

verus! {

/// Fixed-point money: the stored integer is one thousand times the decimal
/// amount, giving three fractional digits without floating-point drift.
pub type Money = i32;

pub type ClientId = u16;

pub type TxId = u32;

/// The kind of a transaction record, carrying the amount where one exists.
/// Dispute, resolve and chargeback reference an earlier transaction by id
/// and carry no amount of their own.
#[derive(Debug, Clone, Copy, PartialEq, Eq, Structural)]
pub enum TxType {
    Deposit(Money),
    Withdrawal(Money),
    Dispute,
    Resolve,
    Chargeback,
}

impl TxType {
    /// Deposits and withdrawals move money and are recorded in an account's
    /// journal; the other kinds are transient commands.
    pub open spec fn is_money_moving(self) -> bool {
        self is Deposit || self is Withdrawal
    }
}

/// One validated transaction record. `disputed` is meaningful only on
/// journal-stored (money-moving) transactions.
#[derive(Debug, Clone, Copy, PartialEq, Eq, Structural)]
pub struct Tx {
    pub client_id: ClientId,
    pub tx_id: TxId,
    pub tx_type: TxType,
    pub disputed: bool,
}

} // verus!

//! Per-client account state: available and held balances, the lock flag, and
//! a journal of past money-moving transactions. The transition rules are
//! stated once, as the spec function [`tx_outcome`], and the executable
//! [`Account::process_tx`] is proved to follow them exactly.

use vstd::prelude::*;
use std::collections::HashMap;

use crate::tx::{Money, Tx, TxId, TxType};

verus! {

broadcast use vstd::std_specs::hash::group_hash_axioms;

/// Why a transaction was rejected. Rejections are soft: the transaction is
/// dropped and the account is left unchanged.
#[derive(Debug, Clone, Copy, PartialEq, Eq, Structural)]
pub enum TxError {
    /// The account underwent a chargeback and accepts nothing further.
    Locked,
    /// A direct withdrawal would drive the available balance below zero.
    InsufficientFunds,
    /// A dispute-protocol command referenced a transaction id absent from
    /// the journal.
    UnknownTx,
    /// A dispute referenced a transaction that is already under dispute.
    AlreadyDisputed,
    /// A resolve or chargeback referenced a transaction not under dispute.
    NotDisputed,
    /// The referenced transaction is not of the disputable kind.
    InvalidTxType,
}

/// The mathematical state of an account: exact integer balances and the
/// journal as a map.
pub struct AccountView {
    pub available: int,
    pub held: int,
    pub locked: bool,
    pub journal: Map<TxId, Tx>,
}

impl AccountView {
    /// The journal holds only money-moving transactions, each stored under
    /// its own id, and only a withdrawal can be marked disputed.
    pub open spec fn wf(self) -> bool {
        forall|id: TxId| #[trigger] self.journal.contains_key(id) ==> {
            &&& self.journal[id].tx_id == id
            &&& self.journal[id].tx_type.is_money_moving()
            &&& self.journal[id].disputed ==> self.journal[id].tx_type is Withdrawal
        }
    }

    /// Zero-valued, unlocked, empty journal: the state an account is created
    /// in on the first transaction naming its client.
    pub open spec fn fresh() -> AccountView {
        AccountView { available: 0, held: 0, locked: false, journal: Map::empty() }
    }
}

/// The account transition relation, applied to one transaction:
/// either the successor state or the rejection, in which case the state is
/// unchanged. This is the single statement of the ledger rules; every
/// executable mutation is proved against it.
#[verifier::opaque]
pub open spec fn tx_outcome(a: AccountView, tx: Tx) -> Result<AccountView, TxError> {
    if a.locked {
        Err(TxError::Locked)
    } else {
        match tx.tx_type {
            TxType::Deposit(amount) => Ok(
                AccountView {
                    available: a.available + amount,
                    journal: a.journal.insert(tx.tx_id, Tx { disputed: false, ..tx }),
                    ..a
                },
            ),
            TxType::Withdrawal(amount) => {
                if a.available - amount < 0 {
                    Err(TxError::InsufficientFunds)
                } else {
                    Ok(
                        AccountView {
                            available: a.available - amount,
                            journal: a.journal.insert(tx.tx_id, Tx { disputed: false, ..tx }),
                            ..a
                        },
                    )
                }
            },
            TxType::Dispute => {
                if !a.journal.contains_key(tx.tx_id) {
                    Err(TxError::UnknownTx)
                } else if a.journal[tx.tx_id].disputed {
                    Err(TxError::AlreadyDisputed)
                } else if !(a.journal[tx.tx_id].tx_type is Withdrawal) {
                    Err(TxError::InvalidTxType)
                } else {
                    let amount = a.journal[tx.tx_id].tx_type->Withdrawal_0;
                    Ok(
                        AccountView {
                            available: a.available - amount,
                            held: a.held + amount,
                            journal: a.journal.insert(
                                tx.tx_id,
                                Tx { disputed: true, ..a.journal[tx.tx_id] },
                            ),
                            ..a
                        },
                    )
                }
            },
            TxType::Resolve => {
                if !a.journal.contains_key(tx.tx_id) {
                    Err(TxError::UnknownTx)
                } else if !a.journal[tx.tx_id].disputed {
                    Err(TxError::NotDisputed)
                } else if !(a.journal[tx.tx_id].tx_type is Withdrawal) {
                    Err(TxError::InvalidTxType)
                } else {
                    let amount = a.journal[tx.tx_id].tx_type->Withdrawal_0;
                    // The disputed flag stays set: a resolved transaction can
                    // never be disputed again.
                    Ok(AccountView { available: a.available + amount, held: a.held - amount, ..a })
                }
            },
            TxType::Chargeback => {
                if !a.journal.contains_key(tx.tx_id) {
                    Err(TxError::UnknownTx)
                } else if !a.journal[tx.tx_id].disputed {
                    Err(TxError::NotDisputed)
                } else if !(a.journal[tx.tx_id].tx_type is Withdrawal) {
                    Err(TxError::InvalidTxType)
                } else {
                    let amount = a.journal[tx.tx_id].tx_type->Withdrawal_0;
                    Ok(AccountView { held: a.held - amount, locked: true, ..a })
                }
            },
        }
    }
}

/// The state after a transaction: the successor on success, the same state on
/// rejection.
pub open spec fn tx_step(a: AccountView, tx: Tx) -> AccountView {
    match tx_outcome(a, tx) {
        Ok(next) => next,
        Err(_) => a,
    }
}

/// Whether applying `tx` to `a` keeps both balances within the `Money` range.
/// This is a machine-width limit only: the transition rules themselves are
/// exact, and a rejected transaction changes nothing, so only the success
/// case is constrained.
pub open spec fn fits_view(a: AccountView, tx: Tx) -> bool {
    match tx_outcome(a, tx) {
        Ok(next) => {
            &&& i32::MIN <= next.available <= i32::MAX
            &&& i32::MIN <= next.held <= i32::MAX
        },
        Err(_) => true,
    }
}

/// A client account: balances in scaled integer money, the lock flag, and the
/// journal of past deposits and withdrawals.
pub struct Account {
    pub available: Money,
    pub held: Money,
    pub locked: bool,
    pub txs: HashMap<TxId, Tx>,
}

impl View for Account {
    type V = AccountView;

    open spec fn view(&self) -> AccountView {
        AccountView {
            available: self.available as int,
            held: self.held as int,
            locked: self.locked,
            journal: self.txs@,
        }
    }
}

impl Account {
    /// Whether applying `tx` keeps both balances within the `Money` range.
    pub open spec fn fits(self, tx: Tx) -> bool {
        fits_view(self@, tx)
    }

    /// The executable form of [`fits_view`]: decides, without mutating
    /// anything, whether applying `tx` would keep both balances within the
    /// `Money` range.
    pub fn check_fits(&self, tx: Tx) -> (r: bool)
        ensures
            r == fits_view(self@, tx),
    {
        proof {
            reveal(tx_outcome);
        }
        if self.locked {
            return true;
        }
        match tx.tx_type {
            TxType::Deposit(amount) => {
                let next: i64 = self.available as i64 + amount as i64;
                i32::MIN as i64 <= next && next <= i32::MAX as i64
            },
            TxType::Withdrawal(amount) => {
                let next: i64 = self.available as i64 - amount as i64;
                next < 0 || next <= i32::MAX as i64
            },
            TxType::Dispute => {
                match self.txs.get(&tx.tx_id) {
                    None => true,
                    Some(past) => {
                        if past.disputed {
                            true
                        } else {
                            match past.tx_type {
                                TxType::Withdrawal(amount) => {
                                    let na: i64 = self.available as i64 - amount as i64;
                                    let nh: i64 = self.held as i64 + amount as i64;
                                    i32::MIN as i64 <= na && na <= i32::MAX as i64
                                        && i32::MIN as i64 <= nh && nh <= i32::MAX as i64
                                },
                                _ => true,
                            }
                        }
                    },
                }
            },
            TxType::Resolve => {
                match self.txs.get(&tx.tx_id) {
                    None => true,
                    Some(past) => {
                        if !past.disputed {
                            true
                        } else {
                            match past.tx_type {
                                TxType::Withdrawal(amount) => {
                                    let na: i64 = self.available as i64 + amount as i64;
                                    let nh: i64 = self.held as i64 - amount as i64;
                                    i32::MIN as i64 <= na && na <= i32::MAX as i64
                                        && i32::MIN as i64 <= nh && nh <= i32::MAX as i64
                                },
                                _ => true,
                            }
                        }
                    },
                }
            },
            TxType::Chargeback => {
                match self.txs.get(&tx.tx_id) {
                    None => true,
                    Some(past) => {
                        if !past.disputed {
                            true
                        } else {
                            match past.tx_type {
                                TxType::Withdrawal(amount) => {
                                    let nh: i64 = self.held as i64 - amount as i64;
                                    i32::MIN as i64 <= nh && nh <= i32::MAX as i64
                                },
                                _ => true,
                            }
                        }
                    },
                }
            },
        }
    }

    /// A zero-valued, unlocked account with an empty journal.
    pub fn new() -> (r: Account)
        ensures
            r@ == AccountView::fresh(),
            r@.wf(),
    {
        let r = Account { available: 0, held: 0, locked: false, txs: HashMap::new() };
        proof {
            assert(r@.journal =~= Map::<TxId, Tx>::empty());
            assert(r@ =~= AccountView::fresh());
        }
        r
    }

    /// Looks up the journal entry that a dispute-protocol command references.
    pub fn past_tx(&self, tx: &Tx) -> (r: Result<&Tx, TxError>)
        ensures
            match r {
                Ok(past) => self@.journal.contains_key(tx.tx_id) && *past == self@.journal[tx.tx_id as TxId],
                Err(e) => e == TxError::UnknownTx && !self@.journal.contains_key(tx.tx_id),
            },
    {
        match self.txs.get(&tx.tx_id) {
            Some(past) => Ok(past),
            None => Err(TxError::UnknownTx),
        }
    }

    /// Applies one transaction: validate, then commit, so that a rejected
    /// transaction leaves the account exactly as it was. The outcome and the
    /// new state are those of [`tx_outcome`].
    pub fn process_tx(&mut self, tx: Tx) -> (r: Result<(), TxError>)
        requires
            old(self)@.wf(),
            old(self).fits(tx),
        ensures
            final(self)@.wf(),
            match tx_outcome(old(self)@, tx) {
                Ok(next) => r == Ok::<(), TxError>(()) && final(self)@ == next,
                Err(e) => r == Err::<(), TxError>(e) && final(self)@ == old(self)@,
            },
    {
        proof {
            reveal(tx_outcome);
        }
        if self.locked {
            return Err(TxError::Locked);
        }

        match tx.tx_type {
            TxType::Deposit(amount) => {
                self.available = self.available + amount;
                self.txs.insert(tx.tx_id, Tx { disputed: false, ..tx });
            },
            TxType::Withdrawal(amount) => {
                let new_balance: i64 = self.available as i64 - amount as i64;
                if new_balance < 0 {
                    return Err(TxError::InsufficientFunds);
                }
                self.available = new_balance as i32;
                self.txs.insert(tx.tx_id, Tx { disputed: false, ..tx });
            },
            TxType::Dispute => {
                let past = match self.past_tx(&tx) {
                    Ok(p) => *p,
                    Err(e) => { return Err(e) },
                };
                if past.disputed {
                    return Err(TxError::AlreadyDisputed);
                }
                let amount = match past.tx_type {
                    TxType::Withdrawal(amount) => amount,
                    _ => { return Err(TxError::InvalidTxType) },
                };
                self.txs.insert(tx.tx_id, Tx { disputed: true, ..past });
                self.held = self.held + amount;
                // Provisionally frozen funds may drive available negative.
                self.available = self.available - amount;
            },
            TxType::Resolve => {
                let past = match self.past_tx(&tx) {
                    Ok(p) => *p,
                    Err(e) => { return Err(e) },
                };
                if !past.disputed {
                    return Err(TxError::NotDisputed);
                }
                let amount = match past.tx_type {
                    TxType::Withdrawal(amount) => amount,
                    _ => { return Err(TxError::InvalidTxType) },
                };
                self.held = self.held - amount;
                self.available = self.available + amount;
            },
            TxType::Chargeback => {
                let past = match self.past_tx(&tx) {
                    Ok(p) => *p,
                    Err(e) => { return Err(e) },
                };
                if !past.disputed {
                    return Err(TxError::NotDisputed);
                }
                let amount = match past.tx_type {
                    TxType::Withdrawal(amount) => amount,
                    _ => { return Err(TxError::InvalidTxType) },
                };
                self.held = self.held - amount;
                self.locked = true;
            },
        }

        Ok(())
    }
}

} // verus!

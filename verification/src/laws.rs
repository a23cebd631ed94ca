//! The ledger's guarantees, stated and proved once over the transition
//! relation [`tx_outcome`] that every executable mutation follows.

use vstd::prelude::*;

use crate::account::{AccountView, TxError, tx_outcome, tx_step};
use crate::decode::{DecodeError, TagKind, spec_decode, spec_parse_tag};
use crate::tx::{ClientId, Tx, TxId, TxType};

verus! {

/// One account stepped through a whole sequence in order, rejected
/// transactions changing nothing.
pub open spec fn run(a: AccountView, txs: Seq<Tx>) -> AccountView
    decreases txs.len(),
{
    if txs.len() == 0 {
        a
    } else {
        tx_step(run(a, txs.drop_last()), txs.last())
    }
}

/// The sum of all deposit amounts in the sequence.
pub open spec fn sum_deposits(txs: Seq<Tx>) -> int
    decreases txs.len(),
{
    if txs.len() == 0 {
        0
    } else {
        sum_deposits(txs.drop_last()) + (match txs.last().tx_type {
            TxType::Deposit(amount) => amount as int,
            _ => 0,
        })
    }
}

/// The sum of all withdrawal amounts in the sequence.
pub open spec fn sum_withdrawals(txs: Seq<Tx>) -> int
    decreases txs.len(),
{
    if txs.len() == 0 {
        0
    } else {
        sum_withdrawals(txs.drop_last()) + (match txs.last().tx_type {
            TxType::Withdrawal(amount) => amount as int,
            _ => 0,
        })
    }
}

/// Every transaction of the sequence, applied in order, is accepted.
pub open spec fn all_accepted(a: AccountView, txs: Seq<Tx>) -> bool {
    forall|i: int| 0 <= i < txs.len() ==> tx_outcome(run(a, txs.take(i)), #[trigger] txs[i]) is Ok
}

/// Every transaction of the sequence is a deposit or a withdrawal.
pub open spec fn all_money_moving(txs: Seq<Tx>) -> bool {
    forall|i: int| 0 <= i < txs.len() ==> (#[trigger] txs[i].tx_type).is_money_moving()
}

/// A sequence of accepted deposits and withdrawals leaves the balances fully
/// accounted for: available grows by exactly the deposited sum and shrinks by
/// exactly the withdrawn sum, while the held balance and the lock flag never
/// move.
pub proof fn lemma_run_balance(a: AccountView, txs: Seq<Tx>)
    requires
        all_money_moving(txs),
        all_accepted(a, txs),
    ensures
        run(a, txs).available == a.available + sum_deposits(txs) - sum_withdrawals(txs),
        run(a, txs).held == a.held,
        run(a, txs).locked == a.locked,
    decreases txs.len(),
{
    reveal(tx_outcome);
    if txs.len() > 0 {
        let prefix = txs.drop_last();
        let last = txs.last();
        assert(txs.take(txs.len() - 1) =~= prefix);
        assert forall|i: int| 0 <= i < prefix.len() implies tx_outcome(
            run(a, prefix.take(i)),
            #[trigger] prefix[i],
        ) is Ok by {
            assert(prefix.take(i) =~= txs.take(i));
            assert(prefix[i] == txs[i]);
            assert(tx_outcome(run(a, txs.take(i)), txs[i]) is Ok);
        }
        assert forall|i: int|
            0 <= i < prefix.len() implies (#[trigger] prefix[i].tx_type).is_money_moving() by {
            assert(prefix[i] == txs[i]);
        }
        lemma_run_balance(a, prefix);
        assert(tx_outcome(run(a, prefix), last) is Ok);
    }
}

/// The simplest reading of the same law: starting from a fresh account, the
/// final available balance is the deposited sum less the withdrawn sum, and
/// nothing is held.
pub proof fn lemma_fresh_run_balance(txs: Seq<Tx>)
    requires
        all_money_moving(txs),
        all_accepted(AccountView::fresh(), txs),
    ensures
        run(AccountView::fresh(), txs).available == sum_deposits(txs) - sum_withdrawals(txs),
        run(AccountView::fresh(), txs).held == 0,
        !run(AccountView::fresh(), txs).locked,
{
    lemma_run_balance(AccountView::fresh(), txs);
}

/// A withdrawal that would drive the available balance below zero is
/// rejected as insufficient funds and changes nothing.
pub proof fn lemma_overdraft_rejected(a: AccountView, tx: Tx, amount: i32)
    requires
        !a.locked,
        tx.tx_type == TxType::Withdrawal(amount),
        a.available < amount,
    ensures
        tx_outcome(a, tx) == Err::<AccountView, TxError>(TxError::InsufficientFunds),
        tx_step(a, tx) == a,
{
    reveal(tx_outcome);
}

/// A dispute on an eligible transaction of amount `m` moves exactly `m` from
/// available to held: the total is untouched, and the account is not locked
/// by it.
pub proof fn lemma_dispute_moves_hold(a: AccountView, tx: Tx, amount: i32)
    requires
        !a.locked,
        tx.tx_type is Dispute,
        a.journal.contains_key(tx.tx_id),
        a.journal[tx.tx_id].tx_type == TxType::Withdrawal(amount),
        !a.journal[tx.tx_id].disputed,
    ensures
        tx_outcome(a, tx) is Ok,
        tx_step(a, tx).available == a.available - amount,
        tx_step(a, tx).held == a.held + amount,
        tx_step(a, tx).available + tx_step(a, tx).held == a.available + a.held,
        tx_step(a, tx).locked == a.locked,
        tx_step(a, tx).journal[tx.tx_id].disputed,
{
    reveal(tx_outcome);
}

/// A resolve on a disputed transaction of amount `m` reverses exactly the
/// movement the dispute made: `m` goes back from held to available.
pub proof fn lemma_resolve_reverses_dispute(a: AccountView, dispute: Tx, resolve: Tx, amount: i32)
    requires
        !a.locked,
        dispute.tx_type is Dispute,
        resolve.tx_type is Resolve,
        resolve.tx_id == dispute.tx_id,
        a.journal.contains_key(dispute.tx_id),
        a.journal[dispute.tx_id].tx_type == TxType::Withdrawal(amount),
        !a.journal[dispute.tx_id].disputed,
    ensures
        tx_outcome(tx_step(a, dispute), resolve) is Ok,
        tx_step(tx_step(a, dispute), resolve).available == a.available,
        tx_step(tx_step(a, dispute), resolve).held == a.held,
        tx_step(tx_step(a, dispute), resolve).locked == a.locked,
{
    reveal(tx_outcome);
}

/// A chargeback on a disputed transaction of amount `m` removes `m` from
/// held, leaves available where the dispute put it, and locks the account
/// for good.
pub proof fn lemma_chargeback_locks(a: AccountView, dispute: Tx, chargeback: Tx, amount: i32)
    requires
        !a.locked,
        dispute.tx_type is Dispute,
        chargeback.tx_type is Chargeback,
        chargeback.tx_id == dispute.tx_id,
        a.journal.contains_key(dispute.tx_id),
        a.journal[dispute.tx_id].tx_type == TxType::Withdrawal(amount),
        !a.journal[dispute.tx_id].disputed,
    ensures
        tx_outcome(tx_step(a, dispute), chargeback) is Ok,
        tx_step(tx_step(a, dispute), chargeback).held == a.held,
        tx_step(tx_step(a, dispute), chargeback).available == tx_step(a, dispute).available,
        tx_step(tx_step(a, dispute), chargeback).available == a.available - amount,
        tx_step(tx_step(a, dispute), chargeback).locked,
{
    reveal(tx_outcome);
}

/// Disputing the same transaction twice without an intervening resolve or
/// chargeback is rejected the second time, and the second dispute changes
/// nothing.
pub proof fn lemma_second_dispute_rejected(a: AccountView, first: Tx, second: Tx)
    requires
        first.tx_type is Dispute,
        second.tx_type is Dispute,
        second.tx_id == first.tx_id,
        tx_outcome(a, first) is Ok,
    ensures
        tx_outcome(tx_step(a, first), second) == Err::<AccountView, TxError>(
            TxError::AlreadyDisputed,
        ),
        tx_step(tx_step(a, first), second) == tx_step(a, first),
{
    reveal(tx_outcome);
}

/// Any transaction against a locked account is rejected and the account is
/// unchanged.
pub proof fn lemma_locked_rejects_all(a: AccountView, tx: Tx)
    requires
        a.locked,
    ensures
        tx_outcome(a, tx) == Err::<AccountView, TxError>(TxError::Locked),
        tx_step(a, tx) == a,
{
    reveal(tx_outcome);
}

/// A dispute, resolve or chargeback that references a transaction id never
/// journaled as a deposit or withdrawal is rejected as unknown and changes
/// nothing.
pub proof fn lemma_unknown_reference_rejected(a: AccountView, tx: Tx)
    requires
        !a.locked,
        tx.tx_type is Dispute || tx.tx_type is Resolve || tx.tx_type is Chargeback,
        !a.journal.contains_key(tx.tx_id),
    ensures
        tx_outcome(a, tx) == Err::<AccountView, TxError>(TxError::UnknownTx),
        tx_step(a, tx) == a,
{
    reveal(tx_outcome);
}

/// Only withdrawals are disputable: a dispute naming a journaled deposit is
/// always rejected as an invalid referenced type, and changes nothing. This
/// is deliberate, not an accident of the rules.
pub proof fn lemma_deposit_dispute_invalid(a: AccountView, tx: Tx, amount: i32)
    requires
        !a.locked,
        tx.tx_type is Dispute,
        a.journal.contains_key(tx.tx_id),
        a.journal[tx.tx_id].tx_type == TxType::Deposit(amount),
        !a.journal[tx.tx_id].disputed,
    ensures
        tx_outcome(a, tx) == Err::<AccountView, TxError>(TxError::InvalidTxType),
        tx_step(a, tx) == a,
{
    reveal(tx_outcome);
}

/// A deposit or withdrawal record lacking an amount is a terminal decode
/// error.
pub proof fn lemma_missing_amount_fatal(tag: Seq<u8>, client: ClientId, tx_id: TxId)
    requires
        spec_parse_tag(tag) == Some(TagKind::Deposit) || spec_parse_tag(tag) == Some(
            TagKind::Withdrawal,
        ),
    ensures
        spec_decode(tag, client, tx_id, None) == Err::<Tx, DecodeError>(DecodeError::MissingAmount),
{
}

/// An amount on a dispute, resolve or chargeback record is ignored
/// entirely: whatever stands in that field, present, absent or garbled, the
/// record decodes the same.
pub proof fn lemma_command_amount_ignored(
    tag: Seq<u8>,
    client: ClientId,
    tx_id: TxId,
    amount_a: Option<Seq<u8>>,
    amount_b: Option<Seq<u8>>,
)
    requires
        spec_parse_tag(tag) == Some(TagKind::Dispute) || spec_parse_tag(tag) == Some(
            TagKind::Resolve,
        ) || spec_parse_tag(tag) == Some(TagKind::Chargeback),
    ensures
        spec_decode(tag, client, tx_id, amount_a) == spec_decode(tag, client, tx_id, amount_b),
{
}

/// A chargeback without a prior dispute is rejected and the account stays
/// exactly as it was; in particular it stays unlocked.
pub proof fn lemma_chargeback_without_dispute_rejected(a: AccountView, tx: Tx)
    requires
        !a.locked,
        tx.tx_type is Chargeback,
        a.journal.contains_key(tx.tx_id),
        !a.journal[tx.tx_id].disputed,
    ensures
        tx_outcome(a, tx) == Err::<AccountView, TxError>(TxError::NotDisputed),
        tx_step(a, tx) == a,
        !tx_step(a, tx).locked,
{
    reveal(tx_outcome);
}

} // verus!


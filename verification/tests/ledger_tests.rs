use ledger::account::{Account, TxError};
use ledger::snapshot::money_to_text;
use ledger::store::AccountStore;
use ledger::tx::{Tx, TxType};

fn deposit(client_id: u16, tx_id: u32, amount: i32) -> Tx {
    Tx { client_id, tx_id, tx_type: TxType::Deposit(amount), disputed: false }
}

fn withdrawal(client_id: u16, tx_id: u32, amount: i32) -> Tx {
    Tx { client_id, tx_id, tx_type: TxType::Withdrawal(amount), disputed: false }
}

fn dispute(client_id: u16, tx_id: u32) -> Tx {
    Tx { client_id, tx_id, tx_type: TxType::Dispute, disputed: false }
}

fn resolve(client_id: u16, tx_id: u32) -> Tx {
    Tx { client_id, tx_id, tx_type: TxType::Resolve, disputed: false }
}

fn chargeback(client_id: u16, tx_id: u32) -> Tx {
    Tx { client_id, tx_id, tx_type: TxType::Chargeback, disputed: false }
}

#[test]
fn deposits_and_withdrawals_add_up() {
    let mut account = Account::new();
    assert_eq!(account.process_tx(deposit(1, 1, 10_000)), Ok(()));
    assert_eq!(account.process_tx(deposit(1, 2, 3_000)), Ok(()));
    assert_eq!(account.process_tx(withdrawal(1, 3, 4_000)), Ok(()));
    assert_eq!(account.available, 9_000);
    assert_eq!(account.held, 0);
    assert!(!account.locked);
}

#[test]
fn overdraft_rejected_state_unchanged() {
    let mut account = Account::new();
    assert_eq!(account.process_tx(deposit(1, 1, 5_000)), Ok(()));
    assert_eq!(
        account.process_tx(withdrawal(1, 2, 5_001)),
        Err(TxError::InsufficientFunds)
    );
    assert_eq!(account.available, 5_000);
    assert_eq!(account.held, 0);
    assert!(!account.locked);
    // The rejected withdrawal is not journaled either.
    assert_eq!(
        account.process_tx(dispute(1, 2)),
        Err(TxError::UnknownTx)
    );
}

#[test]
fn dispute_moves_exact_amount_to_held() {
    let mut account = Account::new();
    assert_eq!(account.process_tx(deposit(1, 1, 10_000)), Ok(()));
    assert_eq!(account.process_tx(withdrawal(1, 2, 4_000)), Ok(()));
    assert_eq!(account.process_tx(dispute(1, 2)), Ok(()));
    assert_eq!(account.available, 2_000);
    assert_eq!(account.held, 4_000);
    assert!(!account.locked);
}

#[test]
fn resolve_reverses_dispute_exactly() {
    let mut account = Account::new();
    assert_eq!(account.process_tx(deposit(1, 1, 10_000)), Ok(()));
    assert_eq!(account.process_tx(withdrawal(1, 2, 4_000)), Ok(()));
    assert_eq!(account.process_tx(dispute(1, 2)), Ok(()));
    assert_eq!(account.process_tx(resolve(1, 2)), Ok(()));
    assert_eq!(account.available, 6_000);
    assert_eq!(account.held, 0);
    assert!(!account.locked);
}

#[test]
fn chargeback_removes_held_and_locks() {
    let mut account = Account::new();
    assert_eq!(account.process_tx(deposit(1, 1, 10_000)), Ok(()));
    assert_eq!(account.process_tx(withdrawal(1, 2, 4_000)), Ok(()));
    assert_eq!(account.process_tx(dispute(1, 2)), Ok(()));
    assert_eq!(account.process_tx(chargeback(1, 2)), Ok(()));
    assert_eq!(account.available, 2_000);
    assert_eq!(account.held, 0);
    assert!(account.locked);
}

#[test]
fn second_dispute_rejected() {
    let mut account = Account::new();
    assert_eq!(account.process_tx(deposit(1, 1, 10_000)), Ok(()));
    assert_eq!(account.process_tx(withdrawal(1, 2, 4_000)), Ok(()));
    assert_eq!(account.process_tx(dispute(1, 2)), Ok(()));
    assert_eq!(account.process_tx(dispute(1, 2)), Err(TxError::AlreadyDisputed));
    assert_eq!(account.available, 2_000);
    assert_eq!(account.held, 4_000);
}

#[test]
fn resolved_tx_cannot_be_disputed_again() {
    let mut account = Account::new();
    assert_eq!(account.process_tx(deposit(1, 1, 10_000)), Ok(()));
    assert_eq!(account.process_tx(withdrawal(1, 2, 4_000)), Ok(()));
    assert_eq!(account.process_tx(dispute(1, 2)), Ok(()));
    assert_eq!(account.process_tx(resolve(1, 2)), Ok(()));
    // The disputed flag stays set after a resolve.
    assert_eq!(account.process_tx(dispute(1, 2)), Err(TxError::AlreadyDisputed));
}

#[test]
fn locked_account_rejects_everything() {
    let mut account = Account::new();
    assert_eq!(account.process_tx(deposit(1, 1, 10_000)), Ok(()));
    assert_eq!(account.process_tx(withdrawal(1, 2, 4_000)), Ok(()));
    assert_eq!(account.process_tx(dispute(1, 2)), Ok(()));
    assert_eq!(account.process_tx(chargeback(1, 2)), Ok(()));
    assert!(account.locked);
    assert_eq!(account.process_tx(deposit(1, 3, 1_000)), Err(TxError::Locked));
    assert_eq!(account.process_tx(withdrawal(1, 4, 1_000)), Err(TxError::Locked));
    assert_eq!(account.process_tx(dispute(1, 1)), Err(TxError::Locked));
    assert_eq!(account.available, 2_000);
    assert_eq!(account.held, 0);
}

#[test]
fn unknown_reference_rejected() {
    let mut account = Account::new();
    assert_eq!(account.process_tx(deposit(1, 1, 10_000)), Ok(()));
    assert_eq!(account.process_tx(dispute(1, 99)), Err(TxError::UnknownTx));
    assert_eq!(account.process_tx(resolve(1, 99)), Err(TxError::UnknownTx));
    assert_eq!(account.process_tx(chargeback(1, 99)), Err(TxError::UnknownTx));
    assert_eq!(account.available, 10_000);
}

#[test]
fn chargeback_without_dispute_rejected() {
    let mut account = Account::new();
    assert_eq!(account.process_tx(deposit(1, 1, 10_000)), Ok(()));
    assert_eq!(account.process_tx(withdrawal(1, 2, 4_000)), Ok(()));
    assert_eq!(account.process_tx(chargeback(1, 2)), Err(TxError::NotDisputed));
    assert!(!account.locked);
    assert_eq!(account.available, 6_000);
}

#[test]
fn dispute_on_deposit_is_invalid_type() {
    let mut account = Account::new();
    assert_eq!(account.process_tx(deposit(1, 1, 10_000)), Ok(()));
    assert_eq!(account.process_tx(dispute(1, 1)), Err(TxError::InvalidTxType));
    assert_eq!(account.available, 10_000);
    assert_eq!(account.held, 0);
}

#[test]
fn example_scenario_two_clients() {
    let mut store = AccountStore::new();
    let batch = vec![
        deposit(1, 1, 10_000),
        deposit(2, 2, 5_000),
        deposit(1, 3, 3_000),
        withdrawal(1, 4, 4_000),
        dispute(1, 3),
    ];
    assert_eq!(store.apply_batch(&batch), None);
    let rows = store.snapshot();
    assert_eq!(rows.len(), 2);
    assert_eq!(rows[0].client, 1);
    assert_eq!(rows[0].available, 9_000);
    assert_eq!(rows[0].held, 0);
    assert_eq!(rows[0].total, 9_000);
    assert!(!rows[0].locked);
    assert_eq!(rows[1].client, 2);
    assert_eq!(rows[1].available, 5_000);
    assert_eq!(rows[1].held, 0);
    assert_eq!(rows[1].total, 5_000);
    assert!(!rows[1].locked);
    assert_eq!(money_to_text(rows[0].total), b"9.000".to_vec());
    assert_eq!(money_to_text(rows[1].total), b"5.000".to_vec());
}

#[test]
fn store_isolates_clients() {
    let mut store = AccountStore::new();
    assert_eq!(store.apply_tx(deposit(1, 1, 1_000)), Ok(()));
    assert_eq!(store.apply_tx(deposit(2, 2, 2_000)), Ok(()));
    assert_eq!(store.apply_tx(withdrawal(1, 3, 500)), Ok(()));
    let rows = store.snapshot();
    assert_eq!(rows.len(), 2);
    assert_eq!(rows[0].available, 500);
    assert_eq!(rows[1].available, 2_000);
}

#[test]
fn batch_stops_at_overflowing_tx() {
    let mut store = AccountStore::new();
    let batch = vec![
        deposit(1, 1, i32::MAX),
        deposit(1, 2, 1),
        deposit(2, 3, 7),
    ];
    assert_eq!(store.apply_batch(&batch), Some(1));
    let rows = store.snapshot();
    assert_eq!(rows.len(), 1);
    assert_eq!(rows[0].available, i32::MAX);
}

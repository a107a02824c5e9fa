use payments_engine::{Amount, EngineError, Transaction, TransactionProcessor, TransactionType};

use rust_decimal::Decimal;
use std::str::FromStr;

fn decimal(value: &str) -> Decimal {
    Decimal::from_str(value).unwrap()
}

fn amount(value: &str) -> Amount {
    let d = decimal(value);
    Amount::new(d.mantissa(), d.scale()).unwrap()
}

fn number(a: Amount) -> Decimal {
    Decimal::from_i128_with_scale(a.mantissa, a.scale)
}

fn deposit(client: u16, tx: u32, value: &str) -> Transaction {
    Transaction { client, tx_type: TransactionType::Deposit, tx, amount: Some(amount(value)) }
}

fn withdrawal(client: u16, tx: u32, value: &str) -> Transaction {
    Transaction { client, tx_type: TransactionType::Withdrawal, tx, amount: Some(amount(value)) }
}

fn dispute(client: u16, tx: u32) -> Transaction {
    Transaction { client, tx_type: TransactionType::Dispute, tx, amount: None }
}

fn resolve(client: u16, tx: u32) -> Transaction {
    Transaction { client, tx_type: TransactionType::Resolve, tx, amount: None }
}

fn chargeback(client: u16, tx: u32) -> Transaction {
    Transaction { client, tx_type: TransactionType::Chargeback, tx, amount: None }
}

#[test]
fn moves_funds_from_available_to_held() {
    let mut processor = TransactionProcessor::new();
    processor.process(deposit(1, 100, "50.0")).unwrap();

    let result = processor.process(dispute(1, 100));

    assert!(result.is_ok());
    let account = processor.accounts().get(&1).unwrap();
    assert_eq!(number(account.available), Decimal::ZERO);
    assert_eq!(number(account.held), decimal("50.0"));
    assert_eq!(number(account.total()), decimal("50.0"));

    let deposit_record = processor.deposits().get(&100).unwrap();
    assert!(deposit_record.disputed);
}

#[test]
fn only_affects_disputed_deposit_amount() {
    let mut processor = TransactionProcessor::new();
    processor.process(deposit(1, 100, "30.0")).unwrap();
    processor.process(deposit(1, 101, "20.0")).unwrap();

    let result = processor.process(dispute(1, 100));

    assert!(result.is_ok());
    let account = processor.accounts().get(&1).unwrap();
    assert_eq!(number(account.available), decimal("20.0"));
    assert_eq!(number(account.held), decimal("30.0"));
    assert_eq!(number(account.total()), decimal("50.0"));
}

#[test]
fn rejects_nonexistent_transaction() {
    let mut processor = TransactionProcessor::new();
    processor.process(deposit(1, 100, "50.0")).unwrap();

    let result = processor.process(dispute(1, 999));

    assert_eq!(result.unwrap_err(), EngineError::TransactionNotFound(999));
}

#[test]
fn rejects_already_disputed_transaction() {
    let mut processor = TransactionProcessor::new();
    processor.process(deposit(1, 100, "50.0")).unwrap();
    processor.process(dispute(1, 100)).unwrap();

    let result = processor.process(dispute(1, 100));

    assert_eq!(result.unwrap_err(), EngineError::DisputeAlreadyActive(100));
}

#[test]
fn rejects_insufficient_available_funds() {
    let mut processor = TransactionProcessor::new();
    processor.process(deposit(1, 100, "100.0")).unwrap();
    processor.process(withdrawal(1, 101, "80.0")).unwrap();

    let result = processor.process(dispute(1, 100));

    match result {
        Err(EngineError::InsufficientFunds(client, available, required)) => {
            assert_eq!(client, 1);
            assert_eq!(available, "20.0");
            assert_eq!(required, "100.0");
        }
        other => panic!("Expected InsufficientFunds error, got: {:?}", other),
    }

    let deposit_record = processor.deposits().get(&100).unwrap();
    assert!(!deposit_record.disputed);
}

#[test]
fn rejects_wrong_client_as_fraud() {
    let mut processor = TransactionProcessor::new();
    processor.process(deposit(1, 100, "50.0")).unwrap();

    let result = processor.process(dispute(2, 100));

    assert_eq!(result.unwrap_err(), EngineError::FraudAttempt(2, 100, 1));

    let deposit_record = processor.deposits().get(&100).unwrap();
    assert!(!deposit_record.disputed);

    let account = processor.accounts().get(&1).unwrap();
    assert_eq!(number(account.available), decimal("50.0"));
    assert_eq!(number(account.held), Decimal::ZERO);
}

#[test]
fn rejects_dispute_on_locked_account() {
    let mut processor = TransactionProcessor::new();
    processor.process(deposit(1, 100, "50.0")).unwrap();
    processor.process(deposit(1, 101, "30.0")).unwrap();
    processor.process(dispute(1, 100)).unwrap();
    processor.process(chargeback(1, 100)).unwrap();

    assert!(processor.accounts().get(&1).unwrap().locked);

    let result = processor.process(dispute(1, 101));

    assert_eq!(result.unwrap_err(), EngineError::AccountLocked(1));
}

#[test]
fn moves_funds_from_held_back_to_available() {
    let mut processor = TransactionProcessor::new();
    processor.process(deposit(1, 100, "50.0")).unwrap();
    processor.process(dispute(1, 100)).unwrap();

    let result = processor.process(resolve(1, 100));

    assert!(result.is_ok());
    let account = processor.accounts().get(&1).unwrap();
    assert_eq!(number(account.available), decimal("50.0"));
    assert_eq!(number(account.held), Decimal::ZERO);
    assert_eq!(number(account.total()), decimal("50.0"));
}

#[test]
fn removes_deposit_record_after_resolution() {
    let mut processor = TransactionProcessor::new();
    processor.process(deposit(1, 100, "50.0")).unwrap();
    processor.process(dispute(1, 100)).unwrap();

    processor.process(resolve(1, 100)).unwrap();

    assert!(processor.deposits().get(&100).is_none());
}

#[test]
fn prevents_redispute_of_resolved_transaction() {
    let mut processor = TransactionProcessor::new();
    processor.process(deposit(1, 100, "50.0")).unwrap();
    processor.process(dispute(1, 100)).unwrap();
    processor.process(resolve(1, 100)).unwrap();

    let result = processor.process(dispute(1, 100));

    assert_eq!(result.unwrap_err(), EngineError::TransactionNotFound(100));
}

#[test]
fn rejects_resolve_on_undisputed_transaction() {
    let mut processor = TransactionProcessor::new();
    processor.process(deposit(1, 100, "50.0")).unwrap();

    let result = processor.process(resolve(1, 100));

    assert_eq!(result.unwrap_err(), EngineError::DisputeNotFound(100));
}

#[test]
fn transaction_processor_disputes_rejects_wrong_client_as_fraud() {
    let mut processor = TransactionProcessor::new();
    processor.process(deposit(1, 100, "50.0")).unwrap();
    processor.process(dispute(1, 100)).unwrap();

    let result = processor.process(resolve(2, 100));

    assert_eq!(result.unwrap_err(), EngineError::FraudAttempt(2, 100, 1));

    let account = processor.accounts().get(&1).unwrap();
    assert_eq!(number(account.available), Decimal::ZERO);
    assert_eq!(number(account.held), decimal("50.0"));

    let deposit_record = processor.deposits().get(&100).unwrap();
    assert!(deposit_record.disputed);
}

#[test]
fn deducts_from_held_and_locks_account() {
    let mut processor = TransactionProcessor::new();
    processor.process(deposit(1, 100, "50.0")).unwrap();
    processor.process(dispute(1, 100)).unwrap();

    let result = processor.process(chargeback(1, 100));

    assert!(result.is_ok());
    let account = processor.accounts().get(&1).unwrap();
    assert_eq!(number(account.available), Decimal::ZERO);
    assert_eq!(number(account.held), Decimal::ZERO);
    assert_eq!(number(account.total()), Decimal::ZERO);
    assert!(account.locked);
}

#[test]
fn preserves_non_disputed_available_balance() {
    let mut processor = TransactionProcessor::new();
    processor.process(deposit(1, 100, "50.0")).unwrap();
    processor.process(deposit(1, 101, "30.0")).unwrap();
    processor.process(dispute(1, 100)).unwrap();

    let result = processor.process(chargeback(1, 100));

    assert!(result.is_ok());
    let account = processor.accounts().get(&1).unwrap();
    assert_eq!(number(account.available), decimal("30.0"));
    assert_eq!(number(account.held), Decimal::ZERO);
    assert_eq!(number(account.total()), decimal("30.0"));
    assert!(account.locked);
}

#[test]
fn blocks_all_future_transactions() {
    let mut processor = TransactionProcessor::new();
    processor.process(deposit(1, 100, "50.0")).unwrap();
    processor.process(dispute(1, 100)).unwrap();
    processor.process(chargeback(1, 100)).unwrap();

    assert_eq!(
        processor.process(deposit(1, 101, "10.0")).unwrap_err(),
        EngineError::AccountLocked(1)
    );
    assert_eq!(
        processor.process(withdrawal(1, 102, "10.0")).unwrap_err(),
        EngineError::AccountLocked(1)
    );
}

#[test]
fn rejects_chargeback_on_undisputed_transaction() {
    let mut processor = TransactionProcessor::new();
    processor.process(deposit(1, 100, "50.0")).unwrap();

    let result = processor.process(chargeback(1, 100));

    assert_eq!(result.unwrap_err(), EngineError::DisputeNotFound(100));

    let account = processor.accounts().get(&1).unwrap();
    assert!(!account.locked);
}

#[test]
fn chargeback_rejects_wrong_client_as_fraud() {
    let mut processor = TransactionProcessor::new();
    processor.process(deposit(1, 100, "50.0")).unwrap();
    processor.process(dispute(1, 100)).unwrap();

    let result = processor.process(chargeback(2, 100));

    assert_eq!(result.unwrap_err(), EngineError::FraudAttempt(2, 100, 1));

    let account = processor.accounts().get(&1).unwrap();
    assert!(!account.locked);

    assert_eq!(number(account.held), decimal("50.0"));
}

use payments_engine::{Amount, EngineError, Transaction, TransactionProcessor, TransactionType};

use rust_decimal::Decimal;
use std::str::FromStr;

fn decimal(value: &str) -> Decimal {
    Decimal::from_str(value).unwrap()
}

fn amount(value: &str) -> Amount {
    let d = decimal(value);
    Amount::new(d.mantissa(), d.scale()).unwrap()
}

fn number(a: Amount) -> Decimal {
    Decimal::from_i128_with_scale(a.mantissa, a.scale)
}

fn deposit(client: u16, tx: u32, value: &str) -> Transaction {
    Transaction { client, tx_type: TransactionType::Deposit, tx, amount: Some(amount(value)) }
}

fn withdrawal(client: u16, tx: u32, value: &str) -> Transaction {
    Transaction { client, tx_type: TransactionType::Withdrawal, tx, amount: Some(amount(value)) }
}

#[test]
fn creates_account_for_new_client() {
    let mut processor = TransactionProcessor::new();
    assert!(processor.accounts().is_empty());

    let result = processor.process(deposit(1, 100, "50.0"));

    assert!(result.is_ok());
    assert_eq!(processor.accounts().len(), 1);

    let account = processor.accounts().get(&1).unwrap();
    assert_eq!(account.client_id, 1);
    assert_eq!(number(account.available), decimal("50.0"));
    assert_eq!(number(account.held), Decimal::ZERO);
    assert_eq!(number(account.total()), decimal("50.0"));
    assert!(!account.locked);
}

#[test]
fn adds_to_existing_account_balance() {
    let mut processor = TransactionProcessor::new();
    processor.process(deposit(1, 100, "50.0")).unwrap();

    let result = processor.process(deposit(1, 101, "25.0"));

    assert!(result.is_ok());
    let account = processor.accounts().get(&1).unwrap();
    assert_eq!(number(account.available), decimal("75.0"));
    assert_eq!(number(account.total()), decimal("75.0"));
}

#[test]
fn stores_deposit_record_for_dispute_tracking() {
    let mut processor = TransactionProcessor::new();

    let result = processor.process(deposit(1, 100, "50.0"));

    assert!(result.is_ok());
    let deposit_record = processor.deposits().get(&100).unwrap();
    assert_eq!(deposit_record.client_id, 1);
    assert_eq!(number(deposit_record.amount), decimal("50.0"));
    assert!(!deposit_record.disputed);
}

#[test]
fn rejects_duplicate_transaction_id() {
    let mut processor = TransactionProcessor::new();
    processor.process(deposit(1, 100, "50.0")).unwrap();

    let result = processor.process(deposit(1, 100, "1000.0"));

    assert_eq!(result.unwrap_err(), EngineError::DuplicateTransaction(100));

    let account = processor.accounts().get(&1).unwrap();
    assert_eq!(number(account.available), decimal("50.0"));
}

#[test]
fn rejects_deposit_to_locked_account() {
    let mut processor = TransactionProcessor::new();
    processor.process(deposit(1, 100, "50.0")).unwrap();
    processor
        .process(Transaction { client: 1, tx_type: TransactionType::Dispute, tx: 100, amount: None })
        .unwrap();
    processor
        .process(Transaction {
            client: 1,
            tx_type: TransactionType::Chargeback,
            tx: 100,
            amount: None,
        })
        .unwrap();

    assert!(processor.accounts().get(&1).unwrap().locked);

    let result = processor.process(deposit(1, 101, "25.0"));

    assert_eq!(result.unwrap_err(), EngineError::AccountLocked(1));
}

#[test]
fn transaction_processor_deposits_rejects_missing_amount() {
    let mut processor = TransactionProcessor::new();
    let tx = Transaction { client: 1, tx_type: TransactionType::Deposit, tx: 100, amount: None };

    let result = processor.process(tx);

    match result {
        Err(EngineError::InvalidTransaction(msg)) => {
            assert!(msg.contains("missing amount"), "Expected 'missing amount' in: {}", msg);
        }
        other => panic!("Expected InvalidTransaction error, got: {:?}", other),
    }
}

#[test]
fn rejects_zero_amount() {
    let mut processor = TransactionProcessor::new();
    let tx = Transaction {
        client: 1,
        tx_type: TransactionType::Deposit,
        tx: 100,
        amount: Some(Amount::zero()),
    };

    let result = processor.process(tx);

    match result {
        Err(EngineError::InvalidTransaction(msg)) => {
            assert!(msg.contains("non-positive"), "Expected 'non-positive' in: {}", msg);
        }
        other => panic!("Expected InvalidTransaction error, got: {:?}", other),
    }
}

#[test]
fn rejects_negative_amount() {
    let mut processor = TransactionProcessor::new();
    let tx = Transaction {
        client: 1,
        tx_type: TransactionType::Deposit,
        tx: 100,
        amount: Some(amount("-10.0")),
    };

    let result = processor.process(tx);

    match result {
        Err(EngineError::InvalidTransaction(msg)) => {
            assert!(msg.contains("non-positive"), "Expected 'non-positive' in: {}", msg);
        }
        other => panic!("Expected InvalidTransaction error, got: {:?}", other),
    }
}

#[test]
fn deducts_from_available_balance() {
    let mut processor = TransactionProcessor::new();
    processor.process(deposit(1, 100, "100.0")).unwrap();

    let result = processor.process(withdrawal(1, 101, "40.0"));

    assert!(result.is_ok());
    let account = processor.accounts().get(&1).unwrap();
    assert_eq!(number(account.available), decimal("60.0"));
    assert_eq!(number(account.held), Decimal::ZERO);
    assert_eq!(number(account.total()), decimal("60.0"));
}

#[test]
fn allows_exact_balance_withdrawal() {
    let mut processor = TransactionProcessor::new();
    processor.process(deposit(1, 100, "50.0")).unwrap();

    let result = processor.process(withdrawal(1, 101, "50.0"));

    assert!(result.is_ok());
    let account = processor.accounts().get(&1).unwrap();
    assert_eq!(number(account.available), Decimal::ZERO);
    assert_eq!(number(account.total()), Decimal::ZERO);
}

#[test]
fn rejects_insufficient_funds() {
    let mut processor = TransactionProcessor::new();
    processor.process(deposit(1, 100, "50.0")).unwrap();

    let result = processor.process(withdrawal(1, 101, "60.0"));

    match result {
        Err(EngineError::InsufficientFunds(client, available, requested)) => {
            assert_eq!(client, 1);
            assert_eq!(available, "50.0");
            assert_eq!(requested, "60.0");
        }
        other => panic!("Expected InsufficientFunds error, got: {:?}", other),
    }

    let account = processor.accounts().get(&1).unwrap();
    assert_eq!(number(account.available), decimal("50.0"));
}

#[test]
fn rejects_withdrawal_from_locked_account() {
    let mut processor = TransactionProcessor::new();
    processor.process(deposit(1, 100, "100.0")).unwrap();
    processor
        .process(Transaction { client: 1, tx_type: TransactionType::Dispute, tx: 100, amount: None })
        .unwrap();
    processor
        .process(Transaction {
            client: 1,
            tx_type: TransactionType::Chargeback,
            tx: 100,
            amount: None,
        })
        .unwrap();

    let result = processor.process(withdrawal(1, 101, "10.0"));

    assert_eq!(result.unwrap_err(), EngineError::AccountLocked(1));
}

#[test]
fn rejects_missing_amount() {
    let mut processor = TransactionProcessor::new();
    processor.process(deposit(1, 100, "50.0")).unwrap();
    let tx =
        Transaction { client: 1, tx_type: TransactionType::Withdrawal, tx: 101, amount: None };

    let result = processor.process(tx);

    match result {
        Err(EngineError::InvalidTransaction(msg)) => {
            assert!(msg.contains("missing amount"), "Expected 'missing amount' in: {}", msg);
        }
        other => panic!("Expected InvalidTransaction error, got: {:?}", other),
    }
}

#[test]
fn creates_account_for_new_client_with_zero_balance() {
    let mut processor = TransactionProcessor::new();

    let result = processor.process(withdrawal(1, 100, "10.0"));

    match result {
        Err(EngineError::InsufficientFunds(client, available, requested)) => {
            assert_eq!(client, 1);
            assert_eq!(available, "0");
            assert_eq!(requested, "10.0");
        }
        other => panic!("Expected InsufficientFunds error, got: {:?}", other),
    }

    let account = processor.accounts().get(&1).unwrap();
    assert_eq!(number(account.available), Decimal::ZERO);
}

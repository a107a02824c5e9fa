use payments_engine::account::format_decimal;
use payments_engine::transaction::check_amount_precision;
use payments_engine::{
    Account, Amount, EngineError, PaymentsEngine, Transaction, TransactionProcessor,
    TransactionType,
};

use rust_decimal::Decimal;
use std::str::FromStr;

const MAX: i128 = 79228162514264337593543950335;

fn decimal(value: &str) -> Decimal {
    Decimal::from_str(value).unwrap()
}

fn amount(value: &str) -> Amount {
    let d = decimal(value);
    Amount::new(d.mantissa(), d.scale()).unwrap()
}

fn number(a: Amount) -> Decimal {
    Decimal::from_i128_with_scale(a.mantissa, a.scale)
}

fn tx(tx_type: TransactionType, client: u16, id: u32, value: Option<&str>) -> Transaction {
    Transaction { client, tx_type, tx: id, amount: value.map(amount) }
}

fn snapshot(processor: &TransactionProcessor, client: u16) -> (Decimal, Decimal, bool) {
    let a = processor.accounts().get(&client).unwrap();
    (number(a.available), number(a.held), a.locked)
}

#[test]
fn non_positive_amount_message_names_transaction_and_amount() {
    let mut processor = TransactionProcessor::new();
    let result = processor.process(tx(TransactionType::Deposit, 1, 100, Some("-10.0")));
    assert_eq!(
        result.unwrap_err(),
        EngineError::InvalidTransaction("Deposit tx 100 has non-positive amount: -10.0".to_string())
    );
    let result = processor.process(tx(TransactionType::Withdrawal, 4, 4294967295, Some("0")));
    assert_eq!(
        result.unwrap_err(),
        EngineError::InvalidTransaction(
            "Withdrawal tx 4294967295 has non-positive amount: 0".to_string()
        )
    );
    let result = processor.process(tx(TransactionType::Deposit, 1, 5, None));
    assert_eq!(
        result.unwrap_err(),
        EngineError::InvalidTransaction("Deposit missing amount".to_string())
    );
    assert!(processor.accounts().is_empty());
}

#[test]
fn amount_precision_is_at_most_four_places() {
    assert_eq!(
        check_amount_precision(Some(amount("1.23456"))).unwrap_err(),
        "amount precision exceeds 4 decimal places"
    );
    let ok = check_amount_precision(Some(amount("1.2345"))).unwrap().unwrap();
    assert_eq!((ok.mantissa, ok.scale), (12345, 4));
    assert!(check_amount_precision(None).unwrap().is_none());
}

#[test]
fn amounts_outside_the_decimal_range_are_refused() {
    assert!(Amount::new(MAX, 28).is_some());
    assert!(Amount::new(MAX + 1, 0).is_none());
    assert!(Amount::new(-MAX - 1, 0).is_none());
    assert!(Amount::new(1, 29).is_none());
}

#[test]
fn normalize_strips_trailing_zeros() {
    let n = amount("3.100").normalize();
    assert_eq!((n.mantissa, n.scale), (31, 1));
    let n = amount("0.00").normalize();
    assert_eq!((n.mantissa, n.scale), (0, 0));
    let n = amount("-1.50").normalize();
    assert_eq!((n.mantissa, n.scale), (-15, 1));
    let n = amount("120").normalize();
    assert_eq!((n.mantissa, n.scale), (120, 0));
}

#[test]
fn listing_text_rounds_to_four_places_and_strips_zeros() {
    assert_eq!(format_decimal(amount("50.0")), "50");
    assert_eq!(format_decimal(amount("1.23456")), "1.2346");
    assert_eq!(format_decimal(amount("2.00005")), "2");
    assert_eq!(format_decimal(amount("0.000")), "0");
    assert_eq!(format_decimal(amount("-7.25")), "-7.25");
}

#[test]
fn total_is_available_plus_held() {
    let account = Account {
        client_id: 9,
        available: amount("1.25"),
        held: amount("2.5"),
        locked: false,
    };
    assert_eq!(number(account.total()), decimal("3.75"));
    assert_eq!(number(account.checked_total().unwrap()), decimal("3.75"));
    assert!(account.has_sufficient_funds(amount("1.25")));
    assert!(!account.has_sufficient_funds(amount("1.2501")));
}

#[test]
fn total_overflow_is_reported() {
    let account = Account {
        client_id: 9,
        available: Amount::new(MAX, 0).unwrap(),
        held: Amount::new(1, 0).unwrap(),
        locked: false,
    };
    assert!(account.checked_total().is_none());
}

#[test]
fn new_account_is_empty_and_unlocked() {
    let account = Account::new(42);
    assert_eq!(account.client_id, 42);
    assert_eq!(number(account.available), Decimal::ZERO);
    assert_eq!(number(account.held), Decimal::ZERO);
    assert!(!account.locked);
}

#[test]
fn locked_account_never_changes() {
    let mut processor = TransactionProcessor::new();
    processor.process(tx(TransactionType::Deposit, 1, 1, Some("10.0"))).unwrap();
    processor.process(tx(TransactionType::Deposit, 1, 2, Some("5.5"))).unwrap();
    processor.process(tx(TransactionType::Dispute, 1, 2, None)).unwrap();
    processor.process(tx(TransactionType::Deposit, 1, 3, Some("1.0"))).unwrap();
    processor.process(tx(TransactionType::Dispute, 1, 3, None)).unwrap();
    processor.process(tx(TransactionType::Chargeback, 1, 2, None)).unwrap();
    let before = snapshot(&processor, 1);
    assert_eq!(before, (decimal("10.0"), decimal("1.0"), true));

    let later = [
        tx(TransactionType::Deposit, 1, 4, Some("3")),
        tx(TransactionType::Withdrawal, 1, 5, Some("3")),
        tx(TransactionType::Dispute, 1, 1, None),
        tx(TransactionType::Resolve, 1, 3, None),
        tx(TransactionType::Chargeback, 1, 3, None),
        tx(TransactionType::Dispute, 2, 1, None),
    ];
    for t in later {
        assert!(processor.process(t).is_err());
        assert_eq!(snapshot(&processor, 1), before);
    }
}

#[test]
fn resolve_undoes_dispute() {
    let mut processor = TransactionProcessor::new();
    processor.process(tx(TransactionType::Deposit, 7, 1, Some("12.34"))).unwrap();
    processor.process(tx(TransactionType::Deposit, 7, 2, Some("0.66"))).unwrap();
    let before = snapshot(&processor, 7);
    processor.process(tx(TransactionType::Dispute, 7, 1, None)).unwrap();
    assert_eq!(snapshot(&processor, 7), (decimal("0.66"), decimal("12.34"), false));
    processor.process(tx(TransactionType::Resolve, 7, 1, None)).unwrap();
    assert_eq!(snapshot(&processor, 7), before);
    assert!(processor.deposits().get(&1).is_none());
    assert!(processor.deposits().get(&2).is_some());
}

#[test]
fn resolved_deposit_is_forgotten() {
    let mut processor = TransactionProcessor::new();
    processor.process(tx(TransactionType::Deposit, 3, 30, Some("5"))).unwrap();
    processor.process(tx(TransactionType::Dispute, 3, 30, None)).unwrap();
    processor.process(tx(TransactionType::Resolve, 3, 30, None)).unwrap();
    for kind in [TransactionType::Dispute, TransactionType::Resolve, TransactionType::Chargeback] {
        assert_eq!(
            processor.process(tx(kind, 3, 30, None)).unwrap_err(),
            EngineError::TransactionNotFound(30)
        );
    }
}

#[test]
fn deposit_id_is_taken_once_recorded() {
    let mut processor = TransactionProcessor::new();
    processor.process(tx(TransactionType::Deposit, 3, 30, Some("5"))).unwrap();
    let before = snapshot(&processor, 3);
    assert_eq!(
        processor.process(tx(TransactionType::Deposit, 4, 30, Some("1"))).unwrap_err(),
        EngineError::DuplicateTransaction(30)
    );
    assert_eq!(snapshot(&processor, 3), before);
    assert!(processor.accounts().get(&4).is_none());
}

#[test]
fn refused_withdrawal_leaves_only_an_empty_account() {
    let mut processor = TransactionProcessor::new();
    processor.process(tx(TransactionType::Deposit, 1, 1, Some("2"))).unwrap();
    let before = snapshot(&processor, 1);
    assert!(processor.process(tx(TransactionType::Withdrawal, 2, 2, Some("1"))).is_err());
    assert!(processor.process(tx(TransactionType::Withdrawal, 1, 3, Some("2.01"))).is_err());
    assert_eq!(snapshot(&processor, 1), before);
    assert_eq!(snapshot(&processor, 2), (Decimal::ZERO, Decimal::ZERO, false));
    assert_eq!(processor.deposits().len(), 1);
}

#[test]
fn dispute_ignores_the_transaction_amount() {
    let mut processor = TransactionProcessor::new();
    processor.process(tx(TransactionType::Deposit, 1, 1, Some("2"))).unwrap();
    assert_eq!(
        processor.process(tx(TransactionType::Dispute, 1, 1, Some("99"))).map(|_| ()),
        Ok(())
    );
    assert_eq!(snapshot(&processor, 1), (Decimal::ZERO, decimal("2"), false));
}

#[test]
fn funds_move_only_by_the_transaction_amount() {
    let mut processor = TransactionProcessor::new();
    processor.process(tx(TransactionType::Deposit, 1, 1, Some("10"))).unwrap();
    processor.process(tx(TransactionType::Deposit, 2, 2, Some("4"))).unwrap();
    let other = snapshot(&processor, 2);
    processor.process(tx(TransactionType::Withdrawal, 1, 3, Some("2.5"))).unwrap();
    processor.process(tx(TransactionType::Dispute, 1, 1, None)).unwrap_err();
    processor.process(tx(TransactionType::Deposit, 1, 4, Some("3"))).unwrap();
    processor.process(tx(TransactionType::Dispute, 1, 4, None)).unwrap();
    let (available, held, _) = snapshot(&processor, 1);
    assert_eq!(available + held, decimal("10.5"));
    processor.process(tx(TransactionType::Chargeback, 1, 4, None)).unwrap();
    let (available, held, locked) = snapshot(&processor, 1);
    assert_eq!(available + held, decimal("7.5"));
    assert!(locked);
    assert_eq!(snapshot(&processor, 2), other);
}

#[test]
fn balances_stay_non_negative() {
    let mut processor = TransactionProcessor::new();
    let script = [
        tx(TransactionType::Deposit, 1, 1, Some("1.5")),
        tx(TransactionType::Withdrawal, 1, 2, Some("1.5")),
        tx(TransactionType::Dispute, 1, 1, None),
        tx(TransactionType::Deposit, 1, 3, Some("0.25")),
        tx(TransactionType::Dispute, 1, 3, None),
        tx(TransactionType::Withdrawal, 1, 4, Some("0.01")),
        tx(TransactionType::Chargeback, 1, 3, None),
        tx(TransactionType::Resolve, 1, 3, None),
    ];
    for t in script {
        let _ = processor.process(t);
        for account in processor.accounts().values() {
            assert!(number(account.available) >= Decimal::ZERO);
            assert!(number(account.held) >= Decimal::ZERO);
            assert!(number(account.total()) >= Decimal::ZERO);
        }
    }
}

#[test]
fn listing_is_ordered_by_client() {
    let mut engine = PaymentsEngine::new();
    engine.process_transaction(tx(TransactionType::Deposit, 3, 1, Some("1.50"))).unwrap();
    engine.process_transaction(tx(TransactionType::Deposit, 1, 2, Some("2.123456"))).unwrap();
    engine.process_transaction(tx(TransactionType::Deposit, 65535, 3, Some("9"))).unwrap();
    engine.process_transaction(tx(TransactionType::Deposit, 2, 4, Some("4"))).unwrap();
    engine.process_transaction(tx(TransactionType::Dispute, 2, 4, None)).unwrap();
    let rows = engine.account_outputs();
    let clients: Vec<u16> = rows.iter().map(|r| r.client).collect();
    assert_eq!(clients, vec![1, 2, 3, 65535]);
    assert_eq!(rows[0].available, "2.1235");
    assert_eq!(rows[0].total, "2.1235");
    assert_eq!(rows[1].available, "0");
    assert_eq!(rows[1].held, "4");
    assert_eq!(rows[1].total, "4");
    assert_eq!(rows[2].available, "1.5");
    assert!(!rows[3].locked);
    let checked = engine.checked_account_outputs().unwrap();
    assert_eq!(checked.len(), 4);
}

#[test]
fn listing_reports_total_overflow() {
    let mut engine = PaymentsEngine::default();
    let big = Some(Amount::new(MAX, 0).unwrap());
    engine
        .process_transaction(Transaction { client: 1, tx_type: TransactionType::Deposit, tx: 1, amount: big })
        .unwrap();
    engine
        .process_transaction(Transaction { client: 1, tx_type: TransactionType::Dispute, tx: 1, amount: None })
        .unwrap();
    engine
        .process_transaction(Transaction { client: 1, tx_type: TransactionType::Deposit, tx: 2, amount: big })
        .unwrap();
    assert!(engine.checked_account_outputs().is_none());
    assert_eq!(
        engine
            .process_transaction(Transaction {
                client: 1,
                tx_type: TransactionType::Deposit,
                tx: 3,
                amount: big
            })
            .unwrap_err(),
        EngineError::NumericOverflow
    );
}

#[test]
fn charged_back_deposit_is_forgotten() {
    let mut processor = TransactionProcessor::new();
    processor.process(tx(TransactionType::Deposit, 1, 100, Some("50.0"))).unwrap();
    processor.process(tx(TransactionType::Deposit, 1, 101, Some("30.0"))).unwrap();
    processor.process(tx(TransactionType::Dispute, 1, 100, None)).unwrap();
    processor.process(tx(TransactionType::Chargeback, 1, 100, None)).unwrap();
    assert!(processor.deposits().get(&100).is_none());
    assert!(processor.deposits().get(&101).is_some());
    for kind in [TransactionType::Dispute, TransactionType::Resolve, TransactionType::Chargeback] {
        assert_eq!(
            processor.process(tx(kind, 1, 100, None)).unwrap_err(),
            EngineError::TransactionNotFound(100)
        );
    }
    assert_eq!(
        processor.process(tx(TransactionType::Dispute, 1, 101, None)).unwrap_err(),
        EngineError::AccountLocked(1)
    );
}

#[test]
fn only_deposits_and_withdrawals_open_accounts() {
    let mut processor = TransactionProcessor::new();
    for kind in [TransactionType::Dispute, TransactionType::Resolve, TransactionType::Chargeback] {
        assert_eq!(
            processor.process(tx(kind, 5, 1, None)).unwrap_err(),
            EngineError::TransactionNotFound(1)
        );
    }
    assert!(processor.process(tx(TransactionType::Deposit, 5, 1, Some("0"))).is_err());
    assert!(processor.accounts().is_empty());
    assert!(processor.process(tx(TransactionType::Withdrawal, 5, 2, Some("1"))).is_err());
    assert_eq!(processor.accounts().len(), 1);
}

#[test]
fn sums_keep_the_larger_scale() {
    let mut processor = TransactionProcessor::new();
    processor.process(tx(TransactionType::Deposit, 1, 1, Some("50.0"))).unwrap();
    processor.process(tx(TransactionType::Dispute, 1, 1, None)).unwrap();
    let a = *processor.accounts().get(&1).unwrap();
    assert_eq!((a.available.mantissa, a.available.scale), (0, 1));
    assert_eq!((a.held.mantissa, a.held.scale), (500, 1));
    processor.process(tx(TransactionType::Deposit, 1, 2, Some("0.25"))).unwrap();
    let a = *processor.accounts().get(&1).unwrap();
    assert_eq!((a.available.mantissa, a.available.scale), (25, 2));
    processor.process(tx(TransactionType::Deposit, 1, 3, Some("1.5"))).unwrap();
    let a = *processor.accounts().get(&1).unwrap();
    assert_eq!((a.available.mantissa, a.available.scale), (175, 2));
}

//! The transaction processor: accounts by client, deposits by transaction, and
//! the rules by which each kind of transaction changes them.
use crate::account::Account;
use crate::decimal::{
    amount_of, checked_add, checked_sub, decimal_checked_add, decimal_checked_sub, decimal_text,
    decimal_to_string, le, Amount,
};
use crate::error::{outcome_view, EngineError, EngineErrorView};
use crate::laws::{
    consistent, lemma_step_preserves_consistency, step_exact, step_fits, step_named_defined,
    step_named_exact,
};
use crate::text::{decimal_digits, u32_to_string};
use crate::transaction::{DepositRecord, Transaction, TransactionType};
use std::collections::BTreeMap;
use vstd::prelude::*;

verus! {

/// The state of a processor: accounts by client and deposits by transaction.
#[verifier::ext_equal]
pub struct ProcessorView {
    pub accounts: Map<u16, Account>,
    pub deposits: Map<u32, DepositRecord>,
}

/// The outcome of one transaction: the next state and what is reported.
pub type Step = (ProcessorView, Result<(), EngineErrorView>);

impl ProcessorView {
    /// Every amount held is within the decimal range.
    pub open spec fn wf(self) -> bool {
        &&& forall|c: u16| #[trigger] self.accounts.contains_key(c) ==> self.accounts[c].wf()
        &&& forall|t: u32| #[trigger] self.deposits.contains_key(t) ==> self.deposits[t].amount.wf()
    }

    pub open spec fn empty() -> ProcessorView {
        ProcessorView { accounts: Map::empty(), deposits: Map::empty() }
    }

    /// The client's account, or a new one where the client has none.
    pub open spec fn account_or_new(self, client: u16) -> Account {
        if self.accounts.contains_key(client) {
            self.accounts[client]
        } else {
            Account::spec_new(client)
        }
    }

    pub open spec fn with_account(self, client: u16, account: Account) -> ProcessorView {
        ProcessorView { accounts: self.accounts.insert(client, account), deposits: self.deposits }
    }
}

/// The text of a refused non-positive amount.
pub open spec fn non_positive_message(kind: Seq<char>, tx: u32, amount: Amount) -> Seq<char> {
    kind + " tx "@ + decimal_digits(tx as nat) + " has non-positive amount: "@ + decimal_text(
        amount@,
    )
}

pub open spec fn insufficient(client: u16, available: Amount, needed: Amount) -> EngineErrorView {
    EngineErrorView::InsufficientFunds(client, decimal_text(available@), decimal_text(needed@))
}

pub open spec fn deposit_step(s: ProcessorView, tx: Transaction) -> Step {
    match tx.amount {
        None => (s, Err(EngineErrorView::InvalidTransaction("Deposit missing amount"@))),
        Some(a) => {
            if a.value() <= 0 {
                (
                    s,
                    Err(
                        EngineErrorView::InvalidTransaction(
                            non_positive_message("Deposit"@, tx.tx, a),
                        ),
                    ),
                )
            } else if s.deposits.contains_key(tx.tx) {
                (s, Err(EngineErrorView::DuplicateTransaction(tx.tx)))
            } else {
                let acct = s.account_or_new(tx.client);
                let s1 = s.with_account(tx.client, acct);
                if acct.locked {
                    (s1, Err(EngineErrorView::AccountLocked(tx.client)))
                } else {
                    match decimal_checked_add(acct.available@, a@) {
                        None => (s1, Err(EngineErrorView::NumericOverflow)),
                        Some(v) => (
                            ProcessorView {
                                accounts: s.accounts.insert(
                                    tx.client,
                                    Account { available: amount_of(v), ..acct },
                                ),
                                deposits: s.deposits.insert(
                                    tx.tx,
                                    DepositRecord { client_id: tx.client, amount: a, disputed: false },
                                ),
                            },
                            Ok(()),
                        ),
                    }
                }
            }
        },
    }
}

pub open spec fn withdrawal_step(s: ProcessorView, tx: Transaction) -> Step {
    match tx.amount {
        None => (s, Err(EngineErrorView::InvalidTransaction("Withdrawal missing amount"@))),
        Some(a) => {
            if a.value() <= 0 {
                (
                    s,
                    Err(
                        EngineErrorView::InvalidTransaction(
                            non_positive_message("Withdrawal"@, tx.tx, a),
                        ),
                    ),
                )
            } else {
                let acct = s.account_or_new(tx.client);
                let s1 = s.with_account(tx.client, acct);
                if acct.locked {
                    (s1, Err(EngineErrorView::AccountLocked(tx.client)))
                } else if !(acct.available.value() >= a.value()) {
                    (s1, Err(insufficient(tx.client, acct.available, a)))
                } else {
                    match decimal_checked_sub(acct.available@, a@) {
                        None => (s1, Err(EngineErrorView::NumericUnderflow)),
                        Some(v) => (
                            s.with_account(tx.client, Account { available: amount_of(v), ..acct }),
                            Ok(()),
                        ),
                    }
                }
            }
        },
    }
}

/// The checks that dispute, resolve and chargeback make before touching funds:
/// `Some(error)` where one fails.
pub open spec fn dispute_check(s: ProcessorView, tx: Transaction, want_disputed: bool) -> Option<
    EngineErrorView,
> {
    if !s.deposits.contains_key(tx.tx) {
        Some(EngineErrorView::TransactionNotFound(tx.tx))
    } else if s.deposits[tx.tx].client_id != tx.client {
        Some(EngineErrorView::FraudAttempt(tx.client, tx.tx, s.deposits[tx.tx].client_id))
    } else if s.deposits[tx.tx].disputed != want_disputed {
        if want_disputed {
            Some(EngineErrorView::DisputeNotFound(tx.tx))
        } else {
            Some(EngineErrorView::DisputeAlreadyActive(tx.tx))
        }
    } else if !s.accounts.contains_key(tx.client) {
        Some(EngineErrorView::AccountNotFound(tx.client))
    } else if s.accounts[tx.client].locked {
        Some(EngineErrorView::AccountLocked(tx.client))
    } else {
        None
    }
}

pub open spec fn dispute_step(s: ProcessorView, tx: Transaction) -> Step {
    match dispute_check(s, tx, false) {
        Some(e) => (s, Err(e)),
        None => {
            let d = s.deposits[tx.tx];
            let acct = s.accounts[tx.client];
            if !(acct.available.value() >= d.amount.value()) {
                (s, Err(insufficient(tx.client, acct.available, d.amount)))
            } else {
                match decimal_checked_sub(acct.available@, d.amount@) {
                    None => (s, Err(EngineErrorView::NumericUnderflow)),
                    Some(v) => match decimal_checked_add(acct.held@, d.amount@) {
                        None => (
                            s.with_account(tx.client, Account { available: amount_of(v), ..acct }),
                            Err(EngineErrorView::NumericOverflow),
                        ),
                        Some(h) => (
                            ProcessorView {
                                accounts: s.accounts.insert(
                                    tx.client,
                                    Account { available: amount_of(v), held: amount_of(h), ..acct },
                                ),
                                deposits: s.deposits.insert(
                                    tx.tx,
                                    DepositRecord { disputed: true, ..d },
                                ),
                            },
                            Ok(()),
                        ),
                    },
                }
            }
        },
    }
}

pub open spec fn resolve_step(s: ProcessorView, tx: Transaction) -> Step {
    match dispute_check(s, tx, true) {
        Some(e) => (s, Err(e)),
        None => {
            let d = s.deposits[tx.tx];
            let acct = s.accounts[tx.client];
            match decimal_checked_sub(acct.held@, d.amount@) {
                None => (s, Err(EngineErrorView::NumericUnderflow)),
                Some(h) => match decimal_checked_add(acct.available@, d.amount@) {
                    None => (
                        s.with_account(tx.client, Account { held: amount_of(h), ..acct }),
                        Err(EngineErrorView::NumericOverflow),
                    ),
                    Some(v) => (
                        ProcessorView {
                            accounts: s.accounts.insert(
                                tx.client,
                                Account { available: amount_of(v), held: amount_of(h), ..acct },
                            ),
                            deposits: s.deposits.remove(tx.tx),
                        },
                        Ok(()),
                    ),
                },
            }
        },
    }
}

pub open spec fn chargeback_step(s: ProcessorView, tx: Transaction) -> Step {
    match dispute_check(s, tx, true) {
        Some(e) => (s, Err(e)),
        None => {
            let d = s.deposits[tx.tx];
            let acct = s.accounts[tx.client];
            match decimal_checked_sub(acct.held@, d.amount@) {
                None => (s, Err(EngineErrorView::NumericUnderflow)),
                Some(h) => (
                    ProcessorView {
                        accounts: s.accounts.insert(
                            tx.client,
                            Account { held: amount_of(h), locked: true, ..acct },
                        ),
                        deposits: s.deposits.remove(tx.tx),
                    },
                    Ok(()),
                ),
            }
        },
    }
}

/// What one transaction does to a processor's state, and what it reports.
pub open spec fn process_step(s: ProcessorView, tx: Transaction) -> Step {
    match tx.tx_type {
        TransactionType::Deposit => deposit_step(s, tx),
        TransactionType::Withdrawal => withdrawal_step(s, tx),
        TransactionType::Dispute => dispute_step(s, tx),
        TransactionType::Resolve => resolve_step(s, tx),
        TransactionType::Chargeback => chargeback_step(s, tx),
    }
}

/// Processes financial transactions, keeping the state of every account.
pub struct TransactionProcessor {
    accounts: BTreeMap<u16, Account>,
    deposits: BTreeMap<u32, DepositRecord>,
}

impl View for TransactionProcessor {
    type V = ProcessorView;

    closed spec fn view(&self) -> ProcessorView {
        ProcessorView { accounts: self.accounts@, deposits: self.deposits@ }
    }
}

/// "<kind> tx <tx> has non-positive amount: <amount>".
fn non_positive_text(kind: &str, tx: u32, amount: Amount) -> (r: String)
    requires
        amount.wf(),
    ensures
        r@ == non_positive_message(kind@, tx, amount),
{
    let mut msg = kind.to_owned();
    msg.append(" tx ");
    let tx_text = u32_to_string(tx);
    msg.append(tx_text.as_str());
    msg.append(" has non-positive amount: ");
    let amount_text = decimal_to_string(amount);
    msg.append(amount_text.as_str());
    msg
}

fn insufficient_funds(client: u16, available: Amount, needed: Amount) -> (r: EngineError)
    requires
        available.wf(),
        needed.wf(),
    ensures
        r@ == insufficient(client, available, needed),
{
    EngineError::InsufficientFunds(client, decimal_to_string(available), decimal_to_string(needed))
}

impl TransactionProcessor {
    /// A processor with no accounts and no deposits.
    pub fn new() -> (r: TransactionProcessor)
        ensures
            r@ == ProcessorView::empty(),
            consistent(r@),
    {
        proof {
            crate::laws::lemma_empty_consistent();
        }
        TransactionProcessor { accounts: BTreeMap::new(), deposits: BTreeMap::new() }
    }

    /// Applies one transaction.
    pub fn process(&mut self, transaction: Transaction) -> (r: Result<(), EngineError>)
        requires
            old(self)@.wf(),
            transaction.wf(),
        ensures
            final(self)@.wf(),
            final(self)@ == process_step(old(self)@, transaction).0,
            outcome_view(r) == process_step(old(self)@, transaction).1,
            step_exact(old(self)@, transaction) ==> step_named_exact(old(self)@, transaction),
            step_fits(old(self)@, transaction) ==> step_named_defined(old(self)@, transaction),
            consistent(old(self)@) && step_exact(old(self)@, transaction) ==> consistent(
                final(self)@,
            ),
    {
        let r = match transaction.tx_type {
            TransactionType::Deposit => self.process_deposit(transaction),
            TransactionType::Withdrawal => self.process_withdrawal(transaction),
            TransactionType::Dispute => self.process_dispute(transaction),
            TransactionType::Resolve => self.process_resolve(transaction),
            TransactionType::Chargeback => self.process_chargeback(transaction),
        };
        proof {
            if consistent(old(self)@) && step_exact(old(self)@, transaction) {
                lemma_step_preserves_consistency(old(self)@, transaction);
            }
        }
        r
    }

    /// The accounts, by client.
    pub fn accounts(&self) -> (r: &BTreeMap<u16, Account>)
        ensures
            r@ == self@.accounts,
    {
        &self.accounts
    }

    /// The deposits that can still be disputed, by transaction.
    pub fn deposits(&self) -> (r: &BTreeMap<u32, DepositRecord>)
        ensures
            r@ == self@.deposits,
    {
        &self.deposits
    }

    /// The client's account, created where it is missing.
    fn account_entry(&mut self, client: u16) -> (r: Account)
        requires
            old(self)@.wf(),
        ensures
            r == old(self)@.account_or_new(client),
            final(self)@ == old(self)@.with_account(client, r),
            final(self)@.wf(),
            r.wf(),
    {
        proof {
            if self@.accounts.contains_key(client) {
                assert(self@.accounts[client].wf());
            }
        }
        let account = match self.accounts.get(&client) {
            Some(a) => *a,
            None => Account::new(client),
        };
        self.accounts.insert(client, account);
        proof {
            assert forall|c: u16| #[trigger] self@.accounts.contains_key(c) implies self@.accounts[c].wf() by {
                if c != client {
                    assert(old(self)@.accounts.contains_key(c));
                }
            }
            assert(self@.deposits == old(self)@.deposits);
            assert(self@.wf());
        }
        account
    }

    fn process_deposit(&mut self, transaction: Transaction) -> (r: Result<(), EngineError>)
        requires
            old(self)@.wf(),
            transaction.wf(),
            transaction.tx_type == TransactionType::Deposit,
        ensures
            final(self)@.wf(),
            step_exact(old(self)@, transaction) ==> step_named_exact(old(self)@, transaction),
            step_fits(old(self)@, transaction) ==> step_named_defined(old(self)@, transaction),
            final(self)@ == deposit_step(old(self)@, transaction).0,
            outcome_view(r) == deposit_step(old(self)@, transaction).1,
    {
        let amount = match transaction.amount {
            Some(a) => a,
            None => {
                return Err(EngineError::InvalidTransaction("Deposit missing amount".to_owned()));
            },
        };
        if le(amount, Amount::zero()) {
            return Err(
                EngineError::InvalidTransaction(non_positive_text("Deposit", transaction.tx, amount)),
            );
        }
        if self.deposits.contains_key(&transaction.tx) {
            return Err(EngineError::DuplicateTransaction(transaction.tx));
        }
        let account = self.account_entry(transaction.client);
        if account.locked {
            return Err(EngineError::AccountLocked(transaction.client));
        }
        let available = match checked_add(account.available, amount) {
            Some(v) => v,
            None => {
                return Err(EngineError::NumericOverflow);
            },
        };
        self.accounts.insert(transaction.client, Account { available, ..account });
        self.deposits.insert(transaction.tx, DepositRecord::new(transaction.client, amount));
        Ok(())
    }

    fn process_withdrawal(&mut self, transaction: Transaction) -> (r: Result<(), EngineError>)
        requires
            old(self)@.wf(),
            transaction.wf(),
            transaction.tx_type == TransactionType::Withdrawal,
        ensures
            final(self)@.wf(),
            step_exact(old(self)@, transaction) ==> step_named_exact(old(self)@, transaction),
            step_fits(old(self)@, transaction) ==> step_named_defined(old(self)@, transaction),
            final(self)@ == withdrawal_step(old(self)@, transaction).0,
            outcome_view(r) == withdrawal_step(old(self)@, transaction).1,
    {
        let amount = match transaction.amount {
            Some(a) => a,
            None => {
                return Err(
                    EngineError::InvalidTransaction("Withdrawal missing amount".to_owned()),
                );
            },
        };
        if le(amount, Amount::zero()) {
            return Err(
                EngineError::InvalidTransaction(
                    non_positive_text("Withdrawal", transaction.tx, amount),
                ),
            );
        }
        let account = self.account_entry(transaction.client);
        if account.locked {
            return Err(EngineError::AccountLocked(transaction.client));
        }
        if !account.has_sufficient_funds(amount) {
            return Err(insufficient_funds(transaction.client, account.available, amount));
        }
        let available = match checked_sub(account.available, amount) {
            Some(v) => v,
            None => {
                return Err(EngineError::NumericUnderflow);
            },
        };
        self.accounts.insert(transaction.client, Account { available, ..account });
        Ok(())
    }

    /// The deposit and account that a dispute, resolve or chargeback acts on,
    /// once the checks they share have passed.
    fn disputed_parts(&self, transaction: &Transaction, want_disputed: bool) -> (r: Result<
        (DepositRecord, Account),
        EngineError,
    >)
        requires
            self@.wf(),
        ensures
            match dispute_check(self@, *transaction, want_disputed) {
                Some(e) => r is Err && r->Err_0@ == e,
                None => r is Ok && r->Ok_0 == (
                    self@.deposits[transaction.tx],
                    self@.accounts[transaction.client],
                ),
            },
    {
        let deposit = match self.deposits.get(&transaction.tx) {
            Some(d) => *d,
            None => {
                return Err(EngineError::TransactionNotFound(transaction.tx));
            },
        };
        if deposit.client_id != transaction.client {
            return Err(
                EngineError::FraudAttempt(transaction.client, transaction.tx, deposit.client_id),
            );
        }
        if deposit.disputed != want_disputed {
            if want_disputed {
                return Err(EngineError::DisputeNotFound(transaction.tx));
            } else {
                return Err(EngineError::DisputeAlreadyActive(transaction.tx));
            }
        }
        let account = match self.accounts.get(&transaction.client) {
            Some(a) => *a,
            None => {
                return Err(EngineError::AccountNotFound(transaction.client));
            },
        };
        if account.locked {
            return Err(EngineError::AccountLocked(transaction.client));
        }
        Ok((deposit, account))
    }

    fn process_dispute(&mut self, transaction: Transaction) -> (r: Result<(), EngineError>)
        requires
            old(self)@.wf(),
            transaction.wf(),
            transaction.tx_type == TransactionType::Dispute,
        ensures
            final(self)@.wf(),
            step_exact(old(self)@, transaction) ==> step_named_exact(old(self)@, transaction),
            step_fits(old(self)@, transaction) ==> step_named_defined(old(self)@, transaction),
            final(self)@ == dispute_step(old(self)@, transaction).0,
            outcome_view(r) == dispute_step(old(self)@, transaction).1,
    {
        let (deposit, account) = match self.disputed_parts(&transaction, false) {
            Ok(parts) => parts,
            Err(e) => {
                return Err(e);
            },
        };
        let amount = deposit.amount;
        if !account.has_sufficient_funds(amount) {
            return Err(insufficient_funds(transaction.client, account.available, amount));
        }
        let available = match checked_sub(account.available, amount) {
            Some(v) => v,
            None => {
                return Err(EngineError::NumericUnderflow);
            },
        };
        let held = match checked_add(account.held, amount) {
            Some(h) => h,
            None => {
                self.accounts.insert(transaction.client, Account { available, ..account });
                return Err(EngineError::NumericOverflow);
            },
        };
        self.accounts.insert(transaction.client, Account { available, held, ..account });
        self.deposits.insert(transaction.tx, DepositRecord { disputed: true, ..deposit });
        Ok(())
    }

    fn process_resolve(&mut self, transaction: Transaction) -> (r: Result<(), EngineError>)
        requires
            old(self)@.wf(),
            transaction.wf(),
            transaction.tx_type == TransactionType::Resolve,
        ensures
            final(self)@.wf(),
            step_exact(old(self)@, transaction) ==> step_named_exact(old(self)@, transaction),
            step_fits(old(self)@, transaction) ==> step_named_defined(old(self)@, transaction),
            final(self)@ == resolve_step(old(self)@, transaction).0,
            outcome_view(r) == resolve_step(old(self)@, transaction).1,
    {
        let (deposit, account) = match self.disputed_parts(&transaction, true) {
            Ok(parts) => parts,
            Err(e) => {
                return Err(e);
            },
        };
        let amount = deposit.amount;
        let held = match checked_sub(account.held, amount) {
            Some(h) => h,
            None => {
                return Err(EngineError::NumericUnderflow);
            },
        };
        let available = match checked_add(account.available, amount) {
            Some(v) => v,
            None => {
                self.accounts.insert(transaction.client, Account { held, ..account });
                return Err(EngineError::NumericOverflow);
            },
        };
        self.accounts.insert(transaction.client, Account { available, held, ..account });
        // A resolved deposit cannot be disputed again, so its record goes.
        self.deposits.remove(&transaction.tx);
        Ok(())
    }

    fn process_chargeback(&mut self, transaction: Transaction) -> (r: Result<(), EngineError>)
        requires
            old(self)@.wf(),
            transaction.wf(),
            transaction.tx_type == TransactionType::Chargeback,
        ensures
            final(self)@.wf(),
            step_exact(old(self)@, transaction) ==> step_named_exact(old(self)@, transaction),
            step_fits(old(self)@, transaction) ==> step_named_defined(old(self)@, transaction),
            final(self)@ == chargeback_step(old(self)@, transaction).0,
            outcome_view(r) == chargeback_step(old(self)@, transaction).1,
    {
        let (deposit, account) = match self.disputed_parts(&transaction, true) {
            Ok(parts) => parts,
            Err(e) => {
                return Err(e);
            },
        };
        let held = match checked_sub(account.held, deposit.amount) {
            Some(h) => h,
            None => {
                return Err(EngineError::NumericUnderflow);
            },
        };
        self.accounts.insert(transaction.client, Account { held, locked: true, ..account });
        // The account is locked for good, so the charged-back deposit can never be
        // used again: its record goes.
        self.deposits.remove(&transaction.tx);
        Ok(())
    }
}

impl Default for TransactionProcessor {
    fn default() -> (r: TransactionProcessor)
        ensures
            r@ == ProcessorView::empty(),
    {
        TransactionProcessor::new()
    }
}

} // verus!

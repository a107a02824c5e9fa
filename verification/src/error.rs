//! Errors reported by the engine.
use vstd::prelude::*;

verus! {

/// The outcome of an engine operation.
pub type Result<T> = std::result::Result<T, EngineError>;

/// Why a transaction, or the engine's input or output, was rejected.
#[derive(Debug, PartialEq, Eq)]
pub enum EngineError {
    Csv(String),
    Io(String),
    InvalidTransaction(String),
    NumericOverflow,
    NumericUnderflow,
    TransactionNotFound(u32),
    AccountNotFound(u16),
    AccountLocked(u16),
    /// Client, the funds it has available, the funds it needs.
    InsufficientFunds(u16, String, String),
    DuplicateTransaction(u32),
    DisputeAlreadyActive(u32),
    DisputeNotFound(u32),
    /// Client that asked, transaction, client that owns the transaction.
    FraudAttempt(u16, u32, u16),
}

/// [`EngineError`] with each text taken by its characters.
pub enum EngineErrorView {
    Csv(Seq<char>),
    Io(Seq<char>),
    InvalidTransaction(Seq<char>),
    NumericOverflow,
    NumericUnderflow,
    TransactionNotFound(u32),
    AccountNotFound(u16),
    AccountLocked(u16),
    InsufficientFunds(u16, Seq<char>, Seq<char>),
    DuplicateTransaction(u32),
    DisputeAlreadyActive(u32),
    DisputeNotFound(u32),
    FraudAttempt(u16, u32, u16),
}

impl View for EngineError {
    type V = EngineErrorView;

    open spec fn view(&self) -> EngineErrorView {
        match self {
            EngineError::Csv(s) => EngineErrorView::Csv(s@),
            EngineError::Io(s) => EngineErrorView::Io(s@),
            EngineError::InvalidTransaction(s) => EngineErrorView::InvalidTransaction(s@),
            EngineError::NumericOverflow => EngineErrorView::NumericOverflow,
            EngineError::NumericUnderflow => EngineErrorView::NumericUnderflow,
            EngineError::TransactionNotFound(t) => EngineErrorView::TransactionNotFound(*t),
            EngineError::AccountNotFound(c) => EngineErrorView::AccountNotFound(*c),
            EngineError::AccountLocked(c) => EngineErrorView::AccountLocked(*c),
            EngineError::InsufficientFunds(c, a, n) => EngineErrorView::InsufficientFunds(
                *c,
                a@,
                n@,
            ),
            EngineError::DuplicateTransaction(t) => EngineErrorView::DuplicateTransaction(*t),
            EngineError::DisputeAlreadyActive(t) => EngineErrorView::DisputeAlreadyActive(*t),
            EngineError::DisputeNotFound(t) => EngineErrorView::DisputeNotFound(*t),
            EngineError::FraudAttempt(c, t, o) => EngineErrorView::FraudAttempt(*c, *t, *o),
        }
    }
}

/// The outcome of a step, with the error taken by its view.
pub open spec fn outcome_view(r: std::result::Result<(), EngineError>) -> std::result::Result<
    (),
    EngineErrorView,
> {
    match r {
        Ok(()) => Ok(()),
        Err(e) => Err(e@),
    }
}

} // verus!

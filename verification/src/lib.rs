pub mod account;
pub mod decimal;
pub mod engine;
pub mod error;
pub mod laws;
pub mod processor;
pub mod text;
pub mod transaction;

pub use account::{Account, AccountOutput};
pub use decimal::Amount;
pub use engine::{Format, PaymentsEngine};
pub use error::{EngineError, Result};
pub use processor::TransactionProcessor;
pub use transaction::{DepositRecord, Transaction, TransactionType};

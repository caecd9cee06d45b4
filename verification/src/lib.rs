pub mod account;
pub mod amount;
pub mod laws;
pub mod payment_engine;
pub mod text;
pub mod transaction;

pub use account::Account;
pub use amount::Amount;
pub use transaction::{
    Transaction, TransactionError, TransactionModifier, TransactionRecord, TransactionRow,
    TransactionType,
};
pub use payment_engine::{accounts_to_csv, PaymentEngine, PaymentError};

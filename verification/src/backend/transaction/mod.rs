pub mod transaction;
pub mod transactions;
pub mod supply;
pub mod valuestore;

//! Account risk engine of a cross-margin trading ledger: oracle decoding,
//! health computation, perp order cancellation, liquidation, bankruptcy
//! socialization and the flash-loan bracket.
pub mod error;
pub mod fixed_point;
pub mod oracle;
pub mod account;
pub mod health;
pub mod token_ops;
pub mod book;
pub mod liquidation;
pub mod flash_loan;
pub mod client_logic;

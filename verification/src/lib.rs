//! A payments ledger: accounts, deposits, withdrawals and the dispute cycle,
//! with every transition proved against a mathematical model of the ledger.

pub mod bank;

//! Accounting engines for a fixed-term bond vault and a multi-pool yield farm.
//!
//! Both engines are plain state machines: every entry point takes the state,
//! the ledger time and the balances it needs as arguments, and hands back the
//! amounts that have to move between accounts. Nothing here reads a clock,
//! touches storage or moves a token.

pub mod address;
pub mod fixed;
pub mod vault;
pub mod farm;

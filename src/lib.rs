//! Ledger aggregation: directives, account status, fiscal years and rankings.

use vstd::prelude::*;

pub mod accounts;
pub mod amount;
pub mod attributes;
pub mod date;
pub mod directive;
pub mod flags;
pub mod keyed;
pub mod ranking;
pub mod text;
pub mod tree;

verus! {

/// Errors of the ledger.
#[derive(Debug, PartialEq)]
pub enum Helpers {
    /// An input that the ledger's rules refuse, with a message that names it.
    BeancountError(String),
    FavaError(String),
}

} // verus!

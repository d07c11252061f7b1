//! Directives: the statements of a ledger.

use vstd::prelude::*;

use crate::amount::AAmount;
use crate::date::Date;
use crate::flags::Flags;

verus! {

/// A transaction: its flag and its payee, if any.
#[derive(Debug, PartialEq)]
pub struct Transaction(pub Flags, pub Option<String>);

impl Transaction {
    /// Whether the transaction carries the Unrealized flag.
    pub fn is_unrealized(&self) -> (r: bool)
        ensures
            r == (self.0 == Flags::Unrealized),
    {
        self.0 == Flags::Unrealized
    }
}

/// A directive of the ledger, each with its date.
#[derive(Debug, PartialEq)]
pub enum Directive {
    /// A balance assertion: date, account, and the difference found, if any.
    Balance(Date, String, Option<AAmount>),
    /// A custom directive.
    Budget(Date),
    /// Date and account.
    Close(Date, String),
    Commodity(Date),
    Document(Date),
    Event(Date),
    Note(Date),
    /// Date and account.
    Open(Date, String),
    Pad(Date),
    Price(Date),
    Query(Date),
    Transactions(Date, Transaction),
}

/// The date of a directive.
pub open spec fn directive_date(d: Directive) -> Date {
    match d {
        Directive::Balance(date, _, _) => date,
        Directive::Budget(date) => date,
        Directive::Close(date, _) => date,
        Directive::Commodity(date) => date,
        Directive::Document(date) => date,
        Directive::Event(date) => date,
        Directive::Note(date) => date,
        Directive::Open(date, _) => date,
        Directive::Pad(date) => date,
        Directive::Price(date) => date,
        Directive::Query(date) => date,
        Directive::Transactions(date, _) => date,
    }
}

impl Directive {
    /// The date of the directive.
    pub fn get_date(&self) -> (r: Date)
        ensures
            r == directive_date(*self),
    {
        match self {
            Directive::Balance(date, _, _) => *date,
            Directive::Budget(date) => *date,
            Directive::Close(date, _) => *date,
            Directive::Commodity(date) => *date,
            Directive::Document(date) => *date,
            Directive::Event(date) => *date,
            Directive::Note(date) => *date,
            Directive::Open(date, _) => *date,
            Directive::Pad(date) => *date,
            Directive::Price(date) => *date,
            Directive::Query(date) => *date,
            Directive::Transactions(date, _) => *date,
        }
    }
}

} // verus!

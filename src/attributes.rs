//! Attributes of a ledger: active years and payees.

use vstd::prelude::*;

use crate::date::{Date, FiscalYearEnd};
use crate::directive::{directive_date, Directive, Transaction};
use crate::text::{int_text, push_int};

verus! {

/// The year that a date falls in: the calendar year at the end of the calendar year,
/// else the fiscal year, which is the next calendar year after the fiscal-year end.
pub open spec fn bucket_year(d: Date, fye: FiscalYearEnd) -> int {
    if fye == FiscalYearEnd(12, 31) {
        d.year as int
    } else if d.month > fye.0 || (d.month == fye.0 && d.day > fye.1) {
        d.year + 1
    } else {
        d.year as int
    }
}

/// The years of the entries, in order.
pub open spec fn entry_years(entries: Seq<Directive>, fye: FiscalYearEnd) -> Seq<int> {
    entries.map_values(|d: Directive| bucket_year(directive_date(d), fye))
}

/// The years at which the sequence changes: the first one, and each that differs from
/// the one before it.
pub open spec fn year_changes(ys: Seq<int>) -> Seq<int>
    decreases ys.len(),
{
    if ys.len() == 0 {
        Seq::empty()
    } else {
        let prev = year_changes(ys.drop_last());
        if ys.len() >= 2 && ys[ys.len() - 2] == ys.last() {
            prev
        } else {
            prev.push(ys.last())
        }
    }
}

/// The label of a year: the bare number at the end of the calendar year, else `FY` and
/// the number.
pub open spec fn year_label(y: int, fye: FiscalYearEnd) -> Seq<char> {
    if fye == FiscalYearEnd(12, 31) {
        int_text(y)
    } else {
        "FY"@ + int_text(y)
    }
}

/// The labels of the active years, most recent first.
pub open spec fn active_years(entries: Seq<Directive>, fye: FiscalYearEnd) -> Seq<Seq<char>> {
    let changes = year_changes(entry_years(entries, fye));
    Seq::new(changes.len(), |k: int| year_label(changes[changes.len() - 1 - k], fye))
}

/// Return active years, with support for fiscal years.
pub fn get_active_years(entries: &Vec<Directive>, fye: FiscalYearEnd) -> (r: Vec<String>)
    ensures
        r@.map_values(|s: String| s@) == active_years(entries@, fye),
{
    let ghost ys = entry_years(entries@, fye);
    let end_of_year = fye.is_end_of_year();
    let mut years: Vec<i64> = Vec::new();
    let mut prev_year: Option<i64> = None;
    let mut i: usize = 0;
    while i < entries.len()
        invariant
            ys == entry_years(entries@, fye),
            end_of_year == (fye == FiscalYearEnd(12, 31)),
            i <= entries@.len(),
            years@.map_values(|y: i64| y as int) == year_changes(ys.take(i as int)),
            i == 0 ==> prev_year is None,
            i > 0 ==> (prev_year matches Some(p) && p as int == ys[i - 1]),
        decreases entries.len() - i,
    {
        let date = entries[i].get_date();
        let year: i64 = if end_of_year {
            date.year as i64
        } else if date.month > fye.0 || (date.month == fye.0 && date.day > fye.1) {
            date.year as i64 + 1
        } else {
            date.year as i64
        };
        assert(year as int == ys[i as int]);
        let ghost before = years@;
        let changed = match prev_year {
            Some(p) => p != year,
            None => true,
        };
        if changed {
            prev_year = Some(year);
            years.push(year);
        }
        assert(ys.take(i + 1).drop_last() =~= ys.take(i as int));
        assert(years@.map_values(|y: i64| y as int) =~= year_changes(ys.take(i + 1)));
        i = i + 1;
    }
    assert(ys.take(i as int) =~= ys);
    let ghost changes = year_changes(ys);
    let n = years.len();
    let mut out: Vec<String> = Vec::new();
    let mut k: usize = 0;
    while k < n
        invariant
            n == years@.len(),
            end_of_year == (fye == FiscalYearEnd(12, 31)),
            years@.map_values(|y: i64| y as int) == changes,
            k <= n,
            out@.len() == k,
            forall|j: int| 0 <= j < k ==> #[trigger] out@[j]@ == year_label(changes[n - 1 - j], fye),
        decreases n - k,
    {
        let y = years[n - 1 - k];
        assert(y as int == changes[n - 1 - k]);
        let mut label = String::new();
        if !end_of_year {
            proof {
                reveal_strlit("FY");
            }
            label.append("FY");
        }
        push_int(&mut label, y);
        out.push(label);
        k = k + 1;
    }
    assert(out@.map_values(|s: String| s@) =~= active_years(entries@, fye));
    out
}

/// Whether a directive is a transaction whose payee is `payee`.
pub open spec fn is_payee_transaction(d: Directive, payee: Seq<char>) -> bool {
    match d {
        Directive::Transactions(_, t) => match t.1 {
            Some(p) => p@ == payee,
            None => false,
        },
        _ => false,
    }
}

/// The position of the last transaction of `payee` in `s`, scanning from the end.
pub open spec fn last_payee_index(s: Seq<Directive>, payee: Seq<char>) -> Option<int>
    decreases s.len(),
{
    if s.len() == 0 {
        None
    } else if is_payee_transaction(s.last(), payee) {
        Some(s.len() - 1)
    } else {
        last_payee_index(s.drop_last(), payee)
    }
}

/// A found position lies in the sequence and holds a transaction of the payee.
pub proof fn lemma_last_payee_index_bounds(s: Seq<Directive>, payee: Seq<char>)
    ensures
        last_payee_index(s, payee) matches Some(i) ==> 0 <= i < s.len() && is_payee_transaction(
            s[i],
            payee,
        ),
    decreases s.len(),
{
    if s.len() > 0 && !is_payee_transaction(s.last(), payee) {
        lemma_last_payee_index_bounds(s.drop_last(), payee);
    }
}

/// Get the last transaction for a payee: the last one in file order.
pub fn payee_transaction<'a>(entries: &'a Vec<Directive>, payee: &str) -> (r: Option<&'a Transaction>)
    ensures
        match last_payee_index(entries@, payee@) {
            Some(i) => r matches Some(t) && (entries@[i] matches Directive::Transactions(_, u)
                && *t == u),
            None => r is None,
        },
{
    proof {
        lemma_last_payee_index_bounds(entries@, payee@);
    }
    let mut i: usize = entries.len();
    assert(entries@.take(i as int) =~= entries@);
    while i > 0
        invariant
            i <= entries@.len(),
            last_payee_index(entries@, payee@) == last_payee_index(entries@.take(i as int), payee@),
        decreases i,
    {
        assert(entries@.take(i as int).drop_last() =~= entries@.take(i - 1));
        if let Directive::Transactions(_, txn) = &entries[i - 1] {
            if let Some(txn_payee) = &txn.1 {
                if crate::text::str_eq(txn_payee.as_str(), payee) {
                    return Some(txn);
                }
            }
        }
        i = i - 1;
    }
    assert(entries@.take(0) =~= Seq::<Directive>::empty());
    None
}

/// The payees of the transactions of `s` that have one, each with the date of its
/// transaction, in order.
pub open spec fn payee_likes_of(s: Seq<Directive>) -> Seq<(Seq<char>, Date)>
    decreases s.len(),
{
    if s.len() == 0 {
        Seq::empty()
    } else {
        let prev = payee_likes_of(s.drop_last());
        match s.last() {
            Directive::Transactions(date, t) => match t.1 {
                Some(p) => prev.push((p@, date)),
                None => prev,
            },
            _ => prev,
        }
    }
}

/// The payees of the transactions that have one, each with the date of its transaction,
/// in file order: the likes from which payees are ranked.
pub fn payee_likes(entries: &Vec<Directive>) -> (r: Vec<(String, Date)>)
    ensures
        r@.map_values(|p: (String, Date)| (p.0@, p.1)) == payee_likes_of(entries@),
{
    let mut out: Vec<(String, Date)> = Vec::new();
    let mut i: usize = 0;
    while i < entries.len()
        invariant
            i <= entries@.len(),
            out@.map_values(|p: (String, Date)| (p.0@, p.1)) == payee_likes_of(entries@.take(i as int)),
        decreases entries.len() - i,
    {
        let ghost before = out@;
        if let Directive::Transactions(date, txn) = &entries[i] {
            if let Some(payee) = &txn.1 {
                out.push((payee.clone(), *date));
            }
        }
        assert(entries@.take(i + 1).drop_last() =~= entries@.take(i as int));
        assert(out@.map_values(|p: (String, Date)| (p.0@, p.1)) =~= payee_likes_of(entries@.take(i + 1)));
        i = i + 1;
    }
    assert(entries@.take(i as int) =~= entries@);
    out
}

} // verus!

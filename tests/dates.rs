use fava_core::date::{Date, FiscalYearEnd};
use fava_core::directive::{Directive, Transaction};
use fava_core::flags::Flags;

#[test]
fn calendar_dates() {
    assert!(Date::new(2024, 2, 29).is_some());
    assert!(Date::new(2023, 2, 29).is_none());
    assert!(Date::new(1900, 2, 29).is_none());
    assert!(Date::new(2000, 2, 29).is_some());
    assert!(Date::new(2023, 4, 31).is_none());
    assert!(Date::new(2023, 13, 1).is_none());
    assert!(Date::new(2023, 0, 1).is_none());
    assert!(Date::new(2023, 1, 0).is_none());
    assert!(Date::new(10000, 1, 1).is_none());
}

#[test]
fn date_text() {
    assert_eq!(Date::new(2023, 7, 1).unwrap().to_text(), "2023-07-01");
    assert_eq!(Date::new(5, 12, 31).unwrap().to_text(), "0005-12-31");
    assert_eq!(Date::new(-44, 3, 15).unwrap().to_text(), "-0044-03-15");
}

#[test]
fn fiscal_year_end_parts() {
    let fye = FiscalYearEnd(6, 30);
    assert_eq!(fye.month_of_year(), 6);
    assert_eq!(fye.year_offset(), 0);
    assert!(!fye.is_end_of_year());
    assert!(FiscalYearEnd::end_of_year().is_end_of_year());
    assert_eq!(FiscalYearEnd(15, 31).month_of_year(), 3);
    assert_eq!(FiscalYearEnd(15, 31).year_offset(), 1);
}

#[test]
fn directive_dates() {
    let d = Date::new(2023, 7, 1).unwrap();
    assert_eq!(Directive::Open(d, "Assets:Cash".into()).get_date(), d);
    assert_eq!(Directive::Price(d).get_date(), d);
    assert_eq!(Directive::Transactions(d, Transaction(Flags::Okay, None)).get_date(), d);
    assert!(Transaction(Flags::Unrealized, None).is_unrealized());
    assert!(!Transaction(Flags::Okay, None).is_unrealized());
}

#[test]
fn fiscal_quarters() {
    assert!(FiscalYearEnd(12, 31).has_quarters());
    assert!(FiscalYearEnd(6, 30).has_quarters());
    assert!(FiscalYearEnd(2, 28).has_quarters());
    assert!(!FiscalYearEnd(2, 29).has_quarters());
    assert!(!FiscalYearEnd(6, 15).has_quarters());
    assert!(FiscalYearEnd(15, 31).has_quarters());
}

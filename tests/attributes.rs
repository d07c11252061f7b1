use fava_core::attributes::{get_active_years, payee_likes, payee_transaction};
use fava_core::date::{Date, FiscalYearEnd};
use fava_core::directive::{Directive, Transaction};
use fava_core::flags::Flags;

fn day(y: i32, m: u8, d: u8) -> Date {
    Date::new(y, m, d).unwrap()
}

fn txn(date: Date, payee: Option<&str>) -> Directive {
    Directive::Transactions(date, Transaction(Flags::Okay, payee.map(|p| p.to_string())))
}

#[test]
fn active_years_calendar() {
    let entries = vec![
        Directive::Open(day(2021, 3, 1), "Assets:Cash".into()),
        txn(day(2021, 12, 31), None),
        txn(day(2022, 1, 1), None),
        txn(day(2022, 6, 1), None),
        txn(day(2024, 2, 29), None),
    ];
    assert_eq!(get_active_years(&entries, FiscalYearEnd::end_of_year()), vec!["2024", "2022", "2021"]);
}

#[test]
fn active_years_empty() {
    assert!(get_active_years(&Vec::new(), FiscalYearEnd::end_of_year()).is_empty());
    assert!(get_active_years(&Vec::new(), FiscalYearEnd(6, 30)).is_empty());
}

#[test]
fn fiscal_year_buckets() {
    let fye = FiscalYearEnd(6, 30);
    assert_eq!(get_active_years(&vec![txn(day(2023, 7, 1), None)], fye), vec!["FY2024"]);
    assert_eq!(get_active_years(&vec![txn(day(2023, 6, 30), None)], fye), vec!["FY2023"]);
    let entries = vec![
        txn(day(2023, 1, 5), None),
        txn(day(2023, 6, 30), None),
        txn(day(2023, 7, 1), None),
        txn(day(2024, 6, 30), None),
        txn(day(2024, 7, 2), None),
    ];
    assert_eq!(get_active_years(&entries, fye), vec!["FY2025", "FY2024", "FY2023"]);
}

#[test]
fn active_years_record_transitions_only() {
    let entries = vec![txn(day(2020, 1, 1), None), txn(day(2021, 1, 1), None), txn(day(2020, 5, 1), None)];
    assert_eq!(get_active_years(&entries, FiscalYearEnd::end_of_year()), vec!["2020", "2021", "2020"]);
}

#[test]
fn payee_transaction_is_the_last_in_file_order() {
    let entries = vec![
        txn(day(2023, 1, 1), Some("Shop")),
        txn(day(2023, 1, 2), Some("Bakery")),
        Directive::Transactions(day(2023, 1, 3), Transaction(Flags::Warning, Some("Shop".into()))),
    ];
    assert_eq!(payee_transaction(&entries, "Shop"), Some(&Transaction(Flags::Warning, Some("Shop".into()))));
    assert_eq!(payee_transaction(&entries, "Bakery"), Some(&Transaction(Flags::Okay, Some("Bakery".into()))));
    assert_eq!(payee_transaction(&entries, "Garage"), None);
}

#[test]
fn payee_likes_in_order() {
    let entries = vec![
        txn(day(2023, 1, 1), Some("Shop")),
        txn(day(2023, 1, 2), None),
        Directive::Close(day(2023, 1, 3), "Assets:Cash".into()),
        txn(day(2023, 1, 4), Some("Bakery")),
    ];
    assert_eq!(
        payee_likes(&entries),
        vec![("Shop".to_string(), day(2023, 1, 1)), ("Bakery".to_string(), day(2023, 1, 4))]
    );
}

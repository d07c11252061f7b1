use fava_core::accounts::{
    account_data, balance_string, close_date, get_last_entry, uptodate_status, AccountData,
    AccountDict, AccountEntries, LastEntry, Status,
};
use fava_core::amount::{AAmount, CounterInventory, Decimal};
use fava_core::date::Date;
use fava_core::directive::{Directive, Transaction};
use fava_core::flags::Flags;
use fava_core::tree::TreeNode;

fn now() -> time::Date {
    time::OffsetDateTime::now_utc().date()
}

fn today() -> Date {
    let d = now();
    Date::new(d.year(), u8::from(d.month()), d.day()).unwrap()
}

fn open() -> Directive {
    Directive::Open(today(), "Checking".to_string())
}

fn close() -> Directive {
    Directive::Close(today(), "Checking".to_string())
}

fn unrealized() -> Directive {
    Directive::Transactions(today(), Transaction(Flags::Unrealized, None))
}

#[test]
fn empty_list() {
    assert!(get_last_entry(&Vec::<Directive>::new()).is_none());
    assert!(uptodate_status(&Vec::<Directive>::new()).is_none());
}

#[test]
fn single_directive() {
    assert!(get_last_entry(&vec![open()]).is_some());
    assert!(uptodate_status(&vec![open()]).is_none());
}

#[test]
fn with_unrealized() {
    let entries = vec![open(), unrealized()];

    assert_eq!(get_last_entry(&entries), Some(&open()));
    assert_eq!(uptodate_status(&entries), None);
}

#[test]
fn with_balance() {
    let entries = vec![open(), Directive::Balance(today(), "Checking".into(), None)];

    assert_eq!(uptodate_status(&entries), Some(Status::Pass));
}

#[test]
fn with_diff_balance() {
    let entries = vec![
        open(),
        Directive::Balance(
            today(),
            "Checking".into(),
            Some(AAmount(Decimal::from_int(100), "USD".to_string())),
        ),
    ];

    assert_eq!(uptodate_status(&entries), Some(Status::Fail));
}

#[test]
fn multiple_valid_entries() {
    let entries = vec![open(), unrealized(), close()];

    assert_eq!(get_last_entry(&entries), Some(&close()));
    assert_eq!(uptodate_status(&entries), None);
}

#[test]
fn only_unrealized_transactions() {
    let entries = vec![unrealized(), unrealized(), unrealized()];
    assert_eq!(get_last_entry(&entries), None);
    assert_eq!(uptodate_status(&entries), None);
}

#[test]
fn last_entry_stops_at_first_hit_from_the_end() {
    let posted = Directive::Transactions(today(), Transaction(Flags::Okay, Some("Shop".into())));
    let entries = vec![unrealized(), posted, unrealized(), unrealized()];
    assert_eq!(
        get_last_entry(&entries),
        Some(&Directive::Transactions(today(), Transaction(Flags::Okay, Some("Shop".into()))))
    );
    assert_eq!(uptodate_status(&entries), Some(Status::NotApplicable));
}

#[test]
fn balance_before_transaction_decides() {
    let posted = Directive::Transactions(today(), Transaction(Flags::Okay, None));
    let entries = vec![Directive::Balance(today(), "Checking".into(), None), posted];
    assert_eq!(uptodate_status(&entries), Some(Status::NotApplicable));
    let entries = vec![
        Directive::Transactions(today(), Transaction(Flags::Okay, None)),
        Directive::Balance(today(), "Checking".into(), None),
        unrealized(),
        close(),
    ];
    assert_eq!(uptodate_status(&entries), Some(Status::Pass));
}

#[test]
fn status_colours() {
    assert_eq!(Status::Pass.as_str(), "green");
    assert_eq!(Status::Fail.as_str(), "red");
    assert_eq!(Status::NotApplicable.as_str(), "yellow");
}

fn node(name: &str, balance: Vec<(&str, Decimal)>) -> TreeNode {
    let mut inventory = CounterInventory::new();
    for (currency, number) in balance {
        inventory.insert(currency.to_string(), number);
    }
    TreeNode(name.to_string(), inventory)
}

#[test]
fn test_balance_string_single_currency() {
    let tree_node = node("Assets:Cash", vec![("USD", Decimal::new(123456, 2))]);

    let result = balance_string(&tree_node, today());
    let expected = format!("{} balance Assets:Cash                          1234.56 USD\n", now());

    assert_eq!(result, expected);
}

#[test]
fn test_balance_string_multiple_currencies() {
    let tree_node = node(
        "Assets:Checking",
        vec![
            ("USD", Decimal::from_int(1000)),
            ("EUR", Decimal::new(50075, 2)),
            ("GBP", Decimal::new(25050, 2)),
        ],
    );

    let result = balance_string(&tree_node, today());

    assert_eq!(result.lines().count(), 3);
}

#[test]
fn test_balance_string_empty_balance() {
    let tree_node = node("Assets:Empty", vec![]);

    let result = balance_string(&tree_node, today());
    assert_eq!(result, "");
}

#[test]
fn test_balance_string_negative_amount() {
    let tree_node = node("Liabilities:CreditCard", vec![("USD", Decimal::new(-50025, 2))]);

    let result = balance_string(&tree_node, today());
    let expected = format!("{} balance Liabilities:CreditCard               -500.25 USD\n", now());

    assert_eq!(result, expected);
}

#[test]
fn test_balance_string_long_account_name() {
    let tree_node = node("Assets:Investment:RetirementAccount:401k", vec![("USD", Decimal::from_int(100))]);

    let result = balance_string(&tree_node, today());
    let expected = format!(
        "{} balance Assets:Investment:RetirementAccount:401k             100 USD\n",
        now()
    );

    assert_eq!(result, expected);
}

#[test]
fn test_balance_string_zero_amount() {
    let tree_node = node("Assets:Test", vec![("USD", Decimal::from_int(0))]);

    let result = balance_string(&tree_node, today());
    let expected = format!("{} balance Assets:Test                                0 USD\n", now());

    assert_eq!(result, expected);
}

#[test]
fn balance_string_fixed_date_and_order() {
    let tree_node = node(
        "Assets:Checking",
        vec![("USD", Decimal::from_int(1000)), ("EUR", Decimal::new(50075, 2)), ("GBP", Decimal::new(25050, 2))],
    );
    let date = Date::new(2024, 2, 29).unwrap();
    let result = balance_string(&tree_node, date);
    let expected = [
        "2024-02-29 balance Assets:Checking                         1000 USD\n",
        "2024-02-29 balance Assets:Checking                       500.75 EUR\n",
        "2024-02-29 balance Assets:Checking                        250.5 GBP\n",
    ]
    .join("");
    assert_eq!(result, expected);
}

#[test]
fn balance_string_early_year_is_zero_padded() {
    let tree_node = node("Assets:Cash", vec![("USD", Decimal::new(5, 3))]);
    let date = Date::new(987, 3, 4).unwrap();
    assert_eq!(
        balance_string(&tree_node, date),
        "0987-03-04 balance Assets:Cash                            0.005 USD\n"
    );
}

#[test]
fn inventory_insert_replaces() {
    let mut inventory = CounterInventory::new();
    inventory.insert("USD".to_string(), Decimal::from_int(1));
    inventory.insert("EUR".to_string(), Decimal::from_int(2));
    inventory.insert("USD".to_string(), Decimal::from_int(3));
    assert_eq!(inventory.len(), 2);
    assert_eq!(inventory.get("USD"), Some(Decimal::from_int(3)));
    assert_eq!(inventory.get("EUR"), Some(Decimal::from_int(2)));
    assert_eq!(inventory.get("GBP"), None);
    assert_eq!(inventory.entry(0).0, "USD");
}

#[test]
fn account_dict_lookup_and_balances() {
    let mut dict = AccountDict::new();
    assert_eq!(dict.get_or_empty("Assets:Cash"), AccountData::empty());
    let mut data = AccountData::empty();
    data.balance_string = Some("first\n".to_string());
    data.uptodate_status = Some(Status::Fail);
    dict.insert("Assets:Cash".to_string(), data);
    let mut other = AccountData::empty();
    other.last_entry = Some(LastEntry(today(), "id".to_string()));
    dict.insert("Assets:Bank".to_string(), other);
    let mut third = AccountData::empty();
    third.balance_string = Some("third\n".to_string());
    dict.insert("Assets:Card".to_string(), third);
    assert_eq!(dict.all_balance_directives(), "first\nthird\n");
    assert_eq!(dict.get_or_empty("Assets:Cash").uptodate_status, Some(Status::Fail));
    assert_eq!(dict.get_or_empty("Assets:Bank").last_entry, Some(LastEntry(today(), "id".to_string())));
    dict.clear();
    assert_eq!(dict.all_balance_directives(), "");
    assert_eq!(dict.get_or_empty("Assets:Cash"), AccountData::empty());
}

#[test]
fn tree_node_accessors() {
    let tree_node = TreeNode::new("Assets:Cash".to_string());
    assert_eq!(tree_node.get_name(), "Assets:Cash");
    assert_eq!(tree_node.get_balance().len(), 0);
}

fn fixed(y: i32, m: u8, d: u8) -> Date {
    Date::new(y, m, d).unwrap()
}

fn entries_of(account: &str, postings: Vec<Directive>, indication: bool, balance: Vec<(&str, Decimal)>) -> AccountEntries {
    let entry_hashes = (0..postings.len()).map(|i| format!("{account}#{i}")).collect();
    AccountEntries {
        account: account.to_string(),
        postings,
        entry_hashes,
        uptodate_indication: indication,
        node: node(account, balance),
    }
}

#[test]
fn close_date_is_the_last_close_of_the_account() {
    let entries = vec![
        Directive::Open(fixed(2020, 1, 1), "Assets:Cash".into()),
        Directive::Close(fixed(2021, 1, 1), "Assets:Cash".into()),
        Directive::Close(fixed(2022, 1, 1), "Assets:Bank".into()),
    ];
    assert_eq!(close_date(&entries, "Assets:Cash"), Some(fixed(2021, 1, 1)));
    assert_eq!(close_date(&entries, "Assets:Bank"), Some(fixed(2022, 1, 1)));
    assert_eq!(close_date(&entries, "Assets:Card"), None);
}

#[test]
fn account_data_with_failed_balance() {
    let postings = vec![
        Directive::Open(fixed(2020, 1, 1), "Assets:Cash".into()),
        Directive::Balance(
            fixed(2020, 2, 1),
            "Assets:Cash".into(),
            Some(AAmount(Decimal::from_int(3), "USD".to_string())),
        ),
        Directive::Transactions(fixed(2020, 2, 2), Transaction(Flags::Unrealized, None)),
    ];
    let a = entries_of("Assets:Cash", postings, true, vec![("USD", Decimal::new(1050, 1))]);
    let date = fixed(2020, 3, 1);
    let data = account_data(&a, None, date);
    assert_eq!(data.uptodate_status, Some(Status::Fail));
    assert_eq!(
        data.balance_string,
        Some("2020-03-01 balance Assets:Cash                              105 USD\n".to_string())
    );
    assert_eq!(data.last_entry, Some(LastEntry(fixed(2020, 2, 1), "Assets:Cash#1".to_string())));
    assert_eq!(data.close_date, None);
}

#[test]
fn account_data_passed_or_not_asked() {
    let postings = vec![
        Directive::Open(fixed(2020, 1, 1), "Assets:Cash".into()),
        Directive::Balance(fixed(2020, 2, 1), "Assets:Cash".into(), None),
    ];
    let a = entries_of("Assets:Cash", postings, true, vec![("USD", Decimal::from_int(1))]);
    let data = account_data(&a, None, fixed(2020, 3, 1));
    assert_eq!(data.uptodate_status, Some(Status::Pass));
    assert_eq!(data.balance_string, None);

    let postings = vec![Directive::Open(fixed(2020, 1, 1), "Assets:Cash".into())];
    let a = entries_of("Assets:Cash", postings, false, vec![("USD", Decimal::from_int(1))]);
    let data = account_data(&a, Some(fixed(2021, 1, 1)), fixed(2020, 3, 1));
    assert_eq!(data.uptodate_status, None);
    assert_eq!(data.balance_string, None);
    assert_eq!(data.close_date, Some(fixed(2021, 1, 1)));
    assert_eq!(data.last_entry, Some(LastEntry(fixed(2020, 1, 1), "Assets:Cash#0".to_string())));
}

#[test]
fn account_data_no_last_entry_after_close() {
    let postings = vec![
        Directive::Open(fixed(2020, 1, 1), "Assets:Cash".into()),
        Directive::Close(fixed(2020, 6, 1), "Assets:Cash".into()),
    ];
    let a = entries_of("Assets:Cash", postings, true, vec![]);
    let data = account_data(&a, Some(fixed(2020, 6, 1)), fixed(2020, 7, 1));
    assert_eq!(data.last_entry, None);
    assert_eq!(data.uptodate_status, None);
    assert_eq!(data.balance_string, Some(String::new()));
}

#[test]
fn load_file_rebuilds_the_dictionary() {
    let mut dict = AccountDict::new();
    let mut stale = AccountData::empty();
    stale.balance_string = Some("stale\n".to_string());
    dict.insert("Assets:Old".to_string(), stale);

    let cash = vec![
        Directive::Open(fixed(2020, 1, 1), "Assets:Cash".into()),
        Directive::Transactions(fixed(2020, 1, 5), Transaction(Flags::Okay, None)),
    ];
    let bank = vec![Directive::Open(fixed(2020, 1, 2), "Assets:Bank".into())];
    let accounts = vec![
        entries_of("Assets:Cash", cash, true, vec![("EUR", Decimal::from_int(7))]),
        entries_of("Assets:Bank", bank, false, vec![]),
    ];
    let ledger = vec![
        Directive::Open(fixed(2020, 1, 1), "Assets:Cash".into()),
        Directive::Open(fixed(2020, 1, 2), "Assets:Bank".into()),
        Directive::Close(fixed(2020, 9, 1), "Assets:Bank".into()),
    ];
    dict.load_file(&accounts, &ledger, fixed(2020, 10, 1));

    assert_eq!(dict.get_or_empty("Assets:Old"), AccountData::empty());
    let cash = dict.get_or_empty("Assets:Cash");
    assert_eq!(cash.uptodate_status, Some(Status::NotApplicable));
    assert_eq!(cash.last_entry, Some(LastEntry(fixed(2020, 1, 5), "Assets:Cash#1".to_string())));
    assert_eq!(dict.get_or_empty("Assets:Bank").close_date, Some(fixed(2020, 9, 1)));
    assert_eq!(
        dict.all_balance_directives(),
        "2020-10-01 balance Assets:Cash                                7 EUR\n"
    );
}

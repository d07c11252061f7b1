use fava_core::amount::{AAmount, Decimal};
use fava_core::text::{push_int, push_padded_left, push_padded_right};

fn text(d: Decimal) -> String {
    let mut s = String::new();
    d.push_text(&mut s);
    s
}

#[test]
fn decimal_text() {
    assert_eq!(text(Decimal::new(123456, 2)), "1234.56");
    assert_eq!(text(Decimal::new(-50025, 2)), "-500.25");
    assert_eq!(text(Decimal::new(25050, 2)), "250.5");
    assert_eq!(text(Decimal::new(10000, 2)), "100");
    assert_eq!(text(Decimal::new(0, 3)), "0");
    assert_eq!(text(Decimal::new(5, 3)), "0.005");
    assert_eq!(text(Decimal::new(-5, 1)), "-0.5");
    assert_eq!(text(Decimal::from_int(i64::MIN)), "-9223372036854775808");
    assert_eq!(text(Decimal::new(i64::MAX, 20)), "0.09223372036854775807");
}

#[test]
fn amount_parts() {
    let a = AAmount(Decimal::new(100, 0), "USD".to_string());
    assert_eq!(a.get_value(), Decimal::from_int(100));
    assert_eq!(a.get_currency(), "USD");
}

#[test]
fn integer_text_and_padding() {
    let mut s = String::new();
    push_int(&mut s, -2023);
    push_int(&mut s, 0);
    assert_eq!(s, "-20230");
    let mut s = String::new();
    push_padded_right(&mut s, "ab", 4);
    push_padded_left(&mut s, "cd", 5);
    push_padded_right(&mut s, "toolong", 3);
    assert_eq!(s, "ab     cdtoolong");
}

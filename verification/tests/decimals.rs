use htrs::decimal::{push_numeral, Decimal};

fn parts(d: Option<Decimal>) -> Option<(bool, u128, u8)> {
    d.map(|d| (d.negative, d.digits, d.scale))
}

fn numeral(n: u128) -> String {
    let mut out = String::new();
    push_numeral(&mut out, n);
    out
}

#[test]
fn numerals_have_no_leading_zeros() {
    assert_eq!(numeral(0), "0");
    assert_eq!(numeral(7), "7");
    assert_eq!(numeral(10), "10");
    assert_eq!(numeral(1234567890), "1234567890");
    assert_eq!(numeral(u128::MAX), "340282366920938463463374607431768211455");
}

#[test]
fn numeral_is_appended_to_what_is_there() {
    let mut out = String::from("n=");
    push_numeral(&mut out, 42);
    assert_eq!(out, "n=42");
}

#[test]
fn decimals_as_they_are_written() {
    assert_eq!(Decimal::new(false, 4, 0).to_string(), "4");
    assert_eq!(Decimal::new(false, 0, 0).to_string(), "0");
    assert_eq!(Decimal::new(true, 0, 0).to_string(), "-0");
    assert_eq!(Decimal::new(false, 5, 1).to_string(), "0.5");
    assert_eq!(Decimal::new(true, 125, 2).to_string(), "-1.25");
    assert_eq!(Decimal::new(false, 250, 2).to_string(), "2.50");
    assert_eq!(Decimal::new(false, 1, 7).to_string(), "0.0000001");
    assert_eq!(Decimal::new(false, 0, 3).to_string(), "0.000");
    assert_eq!(Decimal::new(false, 123456, 3).to_string(), "123.456");
    assert_eq!(Decimal::new(false, 1005, 2).to_string(), "10.05");
}

#[test]
fn decimal_with_the_largest_scale() {
    let text = Decimal::new(false, 1, 255).to_string();
    assert_eq!(text.len(), 257);
    assert!(text.starts_with("0."));
    assert!(text.ends_with("01"));
    assert_eq!(text.matches('0').count(), 255);
}

#[test]
fn decimal_is_appended_to_what_is_there() {
    let mut out = String::from("x = ");
    Decimal::new(true, 15, 1).write_to(&mut out);
    assert_eq!(out, "x = -1.5");
}

#[test]
fn written_decimals_are_read() {
    assert_eq!(parts(Decimal::parse("4")), Some((false, 4, 0)));
    assert_eq!(parts(Decimal::parse("0")), Some((false, 0, 0)));
    assert_eq!(parts(Decimal::parse("-0")), Some((true, 0, 0)));
    assert_eq!(parts(Decimal::parse("0.5")), Some((false, 5, 1)));
    assert_eq!(parts(Decimal::parse("-1.25")), Some((true, 125, 2)));
    assert_eq!(parts(Decimal::parse("2.50")), Some((false, 250, 2)));
    assert_eq!(parts(Decimal::parse("0.0000001")), Some((false, 1, 7)));
    assert_eq!(parts(Decimal::parse("007")), Some((false, 7, 0)));
    assert_eq!(parts(Decimal::parse("10.05")), Some((false, 1005, 2)));
}

#[test]
fn everything_else_is_refused() {
    for text in [
        "", "-", ".", ".5", "5.", "-.5", "+5", "1.2.3", "1,5", "1e5", " 1", "1 ", "--1", "1-",
        "NaN", "inf", "-inf", "a", "1a", "1.a", "1.5x", "\u{0661}",
    ] {
        assert!(Decimal::parse(text).is_none(), "{:?} was read", text);
    }
}

#[test]
fn numbers_that_do_not_fit_are_refused() {
    let largest = "340282366920938463463374607431768211455";
    assert_eq!(parts(Decimal::parse(largest)), Some((false, u128::MAX, 0)));
    assert!(Decimal::parse("340282366920938463463374607431768211456").is_none());
    assert!(Decimal::parse("3402823669209384634633746074317682114550").is_none());
    assert_eq!(
        parts(Decimal::parse("3402823669209384634633746074317682114.55")),
        Some((false, u128::MAX, 2))
    );
    assert!(Decimal::parse("3402823669209384634633746074317682114.56").is_none());
    let zeros = "0".repeat(300);
    assert_eq!(parts(Decimal::parse(&zeros)), Some((false, 0, 0)));
}

#[test]
fn at_most_255_digits_stand_behind_the_point() {
    let fits = format!("0.{}", "0".repeat(255));
    assert_eq!(parts(Decimal::parse(&fits)), Some((false, 0, 255)));
    let too_long = format!("0.{}", "0".repeat(256));
    assert!(Decimal::parse(&too_long).is_none());
}

#[test]
fn what_is_written_is_read_back() {
    for d in [
        Decimal::new(false, 0, 0),
        Decimal::new(true, 0, 0),
        Decimal::new(false, 4, 0),
        Decimal::new(true, 125, 2),
        Decimal::new(false, 250, 2),
        Decimal::new(false, 1, 255),
        Decimal::new(true, u128::MAX, 0),
        Decimal::new(false, u128::MAX, 40),
    ] {
        let text = d.to_string();
        assert_eq!(parts(Decimal::parse(&text)), Some((d.negative, d.digits, d.scale)));
    }
}

#[test]
fn floating_point_numbers_are_read_as_they_print() {
    for x in [4.0f32, 0.5, -1.25, 0.1, 16.0, 1e-7, 3.4e38, -0.0, 1.1754944e-38, 123.456] {
        let text = x.to_string();
        let read = Decimal::parse(&text).expect("a finite number prints as a decimal");
        assert_eq!(read.to_string(), text);
    }
    assert!(Decimal::parse(&f64::NAN.to_string()).is_none());
    assert!(Decimal::parse(&f32::INFINITY.to_string()).is_none());
}

use rust_data_pipeline::engine::{
    is_finite_bits, is_nan_bits, lowercase_is_idempotent_on, lowercase_texts, parse_dates,
    scale_amounts, settle_amounts, AMOUNT_DIVISOR,
};

fn text(s: &str) -> Option<String> {
    Some(s.to_string())
}

#[test]
fn lowercase_folds_each_cell() {
    let cells = vec![text("Alice"), None, text("BOB"), text("ΣΑΣ"), text("already lower")];
    let out = lowercase_texts(&cells);
    assert_eq!(out, vec![text("alice"), None, text("bob"), text("σας"), text("already lower")]);
}

#[test]
fn lowercase_of_a_long_ascii_text() {
    let cells = vec![text("THE QUICK BROWN FOX JUMPS OVER THE LAZY DOG 0123456789")];
    let out = lowercase_texts(&cells);
    assert_eq!(out, vec![text("the quick brown fox jumps over the lazy dog 0123456789")]);
}

#[test]
fn dates_are_read_as_days_since_1970() {
    let cells = vec![
        text("1970-01-01"),
        text("2023-01-01"),
        text("2023-02-15"),
        text("invalid"),
        None,
        text("2023-02-30"),
        text("1969-12-31"),
        text(""),
    ];
    let out = parse_dates(&cells);
    assert_eq!(out, vec![Some(0), Some(19358), Some(19403), None, None, None, Some(-1), None]);
}

#[test]
fn amounts_are_divided_by_one_thousand() {
    let cells = vec![Some(2000.0f64.to_bits()), None, Some(1000.0f64.to_bits()), Some((-1500.0f64).to_bits()), Some(0.0f64.to_bits())];
    let out = scale_amounts(&cells);
    let values: Vec<Option<f64>> = out.iter().map(|c| c.map(f64::from_bits)).collect();
    assert_eq!(values, vec![Some(2.0), None, Some(1.0), Some(-1.5), Some(0.0)]);
}

#[test]
fn a_not_a_number_amount_is_kept() {
    let nan = f64::NAN.to_bits();
    let out = scale_amounts(&vec![Some(nan), Some(f64::INFINITY.to_bits())]);
    assert_eq!(out, vec![Some(nan), Some(f64::INFINITY.to_bits())]);
}

#[test]
fn bit_patterns_are_classified() {
    assert!(is_nan_bits(f64::NAN.to_bits()));
    assert!(!is_nan_bits(f64::INFINITY.to_bits()));
    assert!(!is_nan_bits(1.5f64.to_bits()));
    assert!(is_finite_bits(1.5f64.to_bits()));
    assert!(is_finite_bits(0.0f64.to_bits()));
    assert!(!is_finite_bits(f64::NEG_INFINITY.to_bits()));
    assert!(!is_finite_bits(f64::NAN.to_bits()));
}

#[test]
fn quotients_take_the_place_of_amounts_that_are_numbers() {
    let nan = f64::NAN.to_bits();
    let cells = vec![Some(7), Some(nan), None, Some(9), Some(11)];
    let quotients = vec![Some(70), Some(80), Some(90), None];
    let out = settle_amounts(&cells, &quotients);
    assert_eq!(out, vec![Some(70), Some(nan), None, None, None]);
}

#[test]
fn amounts_are_divided_by_the_divisor_of_the_rules() {
    assert_eq!(AMOUNT_DIVISOR, 1000);
    let out = scale_amounts(&vec![Some(123456.0f64.to_bits())]);
    assert_eq!(out, vec![Some((123456.0f64 * (1.0 / 1000.0)).to_bits())]);
}

#[test]
fn lowercasing_twice_gives_what_lowercasing_once_gives() {
    let cells = vec![text("Alice"), None, text("BOB"), text("ΣΑΣ"), text("İ")];
    assert!(lowercase_is_idempotent_on(&cells));
    assert!(lowercase_is_idempotent_on(&vec![]));
}

use bigdecimal::num_bigint::BigInt;
use bigdecimal::BigDecimal;
use merco::decimal::{Decimal, RoundingMode};
use merco::models::{MarketPrecision, TradingFees};
use std::str::FromStr;

fn dec(text: &str) -> Decimal {
    Decimal::parse(text).expect("a decimal")
}

fn same(d: &Decimal, text: &str) -> bool {
    BigDecimal::new(BigInt::from_signed_bytes_le(d.bytes()), d.scale())
        == BigDecimal::from_str(text).unwrap()
}

fn precision(price: &str, amount: &str) -> MarketPrecision {
    MarketPrecision { price_precision: dec(price), amount_precision: dec(amount) }
}

#[test]
fn round_price_uses_the_price_step() {
    let p = precision("0.01", "0.001");
    assert!(same(&p.round_price(&dec("98.7654"), RoundingMode::Down), "98.76"));
    assert!(same(&p.round_price(&dec("98.7654"), RoundingMode::Up), "98.77"));
    assert!(same(&p.round_price(&dec("98.76"), RoundingMode::Up), "98.76"));
    assert!(same(&p.round_price(&dec("-98.7654"), RoundingMode::Down), "-98.76"));
    assert!(same(&p.round_price(&dec("-98.7654"), RoundingMode::Up), "-98.77"));
}

#[test]
fn round_amount_uses_the_amount_step() {
    let p = precision("0.01", "0.001");
    assert!(same(&p.round_amount(&dec("1.23456"), RoundingMode::Down), "1.234"));
    assert!(same(&p.round_amount(&dec("1.23456"), RoundingMode::Up), "1.235"));
    assert!(same(&p.round_amount(&dec("0.0004"), RoundingMode::Down), "0"));
    assert!(same(&p.round_amount(&dec("0.0004"), RoundingMode::Up), "0.001"));
    assert!(same(&p.round_amount(&dec("0.1099"), RoundingMode::Up), "0.11"));
}

#[test]
fn a_step_that_is_no_power_of_ten() {
    let p = precision("0.25", "3");
    assert!(same(&p.round_price(&dec("1.30"), RoundingMode::Down), "1.25"));
    assert!(same(&p.round_price(&dec("1.30"), RoundingMode::Up), "1.5"));
    assert!(same(&p.round_amount(&dec("10"), RoundingMode::Down), "9"));
    assert!(same(&p.round_amount(&dec("10"), RoundingMode::Up), "12"));
    assert!(same(&p.round_amount(&dec("10"), RoundingMode::HalfUp), "9"));
    assert!(same(&p.round_amount(&dec("10.5"), RoundingMode::HalfUp), "12"));
    assert!(same(&p.round_amount(&dec("10.5"), RoundingMode::HalfDown), "9"));
    assert!(same(&p.round_amount(&dec("10.5"), RoundingMode::HalfEven), "12"));
    assert!(same(&p.round_amount(&dec("7.5"), RoundingMode::HalfEven), "6"));
}

#[test]
fn zero_step_leaves_the_value_unrounded() {
    let p = precision("0", "0");
    let v = dec("1.23456789");
    let price = p.round_price(&v, RoundingMode::Down);
    let amount = p.round_amount(&v, RoundingMode::Up);
    assert_eq!(price.bytes(), v.bytes());
    assert_eq!(price.scale(), v.scale());
    assert_eq!(amount.bytes(), v.bytes());
    assert_eq!(amount.scale(), v.scale());
}

#[test]
fn zero_price_step_alone() {
    let p = precision("0", "0.001");
    assert!(same(&p.round_price(&dec("98.7654321"), RoundingMode::Down), "98.7654321"));
    assert!(same(&p.round_amount(&dec("98.7654321"), RoundingMode::Down), "98.765"));
}

#[test]
fn rounding_twice_is_rounding_once() {
    let p = precision("0.01", "0.007");
    let modes = [
        RoundingMode::Up,
        RoundingMode::Down,
        RoundingMode::Ceiling,
        RoundingMode::Floor,
        RoundingMode::HalfUp,
        RoundingMode::HalfDown,
        RoundingMode::HalfEven,
    ];
    for text in ["1.23456", "-1.23456", "0", "0.0035", "-0.0105", "1000000.0001", "0.007"] {
        for mode in modes.iter() {
            let once = p.round_amount(&dec(text), *mode);
            let twice = p.round_amount(&once, *mode);
            assert!(once.equals(&twice), "{:?} of {}", mode, text);
            let once = p.round_price(&dec(text), *mode);
            let twice = p.round_price(&once, *mode);
            assert!(once.equals(&twice), "{:?} of {}", mode, text);
        }
    }
}

#[test]
fn well_formed_precision_and_fees() {
    assert!(precision("0.01", "0.001").is_wf());
    assert!(precision("0", "0").is_wf());
    assert!(!precision("-0.01", "0.001").is_wf());
    assert!(!precision("0.01", "-1").is_wf());
    assert!(TradingFees { maker: dec("0.001"), taker: dec("0") }.is_wf());
    assert!(!TradingFees { maker: dec("-0.001"), taker: dec("0") }.is_wf());
    let tiny = Decimal::from_parts(vec![1], 1i64 << 40);
    assert!(!TradingFees { maker: dec("0.001"), taker: tiny }.is_wf());
}

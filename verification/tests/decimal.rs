use bigdecimal::num_bigint::BigInt;
use bigdecimal::BigDecimal;
use merco::decimal::{Decimal, RoundingMode};
use std::str::FromStr;

fn dec(text: &str) -> Decimal {
    Decimal::parse(text).expect("a decimal")
}

fn big(d: &Decimal) -> BigDecimal {
    BigDecimal::new(BigInt::from_signed_bytes_le(d.bytes()), d.scale())
}

fn same(d: &Decimal, text: &str) -> bool {
    big(d) == BigDecimal::from_str(text).unwrap()
}

#[test]
fn parse_reads_plain_and_scientific_text() {
    assert!(same(&dec("123.45"), "123.45"));
    assert!(same(&dec("-0.001"), "-0.001"));
    assert!(same(&dec("5e3"), "5000"));
    assert_eq!(dec("1.23456").scale(), 5);
}

#[test]
fn parse_refuses_what_is_no_decimal() {
    assert!(Decimal::parse("abc").is_none());
    assert!(Decimal::parse("").is_none());
    assert!(Decimal::parse("1.2.3").is_none());
}

#[test]
fn from_parts_and_back() {
    let d = dec("-1125");
    assert_eq!(d.bytes(), &vec![155u8, 251u8]);
    assert_eq!(d.scale(), 0);
    let again = Decimal::from_parts(vec![155, 251], 2);
    assert!(same(&again, "-11.25"));
    let empty = Decimal::from_parts(Vec::new(), 0);
    assert!(empty.is_zero());
    assert!(same(&Decimal::from_parts(vec![0xff, 0xff], 0), "-1"));
    assert!(same(&Decimal::from_parts(vec![0x00, 0x80], 0), "-32768"));
    assert!(same(&Decimal::from_parts(vec![0x80, 0x00], 0), "128"));
    assert!(same(&Decimal::from_parts(vec![0x80], 1), "-12.8"));
    assert!(same(&Decimal::from_parts(vec![0x7f], -2), "12700"));
    assert!(same(&Decimal::from_parts(vec![0x00, 0x01], 3), "0.256"));
}

#[test]
fn from_i64_is_the_integer() {
    assert!(same(&Decimal::from_i64(10000), "10000"));
    assert!(same(&Decimal::from_i64(-7), "-7"));
    assert!(same(&Decimal::from_i64(i64::MIN), "-9223372036854775808"));
    assert_eq!(Decimal::from_i64(42).scale(), 0);
    assert!(Decimal::zero().is_zero());
}

#[test]
fn add_is_exact() {
    assert!(same(&dec("0.1").add(&dec("0.2")), "0.3"));
    assert!(same(&dec("100").add(&dec("0.001")), "100.001"));
    assert!(same(&dec("-5.5").add(&dec("5.5")), "0"));
    assert!(same(&dec("0").add(&dec("7.25")), "7.25"));
}

#[test]
fn sub_is_exact() {
    assert!(same(&dec("10000").sub(&dec("100.1")), "9899.9"));
    assert!(same(&dec("0.3").sub(&dec("0.1")), "0.2"));
    assert!(same(&dec("0").sub(&dec("2.5")), "-2.5"));
    assert!(same(&dec("2.5").sub(&dec("0")), "2.5"));
}

#[test]
fn mul_is_exact() {
    assert!(same(&dec("100").mul(&dec("0.001")), "0.1"));
    assert!(same(&dec("1.5").mul(&dec("-2.5")), "-3.75"));
    assert!(same(&dec("1").mul(&dec("98.765")), "98.765"));
    assert!(same(&dec("98.765").mul(&dec("1.0")), "98.765"));
    assert!(same(&dec("12345678901234567890").mul(&dec("98765432109876543210")),
        "1219326311370217952237463801111263526900"));
}

#[test]
fn div_is_exact_where_the_quotient_is_short() {
    assert!(same(&dec("100.1").div(&dec("1")), "100.1"));
    assert!(same(&dec("1").div(&dec("8")), "0.125"));
    assert!(same(&dec("-9").div(&dec("3")), "-3"));
    assert!(same(&dec("0").div(&dec("3")), "0"));
    assert!(same(&dec("4000").div(&dec("12000")).with_scale_round(4, RoundingMode::HalfUp), "0.3333"));
}

#[test]
fn div_keeps_a_hundred_digits() {
    let third = dec("1").div(&dec("3"));
    let text = big(&third).to_string();
    assert!(text.starts_with("0.3333333333"));
    assert_eq!(text.len(), 102);
}

#[test]
fn rounding_modes_on_positive_and_negative_halves() {
    let cases: [(RoundingMode, [&str; 8]); 7] = [
        (RoundingMode::Up, ["6", "3", "2", "2", "-2", "-2", "-3", "-6"]),
        (RoundingMode::Down, ["5", "2", "1", "1", "-1", "-1", "-2", "-5"]),
        (RoundingMode::Ceiling, ["6", "3", "2", "2", "-1", "-1", "-2", "-5"]),
        (RoundingMode::Floor, ["5", "2", "1", "1", "-2", "-2", "-3", "-6"]),
        (RoundingMode::HalfUp, ["6", "3", "2", "1", "-1", "-2", "-3", "-6"]),
        (RoundingMode::HalfDown, ["5", "2", "2", "1", "-1", "-2", "-2", "-5"]),
        (RoundingMode::HalfEven, ["6", "2", "2", "1", "-1", "-2", "-2", "-6"]),
    ];
    let inputs = ["5.5", "2.5", "1.6", "1.1", "-1.1", "-1.6", "-2.5", "-5.5"];
    for (mode, expected) in cases.iter() {
        for (input, want) in inputs.iter().zip(expected.iter()) {
            let got = dec(input).with_scale_round(0, *mode);
            assert!(same(&got, want), "{:?} of {} gave {}", mode, input, big(&got));
            assert_eq!(got.scale(), 0);
        }
    }
}

#[test]
fn rounding_to_two_places() {
    assert!(same(&dec("129.41675").with_scale_round(2, RoundingMode::Up), "129.42"));
    assert!(same(&dec("9.785").with_scale_round(2, RoundingMode::HalfUp), "9.79"));
    assert!(same(&dec("9.784").with_scale_round(2, RoundingMode::HalfUp), "9.78"));
    assert!(same(&dec("-9.785").with_scale_round(2, RoundingMode::HalfUp), "-9.79"));
    assert!(same(&dec("0.001").with_scale_round(2, RoundingMode::Up), "0.01"));
    assert!(same(&dec("0.001").with_scale_round(2, RoundingMode::Down), "0"));
    assert_eq!(dec("7").with_scale_round(2, RoundingMode::HalfUp).scale(), 2);
}

#[test]
fn order_is_by_value_not_by_digits() {
    assert!(dec("1.0").equals(&dec("1.000")));
    assert!(dec("0.5").lt(&dec("1")));
    assert!(!dec("1").lt(&dec("1.0")));
    assert!(dec("10.0").gt(&dec("1")));
    assert!(dec("-1").lt(&dec("1")));
    assert!(dec("2").ge(&dec("2.00")));
    assert!(dec("2").le(&dec("2.00")));
    assert!(!dec("2.01").le(&dec("2.00")));
    assert!(dec("0.000").is_zero());
    assert!(dec("0.001").is_positive());
    assert!(dec("-0.001").is_negative());
    assert!(!dec("0").is_positive());
    assert!(!dec("0").is_negative());
}

#[test]
fn scale_limits() {
    assert!(dec("1.5").is_input());
    assert!(dec("1.5").in_range());
    assert!(dec("1.5").is_moderate());
    let tiny = Decimal::from_parts(vec![1], 1i64 << 33);
    assert!(!tiny.is_input());
    assert!(tiny.in_range());
    let tinier = Decimal::from_parts(vec![1], (1i64 << 59) + 1);
    assert!(!tinier.is_moderate());
    assert!(tinier.in_range());
    let out = Decimal::from_parts(vec![1], (1i64 << 60) + 1);
    assert!(!out.in_range());
}

#[test]
fn clone_keeps_the_decimal() {
    let d = dec("-12.340");
    let c = d.clone();
    assert_eq!(c.bytes(), d.bytes());
    assert_eq!(c.scale(), d.scale());
}

#[test]
fn a_product_over_its_factor_is_the_whole_number() {
    let wholes = [
        "0",
        "1",
        "-1",
        "7",
        "-12",
        "1000",
        "123456789012345678901234567890123456789012345678901234567890\
         123456789012345678901234567890123456789012345678901234567890123",
    ];
    let factors = [
        "1", "1.0", "1.00000", "1.000000000000000000000", "0.001", "0.007", "3", "-3", "0.25",
        "1e3", "7e-30", "10", "0.10", "123456789.987654321", "-0.5",
    ];
    for whole in wholes {
        for factor in factors {
            let w = dec(whole).with_scale_round(0, RoundingMode::Down);
            assert_eq!(w.scale(), 0);
            let f = dec(factor);
            let back = w.mul(&f).div(&f);
            assert!(back.equals(&w), "{} times {} gave back {}", whole, factor, big(&back));
        }
    }
}

#[test]
fn a_quotient_has_the_sign_of_its_operands() {
    assert!(dec("1").div(&dec("3")).is_positive());
    assert!(dec("-1").div(&dec("3")).is_negative());
    assert!(dec("1").div(&dec("-3")).is_negative());
    assert!(dec("-1").div(&dec("-3")).is_positive());
    assert!(dec("0.000").div(&dec("-3")).is_zero());
    assert!(dec("1e-200").div(&dec("3e200")).is_positive());
    assert!(dec("2").div(&dec("3")).scale() >= 0);
    assert!(dec("2e5").div(&dec("3e1")).scale() >= -4);
}

#[test]
fn scales_of_sums_differences_and_products() {
    let values = ["0", "0.000", "1", "1.0", "1.000", "-1", "7e3", "2.50", "0.001", "-12.3456", "1e-9"];
    for a in values {
        for b in values {
            let (x, y) = (dec(a), dec(b));
            let sum = x.add(&y);
            assert!(sum.scale() == x.scale() || sum.scale() == y.scale(), "{} + {}", a, b);
            assert_eq!(big(&sum), big(&x) + big(&y));
            let difference = x.sub(&y);
            assert!(
                difference.scale() == x.scale() || difference.scale() == y.scale(),
                "{} - {}",
                a,
                b
            );
            assert_eq!(big(&difference), big(&x) - big(&y));
            let product = x.mul(&y);
            assert!(
                product.scale() == x.scale() + y.scale()
                    || product.scale() == x.scale()
                    || product.scale() == y.scale(),
                "{} * {}",
                a,
                b
            );
            assert_eq!(big(&product), big(&x) * big(&y));
            if !y.is_zero() {
                let quotient = x.div(&y);
                assert!(
                    quotient.scale() >= x.scale() - y.scale() || quotient.scale() >= x.scale(),
                    "{} / {}",
                    a,
                    b
                );
            }
            assert_eq!(x.lt(&y), big(&x) < big(&y));
        }
    }
}

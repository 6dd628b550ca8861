use uncertain::{
    average, sqrt, with_digits, with_max_digits, with_min_digits, Decimal, UncertainDecimal,
    UncertainError,
};

fn ud(v: &str, u: &str) -> UncertainDecimal {
    UncertainDecimal::from_str(&format!("{} ± {}", v, u)).unwrap()
}

fn d(coefficient: i128, exponent: i32) -> Decimal {
    Decimal { coefficient, exponent }
}

#[test]
fn test() {
    let a = ud("1.7775", "0.6");

    println!("{}", a.canonical().unwrap().to_string());

    let b = ud("2000", "0.3").canonical().unwrap();

    println!("{}", b.to_string());
    println!("{}", a.add(b).unwrap().to_string());

    println!("{}", b.with_digits(8).unwrap().to_string())
}

#[test]
fn canonical_rounds_value_to_uncertainty_place() {
    let c = ud("1.7775", "0.6").canonical().unwrap();
    assert_eq!(c.to_string(), "1.8 ± 0.6");
    assert_eq!(c.value, d(18, -1));
    assert_eq!(c.uncertainty, d(6, -1));
}

#[test]
fn canonical_pads_value_to_uncertainty_place() {
    let c = ud("2000.00", "0.3").canonical().unwrap();
    assert_eq!(c.to_string(), "2000.0 ± 0.3");
    let coarse = ud("2000", "0.3").canonical().unwrap();
    assert_eq!(coarse.to_string(), "2000 ± 1");
}

#[test]
fn canonical_rounds_uncertainty_half_up() {
    let c = ud("10.000", "0.25").canonical().unwrap();
    assert_eq!(c.to_string(), "10.0 ± 0.3");
}

#[test]
fn canonical_coarse_value_takes_unit_uncertainty() {
    let c = UncertainDecimal { value: d(12, 2), uncertainty: d(3, -1) }.canonical().unwrap();
    assert_eq!(c.value, d(12, 2));
    assert_eq!(c.uncertainty, d(1, 2));
}

#[test]
fn canonical_is_idempotent() {
    for (v, u) in [("1.7775", "0.6"), ("2000", "0.3"), ("-3.14159", "0.0271"), ("5E+3", "12")] {
        let once = ud(v, u).canonical().unwrap();
        assert_eq!(once.canonical().unwrap(), once);
        assert_eq!(once.value.exponent, once.uncertainty.exponent);
        assert_eq!(once.uncertainty.digits(), 1);
    }
}

#[test]
fn add_combines_in_quadrature() {
    let a = ud("1.8", "0.6");
    let b = ud("2000.0", "0.3");
    let raw = a.quadrature(b).unwrap();
    assert!(raw.coefficient.to_string().starts_with("67082039"));
    assert_eq!(raw.exponent, -34);
    let s = a.add(b).unwrap();
    assert_eq!(s.uncertainty.digits(), 1);
    assert_eq!(s.value.exponent, s.uncertainty.exponent);
    assert_eq!(s.to_string(), "2.0E+3 ± 1E+2");
}

#[test]
fn add_rounds_combined_uncertainty_to_one_digit() {
    let s = ud("1.80000", "0.6").add(ud("2000.00", "0.3")).unwrap();
    assert_eq!(s.to_string(), "2001.8 ± 0.7");
}

#[test]
fn add_keeps_equal_precision() {
    let s = ud("1.8", "0.6").add(ud("2.1", "0.3")).unwrap();
    assert_eq!(s.to_string(), "3.9 ± 0.7");
}

#[test]
fn sub_negates_rhs() {
    let s = ud("5.5", "0.3").sub(ud("2.1", "0.4")).unwrap();
    assert_eq!(s.to_string(), "3.4 ± 0.5");
}

#[test]
fn neg_keeps_uncertainty() {
    let n = ud("1.8", "0.6").neg();
    assert_eq!(n.to_string(), "-1.8 ± 0.6");
}

#[test]
fn mul_uses_relative_errors() {
    let p = ud("2.0", "0.3").mul(ud("4.0", "0.4")).unwrap();
    assert_eq!(p.to_string(), "8 ± 1");
}

#[test]
fn div_uses_relative_errors() {
    let q = ud("8.0", "0.4").div(ud("2.0", "0.1")).unwrap();
    assert_eq!(q.value.exponent, q.uncertainty.exponent);
    assert_eq!(q.to_string(), "4.0 ± 0.3");
}

#[test]
fn mul_by_zero_value_is_refused() {
    assert_eq!(ud("0", "0.1").mul(ud("2.0", "0.1")), Err(UncertainError::ZeroValue));
    assert_eq!(ud("2.0", "0.1").div(ud("0.0", "0.1")), Err(UncertainError::ZeroValue));
}

#[test]
fn sum_of_many() {
    let s = UncertainDecimal::sum(&[ud("1.0", "0.3"), ud("2.0", "0.4"), ud("3.0", "1.2")]).unwrap();
    assert_eq!(s.to_string(), "6 ± 1");
}

#[test]
fn sum_of_none_is_zero() {
    let s = UncertainDecimal::sum(&[]).unwrap();
    assert_eq!(s.to_string(), "0 ± 0");
}

#[test]
fn product_of_many() {
    let p = UncertainDecimal::product(&[ud("2.0", "0.2"), ud("3.0", "0.3")]).unwrap();
    assert_eq!(p.value.exponent, p.uncertainty.exponent);
    assert_eq!(p.uncertainty.digits(), 1);
}

#[test]
fn product_of_none_is_one() {
    let p = UncertainDecimal::product(&[]).unwrap();
    assert_eq!(p.to_string(), "1 ± 0");
}

#[test]
fn product_with_zero_value_is_refused() {
    let r = UncertainDecimal::product(&[ud("2.0", "0.2"), ud("0", "0.3")]);
    assert_eq!(r, Err(UncertainError::ZeroValue));
}

#[test]
fn average_of_three() {
    let a = average(&[d(10, 0), d(12, 0), d(14, 0)]).unwrap();
    assert_eq!(a.to_string(), "12 ± 2");
}

#[test]
fn average_of_one_is_refused() {
    assert_eq!(average(&[d(5, 0)]), Err(UncertainError::TooFewSamples));
    assert_eq!(average(&[]), Err(UncertainError::TooFewSamples));
}

#[test]
fn parse_and_format_round_trip() {
    for (v, u) in [("1.8", "0.6"), ("2000.0", "0.3"), ("-4.2E+7", "3E+6"), ("0.00012", "0.00003")] {
        let x = ud(v, u).canonical().unwrap();
        assert_eq!(UncertainDecimal::from_str(&x.to_string()), Ok(x));
    }
}

#[test]
fn parse_trims_white_space() {
    let x = UncertainDecimal::from_str("  1.25\t±\n0.05 ").unwrap();
    assert_eq!(x.value, d(125, -2));
    assert_eq!(x.uncertainty, d(5, -2));
}

#[test]
fn parse_rejects_malformed_text() {
    assert_eq!(UncertainDecimal::from_str("1.25 +- 0.05"), Err(UncertainError::Malformed));
    assert_eq!(UncertainDecimal::from_str("abc ± 0.05"), Err(UncertainError::Malformed));
    assert_eq!(UncertainDecimal::from_str("1.25 ± "), Err(UncertainError::Malformed));
}

#[test]
fn with_digits_pins_significant_digits() {
    assert_eq!(with_digits(d(17775, -4), 2), Some(d(18, -1)));
    assert_eq!(with_digits(d(12, 0), 4), Some(d(1200, -2)));
    assert_eq!(with_digits(d(0, 0), 3), Some(d(0, 0)));
}

#[test]
fn with_max_digits_rounds_one_step_at_a_time() {
    assert_eq!(with_max_digits(d(149, 0), 1), Some(d(2, 2)));
    assert_eq!(with_max_digits(d(-25, 0), 1), Some(d(-3, 1)));
    assert_eq!(with_max_digits(d(7, 0), 1), Some(d(7, 0)));
}

#[test]
fn with_min_digits_appends_zeros() {
    assert_eq!(with_min_digits(d(12, 0), 4), Some(d(1200, -2)));
    assert_eq!(with_min_digits(d(12345, 0), 4), Some(d(12345, 0)));
}

#[test]
fn uncertain_with_digits_recanonicalizes() {
    let b = ud("2000", "0.3").canonical().unwrap();
    assert_eq!(b.with_digits(8).unwrap().to_string(), "2000 ± 1");
    assert_eq!(b.with_digits(2).unwrap(), UncertainDecimal { value: d(20, 2), uncertainty: d(1, 2) });
}

#[test]
fn sqrt_uses_wide_precision() {
    assert_eq!(sqrt(d(4, 0)), Some(d(2, 0)));
    let r = sqrt(d(2, 0)).unwrap();
    assert!(r.digits() > 16);
    assert!(r.coefficient.to_string().starts_with("1414213562373095"));
}

#[test]
fn mul_with_negative_product_keeps_uncertainty_non_negative() {
    let p = ud("-2.0", "0.3").mul(ud("4.0", "0.4")).unwrap();
    assert_eq!(p.to_string(), "-8 ± 1");
    assert!(p.uncertainty.coefficient >= 0);
}

#[test]
fn div_with_negative_quotient_keeps_uncertainty_non_negative() {
    let q = ud("-8.0", "0.4").div(ud("2.0", "0.1")).unwrap();
    assert_eq!(q.to_string(), "-4.0 ± 0.3");
    assert!(q.uncertainty.coefficient >= 0);
}

#[test]
fn product_with_negative_value_keeps_uncertainty_non_negative() {
    let p = UncertainDecimal::product(&[ud("-2.0", "0.2"), ud("3.0", "0.3")]).unwrap();
    assert!(p.value.coefficient < 0);
    assert!(p.uncertainty.coefficient > 0);
}

#[test]
fn sqrt_of_negative_has_no_root() {
    assert_eq!(sqrt(d(-4, 0)), None);
    assert_eq!(sqrt(d(0, 0)), Some(d(0, 0)));
}

use rulox::num::{parse_number_lexeme, Num, SCALE};

fn fin(units: u64) -> Num {
    Num::Finite { neg: false, units }
}

fn neg(units: u64) -> Num {
    Num::Finite { neg: true, units }
}

#[test]
fn parse_whole_and_fractional_lexemes() {
    assert_eq!(parse_number_lexeme("0"), fin(0));
    assert_eq!(parse_number_lexeme("1"), fin(SCALE));
    assert_eq!(parse_number_lexeme("12.25"), fin(12_250_000));
    assert_eq!(parse_number_lexeme("0.000001"), fin(1));
}

#[test]
fn parse_keeps_six_fractional_digits() {
    assert_eq!(parse_number_lexeme("1.2345678"), fin(1_234_567));
    assert_eq!(parse_number_lexeme("0.9999999"), fin(999_999));
}

#[test]
fn parse_saturates_huge_literals() {
    assert_eq!(
        parse_number_lexeme("99999999999999999999999999999999999999"),
        Num::PosInf
    );
}

#[test]
fn addition_and_subtraction() {
    assert_eq!(fin(1_500_000).add(fin(2_500_000)), fin(4_000_000));
    assert_eq!(fin(1_000_000).sub(fin(3_000_000)), neg(2_000_000));
    assert_eq!(fin(2_000_000).sub(fin(2_000_000)), fin(0));
    assert_eq!(neg(1_000_000).add(fin(1_000_000)), fin(0));
}

#[test]
fn addition_saturates() {
    assert_eq!(fin(u64::MAX).add(fin(1)), Num::PosInf);
    assert_eq!(neg(u64::MAX).sub(fin(1)), Num::NegInf);
}

#[test]
fn multiplication_and_division() {
    assert_eq!(fin(2_000_000).mul(fin(3_500_000)), fin(7_000_000));
    assert_eq!(fin(7_000_000).div(fin(2_000_000)), fin(3_500_000));
    assert_eq!(fin(1_000_000).div(fin(3_000_000)), fin(333_333));
    assert_eq!(neg(2_000_000).mul(fin(3_000_000)), neg(6_000_000));
}

#[test]
fn division_by_zero() {
    assert_eq!(fin(1_000_000).div(fin(0)), Num::PosInf);
    assert_eq!(neg(1_000_000).div(fin(0)), Num::NegInf);
    assert_eq!(fin(0).div(fin(0)), Num::NaN);
}

#[test]
fn special_values_propagate() {
    assert_eq!(Num::NaN.add(fin(1)), Num::NaN);
    assert_eq!(Num::PosInf.add(Num::NegInf), Num::NaN);
    assert_eq!(Num::PosInf.add(fin(1)), Num::PosInf);
    assert_eq!(Num::PosInf.mul(fin(0)), Num::NaN);
    assert_eq!(Num::PosInf.mul(neg(1)), Num::NegInf);
    assert_eq!(fin(5).div(Num::PosInf), fin(0));
    assert_eq!(Num::PosInf.div(Num::PosInf), Num::NaN);
}

#[test]
fn ordering() {
    assert!(neg(1).lt(fin(0)));
    assert!(fin(1).lt(fin(2)));
    assert!(fin(2).le(fin(2)));
    assert!(Num::NegInf.lt(fin(0)));
    assert!(fin(0).lt(Num::PosInf));
    assert!(!Num::NaN.lt(fin(0)));
    assert!(!fin(0).lt(Num::NaN));
    assert!(!Num::NaN.le(Num::NaN));
}

#[test]
fn tolerant_equality() {
    assert!(fin(1_000_000).approx_eq(fin(1_000_001)));
    assert!(!fin(1_000_000).approx_eq(fin(1_000_002)));
    assert!(fin(0).approx_eq(neg(0)));
    assert!(fin(0).approx_eq(fin(1)));
    assert!(!Num::NaN.approx_eq(Num::NaN));
    assert!(!Num::PosInf.approx_eq(Num::PosInf));
}

#[test]
fn display_forms() {
    assert_eq!(fin(1_000_000).to_display_string(), "1");
    assert_eq!(fin(1_500_000).to_display_string(), "1.5");
    assert_eq!(fin(0).to_display_string(), "0");
    assert_eq!(neg(500_000).to_display_string(), "-0.5");
    assert_eq!(fin(1).to_display_string(), "0.000001");
    assert_eq!(fin(1_200_300).to_display_string(), "1.2003");
    assert_eq!(Num::PosInf.to_display_string(), "inf");
    assert_eq!(Num::NegInf.to_display_string(), "-inf");
    assert_eq!(Num::NaN.to_display_string(), "NaN");
}

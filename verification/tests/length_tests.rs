use seiran_compiler::length::{
    non_negative, positive, split_length_literal, Length, LengthRangeError, LengthUnit, ParseLengthError,
};

#[test]
fn from_str_rejects_unknown_unit() {
    let result = split_length_literal("12px");

    assert!(result.is_none());
}

#[test]
fn length_literals_split_into_number_and_unit() {
    assert_eq!(split_length_literal(" 12.5pt "), Some(("12.5".to_string(), LengthUnit::Pt)));
    assert_eq!(split_length_literal("3 mm"), Some(("3 ".to_string(), LengthUnit::Mm)));
    assert_eq!(split_length_literal("-2cm"), Some(("-2".to_string(), LengthUnit::Cm)));
    assert_eq!(split_length_literal("12"), None);
    assert_eq!(split_length_literal("pt"), Some(("".to_string(), LengthUnit::Pt)));
}

#[test]
fn arithmetic_works_in_scaled_points() {
    let a = Length::from_sp(65536);
    let b = Length::from_sp(-131072);

    assert_eq!(a.plus(b).sp(), -65536);
    assert_eq!(a.minus(b).sp(), 196608);
    assert_eq!(b.negated().sp(), 131072);
    assert_eq!(b.abs().sp(), 131072);
    assert_eq!(a.times(3).sp(), 196608);
    assert_eq!(Length::sum(&[a, b, a]).sp(), 0);
    let mut c = Length::zero();
    c.add_assign(a);
    c.sub_assign(b);
    assert_eq!(c.sp(), 196608);
}

#[test]
fn sum_does_not_depend_on_the_order_of_the_terms() {
    let items = [Length::from_sp(7), Length::from_sp(-3), Length::from_sp(100)];
    let reversed = [items[2], items[1], items[0]];

    assert_eq!(Length::sum(&items), Length::sum(&reversed));
    assert_eq!(Length::sum(&[]).sp(), 0);
}

#[test]
fn range_checks_distinguish_zero_and_negative() {
    assert!(positive(&Length::from_sp(1)).is_ok());
    assert_eq!(positive(&Length::zero()), Err(LengthRangeError::NotPositive));
    assert!(non_negative(&Length::zero()).is_ok());
    assert_eq!(non_negative(&Length::from_sp(-1)), Err(LengthRangeError::Negative));
    assert!(Length::from_sp(1).is_positive());
    assert!(!Length::from_sp(-1).is_non_negative());
}

#[test]
fn parse_error_keeps_the_input() {
    let e = ParseLengthError::new("12px");

    assert_eq!(e.input(), "12px");
}

const PT: i64 = 65536;

#[test]
fn zero_is_additive_identity() {
    let a = Length::from_sp(7 * PT);

    assert_eq!(a.plus(Length::zero()), a);
    assert_eq!(Length::zero().sp(), 0);
}

#[test]
fn positive_validator_accepts_positive() {
    assert!(positive(&Length::from_sp(PT)).is_ok());
}

#[test]
fn positive_validator_rejects_zero_and_negative() {
    assert!(positive(&Length::from_sp(0)).is_err());
    assert!(positive(&Length::from_sp(-PT)).is_err());
}

#[test]
fn non_negative_validator_accepts_zero() {
    assert!(non_negative(&Length::from_sp(0)).is_ok());
    assert!(non_negative(&Length::from_sp(PT)).is_ok());
}

#[test]
fn non_negative_validator_rejects_negative() {
    assert!(non_negative(&Length::from_sp(-6554)).is_err());
}

#[test]
fn add_works() {
    assert_eq!(Length::from_sp(PT).plus(Length::from_sp(2 * PT)), Length::from_sp(3 * PT));
}

#[test]
fn sub_works() {
    assert_eq!(Length::from_sp(5 * PT).minus(Length::from_sp(3 * PT)), Length::from_sp(2 * PT));
}

#[test]
fn neg_works() {
    assert_eq!(Length::from_sp(4 * PT).negated(), Length::from_sp(-4 * PT));
}

#[test]
fn add_assign_and_sub_assign_work() {
    let mut a = Length::from_sp(PT);
    a.add_assign(Length::from_sp(2 * PT));
    assert_eq!(a, Length::from_sp(3 * PT));
    a.sub_assign(Length::from_sp(PT));
    assert_eq!(a, Length::from_sp(2 * PT));
}

#[test]
fn mul_by_integer_is_exact() {
    assert_eq!(Length::from_sp(3).times(2), Length::from_sp(6));
    assert_eq!(Length::from_sp(3 * PT).times(2), Length::from_sp(6 * PT));
}

#[test]
fn min_max_abs_work() {
    let a = Length::from_sp(2 * PT);
    let b = Length::from_sp(5 * PT);
    assert_eq!(a.min(b), a);
    assert_eq!(a.max(b), b);
    assert_eq!(Length::from_sp(-3 * PT).abs(), Length::from_sp(3 * PT));
}

#[test]
fn sum_of_lengths_is_exact() {
    let items = [Length::from_sp(PT), Length::from_sp(2 * PT), Length::from_sp(3 * PT)];

    assert_eq!(Length::sum(&items), Length::from_sp(6 * PT));
}

#[test]
fn rejects_unknown_unit() {
    assert!(split_length_literal("12px").is_none());
}

#[test]
fn rejects_bare_number() {
    assert!(split_length_literal("12").is_none());
}

#[test]
fn space_between_number_and_unit_is_not_a_length_literal() {
    assert_eq!(split_length_literal("5 pt"), Some(("5 ".to_string(), LengthUnit::Pt)));
    assert_eq!(split_length_literal("  25.4mm "), Some(("25.4".to_string(), LengthUnit::Mm)));
}

//! End-to-end tests of the compile-and-evaluate pipeline.

use decalc::error::Error;
use decalc::interpreter::interpreter::evaluate_expression;
use decalc::number::Number;
use rust_decimal::Decimal;
use std::str::FromStr;

fn eval_ok(text: &str) -> Number {
    match evaluate_expression(text) {
        Ok(n) => n,
        Err(e) => panic!("evaluating {:?} failed with {:?}", text, e),
    }
}

fn eval_err(text: &str) -> Error {
    match evaluate_expression(text) {
        Ok(n) => panic!("evaluating {:?} unexpectedly gave {:?}", text, n),
        Err(e) => e,
    }
}

fn as_decimal(n: Number) -> Decimal {
    Decimal::from_i128_with_scale(n.mantissa, n.scale)
}

fn assert_value(text: &str, expected: &str) {
    let got = as_decimal(eval_ok(text));
    let want = Decimal::from_str(expected).unwrap();
    assert_eq!(got, want, "{:?} evaluated to {} instead of {}", text, got, want);
}

#[test]
fn precedence_mul_before_add() {
    assert_value("1+2*3", "7");
}

#[test]
fn precedence_pow_right_associative() {
    assert_value("2^3^2", "512");
}

#[test]
fn precedence_left_associative_sub() {
    assert_value("8-2-1", "5");
}

#[test]
fn precedence_left_associative_div() {
    assert_value("100/10/5", "2");
}

#[test]
fn precedence_parentheses_override() {
    assert_value("(1+2)*3", "9");
}

#[test]
fn round_trip_simple_sum() {
    assert_value("3+4", "7");
}

#[test]
fn unary_minus_before_sum() {
    assert_value("-3+4", "1");
}

#[test]
fn unary_minus_in_parentheses() {
    assert_value("3-(-4)", "7");
}

#[test]
fn double_negation_cancels() {
    assert_value("--3", "3");
}

#[test]
fn unary_plus_is_transparent() {
    assert_value("+3", "3");
}

#[test]
fn unmatched_open_parenthesis_fails() {
    assert_eq!(eval_err("(1+2"), Error::UnmatchedParenthesis { line: 1, column: 1 });
}

#[test]
fn unmatched_close_parenthesis_fails() {
    assert_eq!(eval_err("1+2)"), Error::UnmatchedParenthesis { line: 1, column: 4 });
}

#[test]
fn doubled_parentheses_are_fine() {
    assert_value("((1+2))", "3");
}

#[test]
fn min_of_three() {
    assert_value("min(3,1,2)", "1");
}

#[test]
fn max_of_three() {
    assert_value("max(3,1,2)", "3");
}

#[test]
fn min_without_arguments_fails() {
    assert!(matches!(eval_err("min()"), Error::WrongArity { .. }));
}

#[test]
fn unknown_function_fails() {
    assert_eq!(eval_err("avg(1,2)"), Error::UnknownFunction { line: 1, column: 1 });
}

#[test]
fn second_dot_in_a_numeral_fails() {
    assert_eq!(eval_err("1.2.3"), Error::UnexpectedDot { line: 1, column: 4 });
}

#[test]
fn decimal_addition_is_exact() {
    let n = eval_ok("0.1+0.2");
    assert_eq!(n, Number { mantissa: 3, scale: 1 });
    assert_eq!(as_decimal(n), Decimal::from_str("0.3").unwrap());
}

#[test]
fn subtraction_through_backend() {
    assert_value("5-2", "3");
}

#[test]
fn multiplication_through_backend() {
    assert_value("2*3", "6");
}

#[test]
fn division_through_backend() {
    assert_value("10/4", "2.5");
}

#[test]
fn remainder_through_backend() {
    assert_value("7%3", "1");
}

#[test]
fn power_through_backend() {
    assert_value("2^10", "1024");
}

#[test]
fn comparison_through_backend() {
    assert_value("min(2,1)", "1");
    assert_value("max(1,2)", "2");
    assert_value("min(0.5,0.06)", "0.06");
}

#[test]
fn division_by_zero_faults() {
    assert_eq!(eval_err("1/0"), Error::ArithmeticFault { line: 1, column: 2 });
}

#[test]
fn invalid_infix_operator_fails() {
    assert_eq!(eval_err("*3"), Error::InvalidInfixOperator { line: 1, column: 1 });
}

#[test]
fn unexpected_character_fails() {
    assert_eq!(eval_err("1#2"), Error::UnexpectedCharacter { line: 1, column: 2 });
}

#[test]
fn empty_expression_fails() {
    assert_eq!(eval_err(""), Error::EmptyExpression);
    assert_eq!(eval_err("   "), Error::EmptyExpression);
}

#[test]
fn missing_operand_is_wrong_arity() {
    assert!(matches!(eval_err("3+"), Error::WrongArity { .. }));
}

#[test]
fn newline_advances_the_line_counter() {
    assert_value("1+\n2", "3");
    assert_eq!(eval_err("1+\n2..3"), Error::UnexpectedDot { line: 2, column: 6 });
}

#[test]
fn whitespace_is_skipped() {
    assert_value(" 1 + 2 * 3 ", "7");
}

#[test]
fn nested_calls_evaluate_inside_out() {
    assert_value("min(3,max(1,2))", "2");
    assert_value("max(1+1,min(5,4),2)", "4");
}

#[test]
fn fractional_literals_keep_scale() {
    assert_value("1.50+0.25", "1.75");
    assert_value("2.5*4", "10.0");
}

#[test]
fn oversized_literal_faults() {
    // One digit more than the 96-bit mantissa can hold.
    assert!(matches!(
        eval_err("99999999999999999999999999999999"),
        Error::ArithmeticFault { .. }
    ));
    // One fractional digit more than the largest scale.
    assert!(matches!(
        eval_err("0.00000000000000000000000000001"),
        Error::ArithmeticFault { .. }
    ));
}

#[test]
fn mixed_expression() {
    assert_value("min(3,1,2)+max(3,1,2)*2", "7");
    assert_value("-(1+2)", "-3");
    assert_value("2*-3", "-6");
}

//! End-to-end tests of the lex → convert → evaluate pipeline.

use rpn_calc::converter::{convert, ConvertError};
use rpn_calc::evaluator::evaluate;
use rpn_calc::lexer::lex;
use rpn_calc::process;
use rpn_calc::token::Rational;
use rpn_calc::ProcessError;

fn chars(s: &str) -> Vec<char> {
    s.chars().collect()
}

fn eval_str(s: &str) -> Rational {
    let res = process(&chars(s)).expect("expected successful evaluation");
    res.value
}

fn assert_value(s: &str, expected: i64) {
    let v = eval_str(s);
    assert!(
        v.eq_value(&Rational::from_int(expected)),
        "{} evaluated to {}/{}, expected {}",
        s,
        v.num,
        v.den,
        expected
    );
}

#[test]
fn precedence_mul_over_add() {
    assert_value("3+4*2", 11);
}

#[test]
fn parentheses_override_precedence() {
    assert_value("(3+4)*2", 14);
}

#[test]
fn power_is_right_associative() {
    assert_value("2^3^2", 512);
}

#[test]
fn subtraction_is_left_associative() {
    assert_value("10-2-3", 5);
}

#[test]
fn division_is_left_associative() {
    let v = eval_str("8/4/2");
    assert!(v.eq_value(&Rational::from_int(1)));
}

#[test]
fn whitespace_is_skipped() {
    assert_value(" 1 +  2 ", 3);
}

#[test]
fn multi_digit_and_decimal_literals() {
    assert_value("12+34", 46);
    let v = eval_str("2.5+2.5");
    assert!(v.eq_value(&Rational::from_int(5)));
    let half = eval_str("0.5");
    assert_eq!(half.num, 5);
    assert_eq!(half.den, 10);
}

#[test]
fn unary_minus_and_plus() {
    assert_value("-3+4", 1);
    assert_value("3--2", 5);
    assert_value("+5", 5);
    assert_value("2*(-3)", -6);
}

#[test]
fn unbalanced_open_paren() {
    match process(&chars("(1+2")) {
        Err(ProcessError::Convert(ConvertError::UnbalancedParenthesis)) => {}
        other => panic!("expected UnbalancedParenthesis, got {:?}", other),
    }
}

#[test]
fn unbalanced_close_paren() {
    match process(&chars("1+2)")) {
        Err(ProcessError::Convert(ConvertError::UnbalancedParenthesis)) => {}
        other => panic!("expected UnbalancedParenthesis, got {:?}", other),
    }
}

#[test]
fn separator_without_paren() {
    match process(&chars("1,2")) {
        Err(ProcessError::Convert(ConvertError::MissingSeparatorOrParen)) => {}
        other => panic!("expected MissingSeparatorOrParen, got {:?}", other),
    }
}

#[test]
fn function_with_separator() {
    assert_value("max(1,2)", 2);
}

#[test]
fn function_missing_close_paren() {
    match process(&chars("max(1,2")) {
        Err(ProcessError::Convert(ConvertError::UnbalancedParenthesis)) => {}
        other => panic!("expected UnbalancedParenthesis, got {:?}", other),
    }
}

#[test]
fn min_and_abs_functions() {
    assert_value("min(3,2)", 2);
    assert_value("abs(0-5)", 5);
    assert_value("max(1+1,1)", 2);
}

#[test]
fn empty_input_is_malformed() {
    match process(&chars("")) {
        Err(ProcessError::Eval(e)) => {
            assert_eq!(format!("{:?}", e), "MalformedExpression");
        }
        other => panic!("expected MalformedExpression, got {:?}", other),
    }
}

#[test]
fn rendered_rpn_text() {
    let res = process(&chars("3+4*2")).expect("pipeline should succeed");
    let rendered: String = res.rpn.iter().collect();
    assert_eq!(rendered, "3 4 2 * +");
}

#[test]
fn round_trip_simple_sum() {
    let original = eval_str("1+2");
    let res = process(&chars("1+2")).expect("pipeline should succeed");
    let rendered: String = res.rpn.iter().collect();
    let again = eval_str(&rendered);
    assert!(original.eq_value(&again));
}

#[test]
fn round_trip_function_call() {
    let original = eval_str("max(1,2)");
    let res = process(&chars("max(1,2)")).expect("pipeline should succeed");
    let rendered: String = res.rpn.iter().collect();
    assert_eq!(rendered, "1 2 max");
    let again = eval_str(&rendered);
    assert!(original.eq_value(&again));
}

#[test]
fn round_trip_right_associative_power() {
    let original = eval_str("2^3^2");
    let res = process(&chars("2^3^2")).expect("pipeline should succeed");
    let rendered: String = res.rpn.iter().collect();
    let again = eval_str(&rendered);
    assert!(original.eq_value(&again));
}

#[test]
fn round_trip_single_number() {
    let res = process(&chars("42")).expect("pipeline should succeed");
    let rendered: String = res.rpn.iter().collect();
    assert_eq!(rendered, "42");
    let again = eval_str(&rendered);
    assert!(res.value.eq_value(&again));
}

#[test]
fn rpn_output_contains_no_parentheses() {
    let res = process(&chars("(1+2)*max(3,4)")).expect("pipeline should succeed");
    let rendered: String = res.rpn.iter().collect();
    assert!(!rendered.contains('('));
    assert!(!rendered.contains(')'));
    assert!(!rendered.contains(','));
    assert!(res.value.eq_value(&Rational::from_int(12)));
}

#[test]
fn trailing_decimal_point_reads_as_integer() {
    let v = eval_str("1.");
    assert!(v.eq_value(&Rational::from_int(1)));
}

#[test]
fn leading_decimal_point_is_unrecognized() {
    match process(&chars(".5")) {
        Err(ProcessError::Lex(e)) => {
            assert_eq!(format!("{:?}", e), "UnrecognizedCharacter { ch: '.', position: 1 }");
        }
        other => panic!("expected UnrecognizedCharacter, got {:?}", other),
    }
}

#[test]
fn staged_pipeline_matches_process() {
    let toks = lex(&chars("3+4*2")).expect("lexes");
    let rpn = convert(toks).expect("converts");
    let v = evaluate(&rpn).expect("evaluates");
    assert!(v.eq_value(&Rational::from_int(11)));
}

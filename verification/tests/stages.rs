//! Tests of the individual stages: lexer errors and purity, evaluator
//! errors, arithmetic domain errors, and the containers.

use rpn_calc::containers::{Queue, Stack};
use rpn_calc::evaluator::EvalError;
use rpn_calc::lexer::{lex, LexError};
use rpn_calc::process;
use rpn_calc::rational::DomainDetail;
use rpn_calc::token::{Rational, Token};
use rpn_calc::ProcessError;

fn chars(s: &str) -> Vec<char> {
    s.chars().collect()
}

#[test]
fn unrecognized_character_with_position() {
    match process(&chars("3+@")) {
        Err(ProcessError::Lex(LexError::UnrecognizedCharacter { ch, position })) => {
            assert_eq!(ch, '@');
            assert_eq!(position, 3);
        }
        other => panic!("expected UnrecognizedCharacter, got {:?}", other),
    }
}

#[test]
fn position_counts_whitespace() {
    match process(&chars(" 3 + @")) {
        Err(ProcessError::Lex(LexError::UnrecognizedCharacter { ch, position })) => {
            assert_eq!(ch, '@');
            assert_eq!(position, 6);
        }
        other => panic!("expected UnrecognizedCharacter, got {:?}", other),
    }
}

#[test]
fn number_too_large() {
    match process(&chars("99999999999999999999")) {
        Err(ProcessError::Lex(LexError::NumberTooLarge { position })) => {
            assert_eq!(position, 1);
        }
        other => panic!("expected NumberTooLarge, got {:?}", other),
    }
}

#[test]
fn lexing_is_idempotent() {
    let input = chars("max(1.5, 2) ^ -3");
    let first = lex(&input).expect("lexes");
    let second = lex(&input).expect("lexes");
    assert_eq!(first, second);
}

#[test]
fn lexer_accumulates_runs() {
    let toks = lex(&chars("12.5+sin")).expect("lexes");
    assert_eq!(toks.len(), 3);
    assert_eq!(toks[0], Token::Number(Rational { num: 125, den: 10 }));
    match &toks[2] {
        Token::Function(name) => {
            let s: String = name.iter().collect();
            assert_eq!(s, "sin");
        }
        other => panic!("expected Function, got {:?}", other),
    }
}

#[test]
fn division_by_zero() {
    match process(&chars("1/0")) {
        Err(ProcessError::Eval(EvalError::DomainError { detail })) => {
            assert_eq!(detail, DomainDetail::DivisionByZero);
        }
        other => panic!("expected DivisionByZero, got {:?}", other),
    }
}

#[test]
fn fractional_exponent_is_domain_error() {
    match process(&chars("2^(1/2)")) {
        Err(ProcessError::Eval(EvalError::DomainError { detail })) => {
            assert_eq!(detail, DomainDetail::FractionalExponent);
        }
        other => panic!("expected FractionalExponent, got {:?}", other),
    }
}

#[test]
fn negative_power_of_zero_is_division_by_zero() {
    match process(&chars("0^(-1)")) {
        Err(ProcessError::Eval(EvalError::DomainError { detail })) => {
            assert_eq!(detail, DomainDetail::DivisionByZero);
        }
        other => panic!("expected DivisionByZero, got {:?}", other),
    }
}

#[test]
fn overflow_is_domain_error() {
    match process(&chars("9999999999^99")) {
        Err(ProcessError::Eval(EvalError::DomainError { detail })) => {
            assert_eq!(detail, DomainDetail::Overflow);
        }
        other => panic!("expected Overflow, got {:?}", other),
    }
}

#[test]
fn negative_exponent_gives_reciprocal() {
    let res = process(&chars("2^(-3)")).expect("pipeline should succeed");
    assert_eq!(res.value.num, 1);
    assert_eq!(res.value.den, 8);
}

#[test]
fn unknown_function() {
    match process(&chars("foo(1)")) {
        Err(ProcessError::Eval(EvalError::UnknownFunction { name })) => {
            let s: String = name.iter().collect();
            assert_eq!(s, "foo");
        }
        other => panic!("expected UnknownFunction, got {:?}", other),
    }
}

#[test]
fn insufficient_operands_binary() {
    match process(&chars("1+")) {
        Err(ProcessError::Eval(EvalError::InsufficientOperands)) => {}
        other => panic!("expected InsufficientOperands, got {:?}", other),
    }
}

#[test]
fn insufficient_operands_unary() {
    match process(&chars("-")) {
        Err(ProcessError::Eval(EvalError::InsufficientOperands)) => {}
        other => panic!("expected InsufficientOperands, got {:?}", other),
    }
}

#[test]
fn too_many_operands_is_malformed() {
    match process(&chars("1 2")) {
        Err(ProcessError::Eval(EvalError::MalformedExpression)) => {}
        other => panic!("expected MalformedExpression, got {:?}", other),
    }
}

#[test]
fn rational_equality_is_mathematical() {
    let a = Rational { num: 500, den: 100 };
    let b = Rational::from_int(5);
    assert!(a.eq_value(&b));
    let c = Rational { num: 1, den: 2 };
    assert!(!a.eq_value(&c));
}

#[test]
fn stack_is_lifo() {
    let mut s: Stack<i64> = Stack::new();
    assert!(s.is_empty());
    assert_eq!(s.size(), 0);
    s.push(1);
    s.push(2);
    assert_eq!(s.size(), 2);
    assert_eq!(s.peek(), Some(&2));
    assert_eq!(s.pop(), Some(2));
    assert_eq!(s.pop(), Some(1));
    assert_eq!(s.pop(), None);
    assert!(s.is_empty());
}

#[test]
fn queue_is_fifo() {
    let mut q: Queue<i64> = Queue::new();
    assert!(q.is_empty());
    q.enqueue(1);
    q.enqueue(2);
    q.enqueue(3);
    assert_eq!(q.dequeue(), 1);
    assert_eq!(q.dequeue(), 2);
    assert!(!q.is_empty());
    assert_eq!(q.dequeue(), 3);
    assert!(q.is_empty());
}

//! An infix-to-RPN calculator core.
//!
//! The crate lexes an arithmetic expression written in infix notation,
//! converts the token sequence into Reverse Polish Notation with the
//! shunting-yard algorithm, and evaluates the RPN sequence to a single
//! numeric result. Numbers are exact rationals over `i64`, so every stage
//! has a precise mathematical model and is verified against it.

pub mod containers;
pub mod converter;
pub mod evaluator;
pub mod laws;
pub mod lexer;
pub mod rational;
pub mod render;
pub mod token;

use vstd::prelude::*;

use crate::converter::{convert, spec_convert, ConvertError};
use crate::evaluator::{evaluate, spec_evaluate, EvalError, SpecEvalError};
use crate::lexer::{lex, spec_lex, LexError};
use crate::render::{render_tokens, spec_render};
use crate::token::Rational;

verus! {

/// The first failure of the pipeline: one error per call, from the stage
/// that found it.
#[derive(Debug, PartialEq)]
pub enum ProcessError {
    /// The lexer rejected the input.
    Lex(LexError),
    /// The converter rejected the token sequence.
    Convert(ConvertError),
    /// The evaluator rejected the RPN sequence.
    Eval(EvalError),
}

/// The mathematical model of a pipeline failure.
pub enum SpecProcessError {
    Lex(LexError),
    Convert(ConvertError),
    Eval(SpecEvalError),
}

impl View for ProcessError {
    type V = SpecProcessError;

    open spec fn view(&self) -> SpecProcessError {
        match self {
            ProcessError::Lex(e) => SpecProcessError::Lex(*e),
            ProcessError::Convert(e) => SpecProcessError::Convert(*e),
            ProcessError::Eval(e) => SpecProcessError::Eval(e@),
        }
    }
}

/// The outcome of one successful call: the exact value of the expression
/// and the intermediate RPN sequence rendered as text for display.
#[derive(Debug)]
pub struct EvaluationResult {
    pub value: Rational,
    pub rpn: Vec<char>,
}

/// The whole pipeline as one function: lex, convert to RPN, evaluate.
pub open spec fn spec_process(s: Seq<char>) -> Result<
    (Rational, Seq<char>),
    SpecProcessError,
> {
    match spec_lex(s) {
        Err(e) => Err(SpecProcessError::Lex(e)),
        Ok(ts) => match spec_convert(ts) {
            Err(e) => Err(SpecProcessError::Convert(e)),
            Ok(rpn) => match spec_evaluate(rpn) {
                Err(e) => Err(SpecProcessError::Eval(e)),
                Ok(v) => Ok((v, spec_render(rpn))),
            },
        },
    }
}

/// Runs the three stages on one expression to completion: on success the
/// result holds exactly the value and the rendered RPN text that
/// `spec_process` describes, and on failure exactly its first error.
pub fn process(input: &Vec<char>) -> (r: Result<EvaluationResult, ProcessError>)
    ensures
        match r {
            Ok(res) => spec_process(input@) matches Ok(p) && res.value == p.0 && res.rpn@
                == p.1 && res.value.wf(),
            Err(e) => spec_process(input@) == Err::<(Rational, Seq<char>), SpecProcessError>(
                e@,
            ),
        },
{
    let toks = match lex(input) {
        Ok(t) => t,
        Err(e) => {
            return Err(ProcessError::Lex(e));
        },
    };
    let rpn = match convert(toks) {
        Ok(r) => r,
        Err(e) => {
            return Err(ProcessError::Convert(e));
        },
    };
    proof {
        crate::laws::lemma_pipeline_rpn_ok(input@);
    }
    let rendered = render_tokens(&rpn);
    let value = match evaluate(&rpn) {
        Ok(v) => v,
        Err(e) => {
            return Err(ProcessError::Eval(e));
        },
    };
    Ok(EvaluationResult { value, rpn: rendered })
}

} // verus!

//! The RPN evaluator: reduces a token sequence in Reverse Polish Notation
//! to a single rational result over an explicit value stack.
//!
//! A number is pushed; a binary operator pops its right operand first, then
//! its left one; a unary operator pops one value; a function pops as many
//! arguments as its registered arity. Too few values is
//! `InsufficientOperands`, an unregistered function name is
//! `UnknownFunction`, and an arithmetic failure surfaces as `DomainError`.
//! After the last token the stack must hold exactly one value, else the
//! expression was malformed. The registered functions are `max` and `min`
//! (arity 2) and `abs` (arity 1).

use vstd::prelude::*;

use crate::containers::Stack;
use crate::rational::{
    spec_add, spec_div, spec_mul, spec_neg, spec_pow, spec_sub, add_rat, div_rat, mul_rat,
    neg_rat, pow_rat, sub_rat, DomainDetail,
};
use crate::token::{
    mul_i64, seq_view, wf_token, wf_tokens, Arity, OpKind, Rational, SpecToken, Token,
};

verus! {

/// An evaluation failure.
#[derive(Debug, PartialEq)]
pub enum EvalError {
    /// An operator or function was applied with too few values on the stack.
    InsufficientOperands,
    /// A function token names something not in the function table.
    UnknownFunction { name: Vec<char> },
    /// An arithmetic operation was undefined for its inputs.
    DomainError { detail: DomainDetail },
    /// The value stack did not hold exactly one value at the end.
    MalformedExpression,
}

/// The mathematical model of an evaluation failure, with the function name
/// abstracted to a character sequence.
pub enum SpecEvalError {
    InsufficientOperands,
    UnknownFunction { name: Seq<char> },
    DomainError { detail: DomainDetail },
    MalformedExpression,
}

impl View for EvalError {
    type V = SpecEvalError;

    open spec fn view(&self) -> SpecEvalError {
        match self {
            EvalError::InsufficientOperands => SpecEvalError::InsufficientOperands,
            EvalError::UnknownFunction { name } => SpecEvalError::UnknownFunction {
                name: name@,
            },
            EvalError::DomainError { detail } => SpecEvalError::DomainError {
                detail: *detail,
            },
            EvalError::MalformedExpression => SpecEvalError::MalformedExpression,
        }
    }
}

/// Maps a domain failure into an evaluation failure.
pub open spec fn lift_domain(r: Result<Rational, DomainDetail>) -> Result<
    Rational,
    SpecEvalError,
> {
    match r {
        Ok(v) => Ok(v),
        Err(d) => Err(SpecEvalError::DomainError { detail: d }),
    }
}

/// The fixed function table: the arity of each registered function name.
pub open spec fn spec_func_arity(name: Seq<char>) -> Option<nat> {
    if name == seq!['m', 'a', 'x'] {
        Some(2nat)
    } else if name == seq!['m', 'i', 'n'] {
        Some(2nat)
    } else if name == seq!['a', 'b', 's'] {
        Some(1nat)
    } else {
        None
    }
}

/// The larger of two rationals, by cross-multiplication.
pub open spec fn spec_rat_max(a: Rational, b: Rational) -> Rational {
    if a.num * b.den >= b.num * a.den {
        a
    } else {
        b
    }
}

/// The smaller of two rationals, by cross-multiplication.
pub open spec fn spec_rat_min(a: Rational, b: Rational) -> Rational {
    if a.num * b.den <= b.num * a.den {
        a
    } else {
        b
    }
}

/// What a registered function returns on its argument list (oldest first).
pub open spec fn spec_apply_func(name: Seq<char>, args: Seq<Rational>) -> Result<
    Rational,
    SpecEvalError,
> {
    if name == seq!['m', 'a', 'x'] {
        Ok(spec_rat_max(args[0], args[1]))
    } else if name == seq!['m', 'i', 'n'] {
        Ok(spec_rat_min(args[0], args[1]))
    } else if name == seq!['a', 'b', 's'] {
        if args[0].num >= 0 {
            Ok(args[0])
        } else {
            lift_domain(spec_neg(args[0]))
        }
    } else {
        Err(SpecEvalError::UnknownFunction { name })
    }
}

/// What a binary operator returns on its operands `a` (left) and `b`
/// (right); a unary operation kind under a binary arity is malformed.
pub open spec fn spec_apply_binary(kind: OpKind, a: Rational, b: Rational) -> Result<
    Rational,
    SpecEvalError,
> {
    match kind {
        OpKind::Add => lift_domain(spec_add(a, b)),
        OpKind::Sub => lift_domain(spec_sub(a, b)),
        OpKind::Mul => lift_domain(spec_mul(a, b)),
        OpKind::Div => lift_domain(spec_div(a, b)),
        OpKind::Pow => lift_domain(spec_pow(a, b)),
        OpKind::Neg => Err(SpecEvalError::MalformedExpression),
        OpKind::Pos => Err(SpecEvalError::MalformedExpression),
    }
}

/// What a unary operator returns on its operand; a binary operation kind
/// under a unary arity is malformed.
pub open spec fn spec_apply_unary(kind: OpKind, a: Rational) -> Result<Rational, SpecEvalError> {
    match kind {
        OpKind::Neg => lift_domain(spec_neg(a)),
        OpKind::Pos => Ok(a),
        _ => Err(SpecEvalError::MalformedExpression),
    }
}

/// The evaluator's outcome from position `i` on, given the value stack
/// built so far. A parenthesis or argument separator in RPN input is
/// malformed.
pub open spec fn spec_eval_from(toks: Seq<SpecToken>, i: nat, vals: Seq<Rational>) -> Result<
    Rational,
    SpecEvalError,
>
    decreases toks.len() - i,
{
    if i >= toks.len() {
        if vals.len() == 1 {
            Ok(vals[0])
        } else {
            Err(SpecEvalError::MalformedExpression)
        }
    } else {
        match toks[i as int] {
            SpecToken::Number(v) => spec_eval_from(toks, i + 1, vals.push(v)),
            SpecToken::Operator(op) => match op.arity {
                Arity::Binary => if vals.len() < 2 {
                    Err(SpecEvalError::InsufficientOperands)
                } else {
                    match spec_apply_binary(
                        op.kind,
                        vals[vals.len() - 2],
                        vals[vals.len() - 1],
                    ) {
                        Ok(v) => spec_eval_from(
                            toks,
                            i + 1,
                            vals.drop_last().drop_last().push(v),
                        ),
                        Err(e) => Err(e),
                    }
                },
                Arity::Unary => if vals.len() < 1 {
                    Err(SpecEvalError::InsufficientOperands)
                } else {
                    match spec_apply_unary(op.kind, vals.last()) {
                        Ok(v) => spec_eval_from(toks, i + 1, vals.drop_last().push(v)),
                        Err(e) => Err(e),
                    }
                },
            },
            SpecToken::Function(name) => match spec_func_arity(name) {
                None => Err(SpecEvalError::UnknownFunction { name }),
                Some(k) => if vals.len() < k {
                    Err(SpecEvalError::InsufficientOperands)
                } else {
                    match spec_apply_func(name, vals.subrange(vals.len() - k, vals.len() as int)) {
                        Ok(v) => spec_eval_from(
                            toks,
                            i + 1,
                            vals.subrange(0, vals.len() - k).push(v),
                        ),
                        Err(e) => Err(e),
                    }
                },
            },
            _ => Err(SpecEvalError::MalformedExpression),
        }
    }
}

/// The value of an RPN token sequence, or the first evaluation error.
pub open spec fn spec_evaluate(toks: Seq<SpecToken>) -> Result<Rational, SpecEvalError> {
    spec_eval_from(toks, 0, Seq::empty())
}

/// All values on the stack are well-formed.
pub open spec fn wf_vals(vals: Seq<Rational>) -> bool {
    forall|i: int| 0 <= i < vals.len() ==> (#[trigger] vals[i]).wf()
}

/// Copies a function name character by character.
fn copy_name(name: &Vec<char>) -> (r: Vec<char>)
    ensures
        r@ == name@,
{
    let mut r: Vec<char> = Vec::new();
    let mut i: usize = 0;
    while i < name.len()
        invariant
            i <= name@.len(),
            r@ == name@.subrange(0, i as int),
        decreases name@.len() - i,
    {
        r.push(name[i]);
        proof {
            assert(r@ =~= name@.subrange(0, i + 1 as int));
        }
        i = i + 1;
    }
    proof {
        assert(r@ =~= name@);
    }
    r
}

/// Looks a function name up in the fixed function table and returns its
/// arity, exactly as [`spec_func_arity`] describes.
pub fn func_arity(name: &Vec<char>) -> (r: Option<usize>)
    ensures
        match r {
            Some(k) => spec_func_arity(name@) == Some(k as nat),
            None => spec_func_arity(name@) is None,
        },
{
    if name.len() == 3 {
        let c0 = name[0];
        let c1 = name[1];
        let c2 = name[2];
        if c0 == 'm' && c1 == 'a' && c2 == 'x' {
            proof {
                assert(name@ =~= seq!['m', 'a', 'x']);
            }
            Some(2)
        } else if c0 == 'm' && c1 == 'i' && c2 == 'n' {
            proof {
                assert(name@ =~= seq!['m', 'i', 'n']);
            }
            Some(2)
        } else if c0 == 'a' && c1 == 'b' && c2 == 's' {
            proof {
                assert(name@ =~= seq!['a', 'b', 's']);
            }
            Some(1)
        } else {
            None
        }
    } else {
        None
    }
}

/// Applies a registered binary function to its two arguments, exactly as
/// [`spec_apply_func`] describes.
fn apply_func_2(name: &Vec<char>, a: Rational, b: Rational) -> (r: Result<Rational, EvalError>)
    requires
        a.wf(),
        b.wf(),
        spec_func_arity(name@) == Some(2nat),
    ensures
        match r {
            Ok(v) => spec_apply_func(name@, seq![a, b]) == Ok::<Rational, SpecEvalError>(v)
                && v.wf(),
            Err(e) => spec_apply_func(name@, seq![a, b]) == Err::<Rational, SpecEvalError>(e@),
        },
{
    let is_max = name[1] == 'a';
    if is_max {
        if mul_i64(a.num, b.den) >= mul_i64(b.num, a.den) {
            Ok(a)
        } else {
            Ok(b)
        }
    } else {
        if mul_i64(a.num, b.den) <= mul_i64(b.num, a.den) {
            Ok(a)
        } else {
            Ok(b)
        }
    }
}

/// Applies a registered unary function to its argument, exactly as
/// [`spec_apply_func`] describes.
fn apply_func_1(name: &Vec<char>, a: Rational) -> (r: Result<Rational, EvalError>)
    requires
        a.wf(),
        spec_func_arity(name@) == Some(1nat),
    ensures
        match r {
            Ok(v) => spec_apply_func(name@, seq![a]) == Ok::<Rational, SpecEvalError>(v)
                && v.wf(),
            Err(e) => spec_apply_func(name@, seq![a]) == Err::<Rational, SpecEvalError>(e@),
        },
{
    if a.num >= 0 {
        Ok(a)
    } else {
        match neg_rat(a) {
            Ok(v) => Ok(v),
            Err(d) => Err(EvalError::DomainError { detail: d }),
        }
    }
}

/// Applies a binary operator to its operands, exactly as
/// [`spec_apply_binary`] describes.
pub fn apply_binary(kind: OpKind, a: Rational, b: Rational) -> (r: Result<Rational, EvalError>)
    requires
        a.wf(),
        b.wf(),
    ensures
        match r {
            Ok(v) => spec_apply_binary(kind, a, b) == Ok::<Rational, SpecEvalError>(v)
                && v.wf(),
            Err(e) => spec_apply_binary(kind, a, b) == Err::<Rational, SpecEvalError>(e@),
        },
{
    let res: Result<Rational, DomainDetail> = match kind {
        OpKind::Add => add_rat(a, b),
        OpKind::Sub => sub_rat(a, b),
        OpKind::Mul => mul_rat(a, b),
        OpKind::Div => div_rat(a, b),
        OpKind::Pow => pow_rat(a, b),
        OpKind::Neg => {
            return Err(EvalError::MalformedExpression);
        },
        OpKind::Pos => {
            return Err(EvalError::MalformedExpression);
        },
    };
    match res {
        Ok(v) => Ok(v),
        Err(d) => Err(EvalError::DomainError { detail: d }),
    }
}

/// Applies a unary operator to its operand, exactly as [`spec_apply_unary`]
/// describes.
pub fn apply_unary(kind: OpKind, a: Rational) -> (r: Result<Rational, EvalError>)
    requires
        a.wf(),
    ensures
        match r {
            Ok(v) => spec_apply_unary(kind, a) == Ok::<Rational, SpecEvalError>(v) && v.wf(),
            Err(e) => spec_apply_unary(kind, a) == Err::<Rational, SpecEvalError>(e@),
        },
{
    match kind {
        OpKind::Neg => match neg_rat(a) {
            Ok(v) => Ok(v),
            Err(d) => Err(EvalError::DomainError { detail: d }),
        },
        OpKind::Pos => Ok(a),
        _ => Err(EvalError::MalformedExpression),
    }
}

/// Evaluates an RPN token sequence over an explicit value stack:
/// `evaluate(rpn)` succeeds with exactly the value `spec_evaluate`
/// describes, and fails with exactly its error.
pub fn evaluate(rpn: &Vec<Token>) -> (r: Result<Rational, EvalError>)
    requires
        wf_tokens(seq_view(rpn@)),
    ensures
        match r {
            Ok(v) => spec_evaluate(seq_view(rpn@)) == Ok::<Rational, SpecEvalError>(v)
                && v.wf(),
            Err(e) => spec_evaluate(seq_view(rpn@)) == Err::<Rational, SpecEvalError>(e@),
        },
{
    let ghost toks = seq_view(rpn@);
    let n = rpn.len();
    let mut vals: Stack<Rational> = Stack::new();
    let mut i: usize = 0;
    proof {
        assert(toks =~= seq_view(rpn@));
    }
    while i < n
        invariant
            toks == seq_view(rpn@),
            wf_tokens(toks),
            n == toks.len(),
            n == rpn@.len(),
            i <= n,
            wf_vals(vals@),
            spec_evaluate(toks) == spec_eval_from(toks, i as nat, vals@),
        decreases n - i,
    {
        let ghost vals0 = vals@;
        proof {
            assert(toks[i as int] == rpn@[i as int]@);
            assert(wf_token(toks[i as int]));
        }
        match &rpn[i] {
            Token::Number(v) => {
                vals.push(*v);
            },
            Token::Operator(op) => {
                let op = *op;
                match op.arity {
                    Arity::Binary => {
                        if vals.size() < 2 {
                            return Err(EvalError::InsufficientOperands);
                        }
                        let b = vals.pop().unwrap();
                        let a = vals.pop().unwrap();
                        match apply_binary(op.kind, a, b) {
                            Ok(v) => {
                                vals.push(v);
                                proof {
                                    assert(vals@ =~= vals0.drop_last().drop_last().push(v));
                                }
                            },
                            Err(e) => {
                                return Err(e);
                            },
                        }
                    },
                    Arity::Unary => {
                        if vals.size() < 1 {
                            return Err(EvalError::InsufficientOperands);
                        }
                        let a = vals.pop().unwrap();
                        match apply_unary(op.kind, a) {
                            Ok(v) => {
                                vals.push(v);
                                proof {
                                    assert(vals@ =~= vals0.drop_last().push(v));
                                }
                            },
                            Err(e) => {
                                return Err(e);
                            },
                        }
                    },
                }
            },
            Token::Function(name) => {
                match func_arity(name) {
                    None => {
                        let owned = copy_name(name);
                        return Err(EvalError::UnknownFunction { name: owned });
                    },
                    Some(k) => {
                        if vals.size() < k {
                            return Err(EvalError::InsufficientOperands);
                        }
                        if k == 2 {
                            let b = vals.pop().unwrap();
                            let a = vals.pop().unwrap();
                            proof {
                                assert(vals0.subrange(
                                    vals0.len() - 2,
                                    vals0.len() as int,
                                ) =~= seq![a, b]);
                            }
                            match apply_func_2(name, a, b) {
                                Ok(v) => {
                                    vals.push(v);
                                    proof {
                                        assert(vals@ =~= vals0.subrange(
                                            0,
                                            vals0.len() - 2,
                                        ).push(v));
                                    }
                                },
                                Err(e) => {
                                    return Err(e);
                                },
                            }
                        } else {
                            let a = vals.pop().unwrap();
                            proof {
                                assert(vals0.subrange(
                                    vals0.len() - 1,
                                    vals0.len() as int,
                                ) =~= seq![a]);
                            }
                            match apply_func_1(name, a) {
                                Ok(v) => {
                                    vals.push(v);
                                    proof {
                                        assert(vals@ =~= vals0.subrange(
                                            0,
                                            vals0.len() - 1,
                                        ).push(v));
                                    }
                                },
                                Err(e) => {
                                    return Err(e);
                                },
                            }
                        }
                    },
                }
            },
            Token::OpenParen => {
                return Err(EvalError::MalformedExpression);
            },
            Token::CloseParen => {
                return Err(EvalError::MalformedExpression);
            },
            Token::ArgSeparator => {
                return Err(EvalError::MalformedExpression);
            },
        }
        i = i + 1;
    }
    if vals.size() == 1 {
        let v = vals.pop().unwrap();
        Ok(v)
    } else {
        Err(EvalError::MalformedExpression)
    }
}

} // verus!

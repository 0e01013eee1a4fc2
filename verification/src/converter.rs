//! The shunting-yard converter: turns an infix token sequence into Reverse
//! Polish Notation.
//!
//! The converter keeps an operator stack and an append-only output queue and
//! processes one input token at a time. Numbers go straight to the output;
//! functions and open parentheses go on the stack; an operator first flushes
//! every stacked operator that binds at least as tightly (strictly tighter
//! for right-associative operators); a close parenthesis flushes down to the
//! matching open parenthesis and then moves a pending function name to the
//! output; an argument separator flushes down to the innermost open
//! parenthesis. At the end the remaining stack is drained; a leftover open
//! parenthesis means an unmatched `(`.

use vstd::prelude::*;

use crate::containers::{Queue, Stack};
use crate::token::{seq_view, Assoc, Operator, SpecToken, Token};

verus! {

/// A conversion failure.
#[derive(Copy, Clone, Debug, PartialEq, Eq, Structural)]
pub enum ConvertError {
    /// An argument separator found no open parenthesis beneath it: a comma
    /// or an open parenthesis is missing.
    MissingSeparatorOrParen,
    /// A close parenthesis without a matching open one, or an open
    /// parenthesis left unclosed at the end of the input.
    UnbalancedParenthesis,
}

/// Pops stack entries into the output until an open parenthesis is on top;
/// yields the new stack, the new output, and whether a parenthesis was found
/// (it stays on the stack).
pub open spec fn spec_pop_to_paren(stack: Seq<SpecToken>, out: Seq<SpecToken>) -> (
    Seq<SpecToken>,
    Seq<SpecToken>,
    bool,
)
    decreases stack.len(),
{
    if stack.len() == 0 {
        (stack, out, false)
    } else if stack.last() is OpenParen {
        (stack, out, true)
    } else {
        spec_pop_to_paren(stack.drop_last(), out.push(stack.last()))
    }
}

/// The shunting-yard comparison: a stacked operator is flushed before `op`
/// goes on the stack when it binds strictly tighter, or equally tight while
/// `op` is left-associative.
pub open spec fn spec_should_pop(top: SpecToken, op: Operator) -> bool {
    match top {
        SpecToken::Operator(t) => t.precedence > op.precedence || (t.precedence == op.precedence
            && op.assoc == Assoc::Left),
        _ => false,
    }
}

/// Flushes every stacked operator that [`spec_should_pop`] selects for `op`.
pub open spec fn spec_pop_ops(stack: Seq<SpecToken>, out: Seq<SpecToken>, op: Operator) -> (
    Seq<SpecToken>,
    Seq<SpecToken>,
)
    decreases stack.len(),
{
    if stack.len() > 0 && spec_should_pop(stack.last(), op) {
        spec_pop_ops(stack.drop_last(), out.push(stack.last()), op)
    } else {
        (stack, out)
    }
}

/// One step of the converter's state machine: the effect of one input token
/// on the operator stack and the output queue.
pub open spec fn spec_convert_step(t: SpecToken, stack: Seq<SpecToken>, out: Seq<SpecToken>) -> Result<
    (Seq<SpecToken>, Seq<SpecToken>),
    ConvertError,
> {
    match t {
        SpecToken::Number(_) => Ok((stack, out.push(t))),
        SpecToken::Function(_) => Ok((stack.push(t), out)),
        SpecToken::OpenParen => Ok((stack.push(t), out)),
        SpecToken::ArgSeparator => {
            let (s2, o2, found) = spec_pop_to_paren(stack, out);
            if found {
                Ok((s2, o2))
            } else {
                Err(ConvertError::MissingSeparatorOrParen)
            }
        },
        SpecToken::Operator(op) => {
            let (s2, o2) = spec_pop_ops(stack, out, op);
            Ok((s2.push(t), o2))
        },
        SpecToken::CloseParen => {
            let (s2, o2, found) = spec_pop_to_paren(stack, out);
            if !found {
                Err(ConvertError::UnbalancedParenthesis)
            } else {
                let s3 = s2.drop_last();
                if s3.len() > 0 && s3.last() is Function {
                    Ok((s3.drop_last(), o2.push(s3.last())))
                } else {
                    Ok((s3, o2))
                }
            }
        },
    }
}

/// Drains the stack into the output once the input is consumed; a leftover
/// open parenthesis fails with `UnbalancedParenthesis`.
pub open spec fn spec_drain(stack: Seq<SpecToken>, out: Seq<SpecToken>) -> Result<
    Seq<SpecToken>,
    ConvertError,
>
    decreases stack.len(),
{
    if stack.len() == 0 {
        Ok(out)
    } else if stack.last() is OpenParen {
        Err(ConvertError::UnbalancedParenthesis)
    } else {
        spec_drain(stack.drop_last(), out.push(stack.last()))
    }
}

/// The converter's outcome from position `i` on, given the stack and output
/// built so far.
pub open spec fn spec_convert_from(
    toks: Seq<SpecToken>,
    i: nat,
    stack: Seq<SpecToken>,
    out: Seq<SpecToken>,
) -> Result<Seq<SpecToken>, ConvertError>
    decreases toks.len() - i,
{
    if i >= toks.len() {
        spec_drain(stack, out)
    } else {
        match spec_convert_step(toks[i as int], stack, out) {
            Ok((s2, o2)) => spec_convert_from(toks, i + 1, s2, o2),
            Err(e) => Err(e),
        }
    }
}

/// The RPN form of an infix token sequence, or the first conversion error.
pub open spec fn spec_convert(toks: Seq<SpecToken>) -> Result<Seq<SpecToken>, ConvertError> {
    spec_convert_from(toks, 0, Seq::empty(), Seq::empty())
}

/// Applies the effect of one input token to the operator stack and the
/// output queue, exactly as [`spec_convert_step`] describes; on an error the
/// two containers are left in an unspecified state and the caller discards
/// them.
pub fn convert_step(t: Token, stack: &mut Stack<Token>, out: &mut Queue<Token>) -> (r: Result<
    (),
    ConvertError,
>)
    ensures
        match spec_convert_step(t@, seq_view(old(stack)@), seq_view(old(out)@)) {
            Ok((s2, o2)) => r is Ok && seq_view(final(stack)@) == s2 && seq_view(final(out)@)
                == o2,
            Err(e) => r == Err::<(), ConvertError>(e),
        },
{
    let ghost s0 = seq_view(stack@);
    let ghost o0 = seq_view(out@);
    match t {
        Token::Number(_) => {
            proof {
                assert(seq_view(out@.push(t)) =~= o0.push(t@));
            }
            out.enqueue(t);
            Ok(())
        },
        Token::Function(_) => {
            proof {
                assert(seq_view(stack@.push(t)) =~= s0.push(t@));
            }
            stack.push(t);
            Ok(())
        },
        Token::OpenParen => {
            proof {
                assert(seq_view(stack@.push(t)) =~= s0.push(t@));
            }
            stack.push(t);
            Ok(())
        },
        Token::ArgSeparator => {
            let found = flush_to_paren(stack, out);
            if found {
                Ok(())
            } else {
                Err(ConvertError::MissingSeparatorOrParen)
            }
        },
        Token::Operator(op) => {
            loop
                invariant
                    spec_pop_ops(s0, o0, op) == spec_pop_ops(
                        seq_view(stack@),
                        seq_view(out@),
                        op,
                    ),
                ensures
                    spec_pop_ops(s0, o0, op) == (seq_view(stack@), seq_view(out@)),
                decreases stack@.len(),
            {
                let do_pop: bool = match stack.peek() {
                    Some(top) => match top {
                        Token::Operator(t_op) => t_op.precedence > op.precedence
                            || (t_op.precedence == op.precedence && matches!(
                            op.assoc,
                            Assoc::Left
                        )),
                        _ => false,
                    },
                    None => false,
                };
                if do_pop {
                    let ghost prev = seq_view(stack@);
                    let ghost prev_o = seq_view(out@);
                    let popped = stack.pop().unwrap();
                    proof {
                        assert(prev.last() == popped@);
                        assert(spec_should_pop(prev.last(), op));
                        assert(seq_view(stack@) =~= prev.drop_last());
                        assert(seq_view(out@.push(popped)) =~= prev_o.push(popped@));
                    }
                    out.enqueue(popped);
                } else {
                    break ;
                }
            }
            let tok = Token::Operator(op);
            proof {
                assert(seq_view(stack@.push(tok)) =~= seq_view(stack@).push(tok@));
            }
            stack.push(tok);
            Ok(())
        },
        Token::CloseParen => {
            let found = flush_to_paren(stack, out);
            if !found {
                return Err(ConvertError::UnbalancedParenthesis);
            }
            let ghost s2 = seq_view(stack@);
            let _ = stack.pop();
            proof {
                assert(seq_view(stack@) =~= s2.drop_last());
            }
            let is_fun: bool = match stack.peek() {
                Some(top) => matches!(top, Token::Function(_)),
                None => false,
            };
            if is_fun {
                let ghost s3 = seq_view(stack@);
                let f = stack.pop().unwrap();
                proof {
                    assert(seq_view(stack@) =~= s3.drop_last());
                    assert(s3.last() == f@);
                }
                out.enqueue(f);
            }
            Ok(())
        },
    }
}

/// Pops stack entries into the output until an open parenthesis is on top
/// (which stays), exactly as [`spec_pop_to_paren`] describes; the result
/// says whether one was found.
fn flush_to_paren(stack: &mut Stack<Token>, out: &mut Queue<Token>) -> (found: bool)
    ensures
        spec_pop_to_paren(seq_view(old(stack)@), seq_view(old(out)@)) == (
            seq_view(final(stack)@),
            seq_view(final(out)@),
            found,
        ),
        found == (final(stack)@.len() > 0),
        found ==> final(stack)@.last()@ is OpenParen,
{
    let ghost s0 = seq_view(stack@);
    let ghost o0 = seq_view(out@);
    loop
        invariant
            spec_pop_to_paren(s0, o0) == spec_pop_to_paren(seq_view(stack@), seq_view(out@)),
        ensures
            spec_pop_to_paren(s0, o0) == (
                seq_view(stack@),
                seq_view(out@),
                stack@.len() > 0,
            ),
            stack@.len() > 0 ==> seq_view(stack@).last() is OpenParen,
        decreases stack@.len(),
    {
        let stop: bool = match stack.peek() {
            Some(top) => matches!(top, Token::OpenParen),
            None => true,
        };
        if stop {
            break ;
        }
        let ghost prev = seq_view(stack@);
        let ghost prev_o = seq_view(out@);
        let popped = stack.pop().unwrap();
        proof {
            assert(prev.last() == popped@);
            assert(!(popped@ is OpenParen));
            assert(seq_view(stack@) =~= prev.drop_last());
            assert(seq_view(out@.push(popped)) =~= prev_o.push(popped@));
        }
        out.enqueue(popped);
    }
    !stack.is_empty()
}

/// Converts an infix token sequence to Reverse Polish Notation with the
/// shunting-yard algorithm: `convert(ts)` succeeds with exactly the sequence
/// `spec_convert` describes, and fails with exactly its error.
pub fn convert(tokens: Vec<Token>) -> (r: Result<Vec<Token>, ConvertError>)
    ensures
        match r {
            Ok(rpn) => spec_convert(seq_view(tokens@)) == Ok::<Seq<SpecToken>, ConvertError>(
                seq_view(rpn@),
            ),
            Err(e) => spec_convert(seq_view(tokens@)) == Err::<Seq<SpecToken>, ConvertError>(e),
        },
{
    let ghost toks = seq_view(tokens@);
    let mut input = tokens;
    let mut stack: Stack<Token> = Stack::new();
    let mut out: Queue<Token> = Queue::new();
    let ghost n = toks.len();
    let ghost mut i: nat = 0;
    proof {
        assert(seq_view(stack@) =~= Seq::<SpecToken>::empty());
        assert(seq_view(out@) =~= Seq::<SpecToken>::empty());
    }
    let mut err: Option<ConvertError> = None;
    while input.len() > 0
        invariant_except_break
            err is None,
            i + input@.len() == n,
            seq_view(input@) == toks.subrange(i as int, n as int),
            spec_convert(toks) == spec_convert_from(
                toks,
                i,
                seq_view(stack@),
                seq_view(out@),
            ),
        invariant
            n == toks.len(),
        ensures
            match err {
                Some(e) => spec_convert(toks) == Err::<Seq<SpecToken>, ConvertError>(e),
                None => spec_convert(toks) == spec_convert_from(
                    toks,
                    n,
                    seq_view(stack@),
                    seq_view(out@),
                ),
            },
        decreases input@.len(),
    {
        let ghost pre = input@;
        let t = input.remove(0);
        proof {
            assert(t == pre[0]);
            assert(seq_view(pre)[0] == t@);
            assert(t@ == toks[i as int]);
            assert(input@ =~= pre.drop_first());
            assert(seq_view(input@) =~= seq_view(pre).drop_first());
            assert(seq_view(pre).drop_first() =~= toks.subrange(i + 1 as int, n as int));
        }
        let ghost sv = seq_view(stack@);
        let ghost ov = seq_view(out@);
        match convert_step(t, &mut stack, &mut out) {
            Ok(_) => {},
            Err(e) => {
                proof {
                    assert(spec_convert_step(toks[i as int], sv, ov) == Err::<
                        (Seq<SpecToken>, Seq<SpecToken>),
                        ConvertError,
                    >(e));
                    assert(spec_convert_from(toks, i, sv, ov) == Err::<
                        Seq<SpecToken>,
                        ConvertError,
                    >(e));
                }
                err = Some(e);
                break ;
            },
        }
        proof {
            i = i + 1;
        }
    }
    match err {
        Some(e) => {
            return Err(e);
        },
        None => {},
    }
    loop
        invariant
            spec_convert(toks) == spec_drain(seq_view(stack@), seq_view(out@)),
        ensures
            spec_convert(toks) == spec_drain(seq_view(stack@), seq_view(out@)),
            seq_view(stack@).len() == 0 || seq_view(stack@).last() is OpenParen,
        decreases stack@.len(),
    {
        let stop: bool = match stack.peek() {
            Some(top) => matches!(top, Token::OpenParen),
            None => true,
        };
        if stop {
            break ;
        }
        let ghost prev = seq_view(stack@);
        let ghost prev_o = seq_view(out@);
        let popped = stack.pop().unwrap();
        proof {
            assert(prev.last() == popped@);
            assert(!(popped@ is OpenParen));
            assert(seq_view(stack@) =~= prev.drop_last());
            assert(seq_view(out@.push(popped)) =~= prev_o.push(popped@));
        }
        out.enqueue(popped);
    }
    if !stack.is_empty() {
        return Err(ConvertError::UnbalancedParenthesis);
    }
    Ok(out.queue)
}

} // verus!

//! Rendering a token sequence back to text, for display of the
//! intermediate RPN form: tokens are separated by single spaces, a number
//! prints its numerator (and, when the denominator is not one, a `/` and
//! the denominator), an operator prints its symbol, and a function prints
//! its name.

use vstd::prelude::*;

use crate::token::{seq_view, SpecToken, Token};

verus! {

/// The character of one decimal digit value.
pub open spec fn digit_char(d: int) -> char {
    (48 + d) as char
}

/// The decimal digits of `n`, most significant first, in front of `acc`.
pub open spec fn spec_digits_acc(n: nat, acc: Seq<char>) -> Seq<char>
    decreases n,
{
    if n < 10 {
        seq![digit_char(n as int)] + acc
    } else {
        spec_digits_acc(n / 10, seq![digit_char((n % 10) as int)] + acc)
    }
}

/// The decimal digits of `n`, most significant first.
pub open spec fn spec_digits(n: nat) -> Seq<char> {
    spec_digits_acc(n, Seq::empty())
}

/// A signed integer in decimal notation.
pub open spec fn spec_render_int(n: int) -> Seq<char> {
    if n < 0 {
        seq!['-'] + spec_digits((-n) as nat)
    } else {
        spec_digits(n as nat)
    }
}

/// The text of one token.
pub open spec fn spec_render_token(t: SpecToken) -> Seq<char> {
    match t {
        SpecToken::Number(r) => if r.den == 1 {
            spec_render_int(r.num as int)
        } else {
            spec_render_int(r.num as int) + seq!['/'] + spec_render_int(r.den as int)
        },
        SpecToken::Operator(op) => seq![op.symbol],
        SpecToken::OpenParen => seq!['('],
        SpecToken::CloseParen => seq![')'],
        SpecToken::ArgSeparator => seq![','],
        SpecToken::Function(name) => name,
    }
}

/// The text of the tokens from position `i` on, space-separated.
pub open spec fn spec_render_from(ts: Seq<SpecToken>, i: nat) -> Seq<char>
    decreases ts.len() - i,
{
    if i >= ts.len() {
        Seq::empty()
    } else if i == ts.len() - 1 {
        spec_render_token(ts[i as int])
    } else {
        spec_render_token(ts[i as int]) + seq![' '] + spec_render_from(ts, i + 1)
    }
}

/// The text of a whole token sequence, space-separated.
pub open spec fn spec_render(ts: Seq<SpecToken>) -> Seq<char> {
    spec_render_from(ts, 0)
}

/// Renders the decimal digits of an unsigned value.
fn render_u64(mag: u64) -> (r: Vec<char>)
    ensures
        r@ == spec_digits(mag as nat),
{
    let mut out: Vec<char> = Vec::new();
    let mut cur: u64 = mag;
    loop
        invariant_except_break
            spec_digits(mag as nat) == spec_digits_acc(cur as nat, out@),
        ensures
            out@ == spec_digits(mag as nat),
        decreases cur,
    {
        let d: u8 = (cur % 10) as u8;
        let c: char = (48 + d) as char;
        proof {
            assert(c == digit_char((cur % 10) as int));
            assert(seq![c] + out@ =~= out@.insert(0, c));
        }
        if cur < 10 {
            out.insert(0, c);
            break ;
        } else {
            out.insert(0, c);
            cur = cur / 10;
        }
    }
    out
}

/// Renders a signed integer in decimal notation.
fn render_i64(n: i64) -> (r: Vec<char>)
    ensures
        r@ == spec_render_int(n as int),
{
    if n >= 0 {
        render_u64(n as u64)
    } else {
        let magi: i128 = -(n as i128);
        let mag: u64 = magi as u64;
        proof {
            assert(mag as int == -(n as int));
        }
        let mut out: Vec<char> = Vec::new();
        out.push('-');
        let mut digits = render_u64(mag);
        let ghost dview = digits@;
        out.append(&mut digits);
        proof {
            assert(out@ =~= seq!['-'] + dview);
        }
        out
    }
}

/// Renders one token to text, exactly as [`spec_render_token`] describes.
fn render_token(t: &Token) -> (r: Vec<char>)
    ensures
        r@ == spec_render_token(t@),
{
    match t {
        Token::Number(v) => {
            let mut out = render_i64(v.num);
            if v.den != 1 {
                let ghost numview = out@;
                out.push('/');
                let mut den = render_i64(v.den);
                let ghost dview = den@;
                out.append(&mut den);
                proof {
                    assert(out@ =~= numview + seq!['/'] + dview);
                }
            }
            out
        },
        Token::Operator(op) => {
            let mut out: Vec<char> = Vec::new();
            out.push(op.symbol);
            proof {
                assert(out@ =~= seq![op.symbol]);
            }
            out
        },
        Token::OpenParen => {
            let mut out: Vec<char> = Vec::new();
            out.push('(');
            proof {
                assert(out@ =~= seq!['(']);
            }
            out
        },
        Token::CloseParen => {
            let mut out: Vec<char> = Vec::new();
            out.push(')');
            proof {
                assert(out@ =~= seq![')']);
            }
            out
        },
        Token::ArgSeparator => {
            let mut out: Vec<char> = Vec::new();
            out.push(',');
            proof {
                assert(out@ =~= seq![',']);
            }
            out
        },
        Token::Function(name) => {
            let mut out: Vec<char> = Vec::new();
            let mut i: usize = 0;
            while i < name.len()
                invariant
                    i <= name@.len(),
                    out@ == name@.subrange(0, i as int),
                decreases name@.len() - i,
            {
                out.push(name[i]);
                proof {
                    assert(out@ =~= name@.subrange(0, i + 1 as int));
                }
                i = i + 1;
            }
            proof {
                assert(out@ =~= name@);
            }
            out
        },
    }
}

/// Renders a token sequence to space-separated text, exactly as
/// [`spec_render`] describes.
pub fn render_tokens(tokens: &Vec<Token>) -> (r: Vec<char>)
    ensures
        r@ == spec_render(seq_view(tokens@)),
{
    let ghost ts = seq_view(tokens@);
    let n = tokens.len();
    let mut out: Vec<char> = Vec::new();
    let mut i: usize = 0;
    proof {
        assert(Seq::<char>::empty() + spec_render_from(ts, 0) =~= spec_render_from(ts, 0));
    }
    while i < n
        invariant
            ts == seq_view(tokens@),
            n == ts.len(),
            n == tokens@.len(),
            i <= n,
            spec_render(ts) == out@ + spec_render_from(ts, i as nat),
        decreases n - i,
    {
        let mut tok = render_token(&tokens[i]);
        let ghost tview = tok@;
        proof {
            assert(tview == spec_render_token(ts[i as int]));
        }
        let ghost out0 = out@;
        out.append(&mut tok);
        if i + 1 < n {
            out.push(' ');
            proof {
                assert(spec_render_from(ts, i as nat) == spec_render_token(ts[i as int])
                    + seq![' '] + spec_render_from(ts, (i + 1) as nat));
                assert(out@ + spec_render_from(ts, (i + 1) as nat) =~= out0
                    + spec_render_from(ts, i as nat));
            }
        } else {
            proof {
                assert(spec_render_from(ts, i as nat) == spec_render_token(ts[i as int]));
                assert(out@ + spec_render_from(ts, (i + 1) as nat) =~= out0
                    + spec_render_from(ts, i as nat));
            }
        }
        i = i + 1;
    }
    proof {
        assert(out@ + spec_render_from(ts, i as nat) =~= out@);
    }
    out
}

} // verus!

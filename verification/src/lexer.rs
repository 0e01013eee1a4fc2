//! The lexer: turns a character sequence into a token sequence.
//!
//! Whitespace is skipped and never emitted. A maximal run of digits with at
//! most one decimal point becomes one `Number` token (an exact rational with
//! a power-of-ten denominator); the run stops at the first character that
//! cannot extend it. A maximal run of letters becomes one `Function` token
//! carrying the full name. Each of `+ - * / ^ ( ) ,` maps to its token via
//! the fixed operator table, with `+` and `-` read as unary at the start of
//! the expression and right after `(`, `,` or another operator. Any other
//! character fails immediately with its 1-based position. A literal whose
//! numerator or denominator does not fit in an `i64` is a machine limit and
//! is reported as `NumberTooLarge` at the position where the literal starts.

use vstd::prelude::*;

use crate::token::{
    seq_view, spec_symbol_token, symbol_to_token, Rational, SpecToken, Token,
};

verus! {

/// A lexing failure.
#[derive(Copy, Clone, Debug, PartialEq, Eq, Structural)]
pub enum LexError {
    /// The input holds a character outside the supported set; `position` is
    /// its 1-based character offset.
    UnrecognizedCharacter { ch: char, position: usize },
    /// A numeric literal does not fit the machine representation; `position`
    /// is the 1-based offset of the first character of the literal.
    NumberTooLarge { position: usize },
}

/// The whitespace characters the lexer skips.
pub open spec fn is_space_char(c: char) -> bool {
    c == ' ' || c == '\t' || c == '\n' || c == '\r'
}

/// Decimal digits.
pub open spec fn is_digit_char(c: char) -> bool {
    '0' as u32 <= c as u32 && c as u32 <= '9' as u32
}

/// The numeric value of a decimal digit.
pub open spec fn digit_val(c: char) -> int {
    c as u32 - '0' as u32
}

/// ASCII letters, the characters of a function name.
pub open spec fn is_alpha_char(c: char) -> bool {
    ('a' as u32 <= c as u32 && c as u32 <= 'z' as u32) || ('A' as u32 <= c as u32 && c as u32
        <= 'Z' as u32)
}

/// Accumulates the maximal numeric run of `s` starting at `i`, given the
/// numerator `m`, denominator `den` and decimal-point flag `seen` gathered so
/// far; yields the final numerator, denominator and the index just past the
/// run. One decimal point is allowed; each digit after it multiplies the
/// denominator by ten.
pub open spec fn spec_scan_number(s: Seq<char>, i: nat, m: int, den: int, seen: bool) -> (
    int,
    int,
    nat,
)
    decreases s.len() - i,
{
    if i < s.len() && is_digit_char(s[i as int]) {
        spec_scan_number(
            s,
            i + 1,
            m * 10 + digit_val(s[i as int]),
            if seen {
                den * 10
            } else {
                den
            },
            seen,
        )
    } else if i < s.len() && s[i as int] == '.' && !seen {
        spec_scan_number(s, i + 1, m, den, true)
    } else {
        (m, den, i)
    }
}

/// The numeric run never moves backwards and never passes the end of the
/// input, and its numerator and denominator never shrink.
pub proof fn lemma_scan_number_bounds(s: Seq<char>, i: nat, m: int, den: int, seen: bool)
    requires
        i <= s.len(),
        m >= 0,
        den >= 1,
    ensures
        i <= spec_scan_number(s, i, m, den, seen).2 <= s.len(),
        spec_scan_number(s, i, m, den, seen).0 >= m,
        spec_scan_number(s, i, m, den, seen).1 >= den,
    decreases s.len() - i,
{
    if i < s.len() && is_digit_char(s[i as int]) {
        lemma_scan_number_bounds(
            s,
            i + 1,
            m * 10 + digit_val(s[i as int]),
            if seen {
                den * 10
            } else {
                den
            },
            seen,
        );
    } else if i < s.len() && s[i as int] == '.' && !seen {
        lemma_scan_number_bounds(s, i + 1, m, den, true);
    }
}

/// The index just past the maximal run of letters of `s` starting at `i`.
pub open spec fn spec_scan_name(s: Seq<char>, i: nat) -> nat
    decreases s.len() - i,
{
    if i < s.len() && is_alpha_char(s[i as int]) {
        spec_scan_name(s, i + 1)
    } else {
        i
    }
}

/// The letter run never moves backwards and never passes the end.
pub proof fn lemma_scan_name_bounds(s: Seq<char>, i: nat)
    requires
        i <= s.len(),
    ensures
        i <= spec_scan_name(s, i) <= s.len(),
    decreases s.len() - i,
{
    if i < s.len() && is_alpha_char(s[i as int]) {
        lemma_scan_name_bounds(s, i + 1);
    }
}

/// Whether the token just emitted puts the next `+` or `-` in a unary
/// position: after an operator, an open parenthesis or an argument
/// separator (and, by convention, at the very start of the input).
pub open spec fn next_unary(t: SpecToken) -> bool {
    match t {
        SpecToken::Operator(_) => true,
        SpecToken::OpenParen => true,
        SpecToken::ArgSeparator => true,
        _ => false,
    }
}

/// Prepends already-emitted tokens to the outcome of lexing the rest.
pub open spec fn lex_prepend(acc: Seq<SpecToken>, r: Result<Seq<SpecToken>, LexError>) -> Result<
    Seq<SpecToken>,
    LexError,
> {
    match r {
        Ok(rest) => Ok(acc + rest),
        Err(e) => Err(e),
    }
}

/// The tokens of `s` from position `i` on, with `unary` saying whether a
/// leading `+` or `-` stands in a unary position.
pub open spec fn spec_lex_from(s: Seq<char>, i: nat, unary: bool) -> Result<
    Seq<SpecToken>,
    LexError,
>
    decreases s.len() - i,
    when i <= s.len()
    via spec_lex_from_decreases
{
    if i >= s.len() {
        Ok(Seq::empty())
    } else {
        let c = s[i as int];
        if is_space_char(c) {
            spec_lex_from(s, i + 1, unary)
        } else if is_digit_char(c) {
            let (m, den, j) = spec_scan_number(s, i, 0, 1, false);
            if m > i64::MAX as int || den > i64::MAX as int {
                Err(LexError::NumberTooLarge { position: (i + 1) as usize })
            } else {
                lex_prepend(
                    seq![SpecToken::Number(Rational { num: m as i64, den: den as i64 })],
                    spec_lex_from(s, j, false),
                )
            }
        } else if is_alpha_char(c) {
            let j = spec_scan_name(s, i);
            lex_prepend(
                seq![SpecToken::Function(s.subrange(i as int, j as int))],
                spec_lex_from(s, j, false),
            )
        } else {
            match spec_symbol_token(c, unary) {
                Some(t) => lex_prepend(seq![t], spec_lex_from(s, i + 1, next_unary(t))),
                None => Err(
                    LexError::UnrecognizedCharacter { ch: c, position: (i + 1) as usize },
                ),
            }
        }
    }
}

#[via_fn]
proof fn spec_lex_from_decreases(s: Seq<char>, i: nat, unary: bool) {
    if i < s.len() {
        let c = s[i as int];
        if is_digit_char(c) {
            lemma_scan_number_bounds(s, i + 1, digit_val(c), 1, false);
            assert(spec_scan_number(s, i, 0, 1, false) == spec_scan_number(
                s,
                i + 1,
                digit_val(c),
                1,
                false,
            ));
            assert(spec_scan_number(s, i, 0, 1, false).2 > i);
        } else if is_alpha_char(c) {
            lemma_scan_name_bounds(s, i + 1);
            assert(spec_scan_name(s, i) == spec_scan_name(s, i + 1));
            assert(spec_scan_name(s, i) > i);
        }
    }
}

/// The tokens of the whole input, or the first lexing error.
pub open spec fn spec_lex(s: Seq<char>) -> Result<Seq<SpecToken>, LexError> {
    spec_lex_from(s, 0, true)
}

/// Classifies a character as a decimal digit.
fn is_digit(c: char) -> (r: bool)
    ensures
        r == is_digit_char(c),
{
    let u = c as u32;
    '0' as u32 <= u && u <= '9' as u32
}

/// Classifies a character as an ASCII letter.
fn is_alpha(c: char) -> (r: bool)
    ensures
        r == is_alpha_char(c),
{
    let u = c as u32;
    ('a' as u32 <= u && u <= 'z' as u32) || ('A' as u32 <= u && u <= 'Z' as u32)
}

/// Classifies a character as whitespace.
fn is_space(c: char) -> (r: bool)
    ensures
        r == is_space_char(c),
{
    c == ' ' || c == '\t' || c == '\n' || c == '\r'
}

/// Turns a character sequence into the token sequence of its model, or the
/// first lexing error: `lex(s)` succeeds with exactly the tokens of
/// `spec_lex(s@)`, and fails with exactly its error.
pub fn lex(input: &Vec<char>) -> (r: Result<Vec<Token>, LexError>)
    ensures
        match r {
            Ok(toks) => spec_lex(input@) == Ok::<Seq<SpecToken>, LexError>(seq_view(toks@)),
            Err(e) => spec_lex(input@) == Err::<Seq<SpecToken>, LexError>(e),
        },
{
    let ghost s = input@;
    let n = input.len();
    let mut out: Vec<Token> = Vec::new();
    let mut i: usize = 0;
    let mut unary: bool = true;
    proof {
        assert(seq_view(out@) =~= Seq::<SpecToken>::empty());
        match spec_lex_from(s, 0, true) {
            Ok(rest) => {
                assert(Seq::<SpecToken>::empty() + rest =~= rest);
            },
            Err(_) => {},
        }
    }
    while i < n
        invariant
            s == input@,
            n == s.len(),
            i <= n,
            spec_lex(s) == lex_prepend(seq_view(out@), spec_lex_from(s, i as nat, unary)),
        decreases n - i,
    {
        let c = input[i];
        if is_space(c) {
            i = i + 1;
        } else if is_digit(c) {
            let ghost start = i as nat;
            let mut m: i64 = 0;
            let mut den: i64 = 1;
            let mut seen: bool = false;
            let mut j: usize = i;
            let mut too_large: bool = false;
            loop
                invariant
                    s == input@,
                    n == s.len(),
                    start <= j <= n,
                    m >= 0,
                    den >= 1,
                    !too_large ==> spec_scan_number(s, start, 0, 1, false) == spec_scan_number(
                        s,
                        j as nat,
                        m as int,
                        den as int,
                        seen,
                    ),
                    too_large ==> (spec_scan_number(s, start, 0, 1, false).0 > i64::MAX as int
                        || spec_scan_number(s, start, 0, 1, false).1 > i64::MAX as int),
                ensures
                    start <= j <= n,
                    m >= 0,
                    den >= 1,
                    !too_large ==> spec_scan_number(s, start, 0, 1, false) == (
                        m as int,
                        den as int,
                        j as nat,
                    ),
                    too_large ==> (spec_scan_number(s, start, 0, 1, false).0 > i64::MAX as int
                        || spec_scan_number(s, start, 0, 1, false).1 > i64::MAX as int),
                decreases n - j, 1int + if too_large { 0int } else { 1int },
            {
                if too_large {
                    break ;
                }
                if j < n {
                    let cj = input[j];
                    if is_digit(cj) {
                        let d: i64 = (cj as u32 as i64) - ('0' as u32 as i64);
                        let nm: i128 = (m as i128) * 10 + (d as i128);
                        let nden: i128 = if seen {
                            (den as i128) * 10
                        } else {
                            den as i128
                        };
                        proof {
                            lemma_scan_number_bounds(
                                s,
                                (j + 1) as nat,
                                m as int * 10 + digit_val(s[j as int]),
                                if seen {
                                    den as int * 10
                                } else {
                                    den as int
                                },
                                seen,
                            );
                        }
                        if nm > i64::MAX as i128 || nden > i64::MAX as i128 {
                            too_large = true;
                        } else {
                            m = nm as i64;
                            den = nden as i64;
                            j = j + 1;
                        }
                    } else if cj == '.' && !seen {
                        seen = true;
                        j = j + 1;
                    } else {
                        break ;
                    }
                } else {
                    break ;
                }
            }
            if too_large {
                let e = LexError::NumberTooLarge { position: i + 1 };
                proof {
                    assert(spec_lex_from(s, i as nat, unary) == Err::<
                        Seq<SpecToken>,
                        LexError,
                    >(e));
                }
                return Err(e);
            }
            proof {
                lemma_scan_number_bounds(s, start + 1, digit_val(s[start as int]), 1, false);
                assert(spec_scan_number(s, start, 0, 1, false) == spec_scan_number(
                    s,
                    start + 1,
                    digit_val(s[start as int]),
                    1,
                    false,
                ));
                assert(j > i);
            }
            let tok = Token::Number(Rational { num: m, den });
            let ghost rest = spec_lex_from(s, j as nat, false);
            proof {
                assert(spec_lex_from(s, i as nat, unary) == lex_prepend(
                    seq![SpecToken::Number(Rational { num: m, den })],
                    rest,
                ));
                assert(seq_view(out@.push(tok)) =~= seq_view(out@) + seq![tok@]);
                if rest is Ok {
                    assert((seq_view(out@) + seq![tok@]) + rest.unwrap() =~= seq_view(out@) + (
                    seq![tok@] + rest.unwrap()));
                }
            }
            out.push(tok);
            i = j;
            unary = false;
        } else if is_alpha(c) {
            let ghost start = i as nat;
            let mut name: Vec<char> = Vec::new();
            let mut j: usize = i;
            while j < n && is_alpha(input[j])
                invariant
                    s == input@,
                    n == s.len(),
                    start <= j <= n,
                    name@ =~= s.subrange(start as int, j as int),
                    spec_scan_name(s, start) == spec_scan_name(s, j as nat),
                decreases n - j,
            {
                name.push(input[j]);
                proof {
                    assert(name@ =~= s.subrange(start as int, j + 1 as int));
                }
                j = j + 1;
            }
            proof {
                assert(spec_scan_name(s, j as nat) == j as nat);
            }
            let ghost rest = spec_lex_from(s, j as nat, false);
            let tok = Token::Function(name);
            proof {
                assert(spec_lex_from(s, i as nat, unary) == lex_prepend(
                    seq![tok@],
                    rest,
                ));
                assert(seq_view(out@.push(tok)) =~= seq_view(out@) + seq![tok@]);
                if rest is Ok {
                    assert((seq_view(out@) + seq![tok@]) + rest.unwrap() =~= seq_view(out@) + (
                    seq![tok@] + rest.unwrap()));
                }
            }
            out.push(tok);
            i = j;
            unary = false;
        } else {
            match symbol_to_token(c, unary) {
                Some(tok) => {
                    let nu = match &tok {
                        Token::Operator(_) => true,
                        Token::OpenParen => true,
                        Token::ArgSeparator => true,
                        _ => false,
                    };
                    let ghost rest = spec_lex_from(s, (i + 1) as nat, next_unary(tok@));
                    proof {
                        assert(spec_lex_from(s, i as nat, unary) == lex_prepend(
                            seq![tok@],
                            rest,
                        ));
                        assert(seq_view(out@.push(tok)) =~= seq_view(out@) + seq![tok@]);
                        if rest is Ok {
                            assert((seq_view(out@) + seq![tok@]) + rest.unwrap() =~= seq_view(
                                out@,
                            ) + (seq![tok@] + rest.unwrap()));
                        }
                    }
                    out.push(tok);
                    unary = nu;
                    i = i + 1;
                },
                None => {
                    let e = LexError::UnrecognizedCharacter { ch: c, position: i + 1 };
                    return Err(e);
                },
            }
        }
    }
    proof {
        assert(spec_lex_from(s, i as nat, unary) == Ok::<Seq<SpecToken>, LexError>(
            Seq::empty(),
        ));
        assert(seq_view(out@) + Seq::<SpecToken>::empty() =~= seq_view(out@));
    }
    Ok(out)
}

} // verus!

//! The token model: exact rational numbers, self-describing operators and the
//! closed set of lexical categories, together with the fixed operator table.
//!
//! Every token carries all the metadata the converter and the evaluator need
//! (precedence, associativity, arity, the operation denoted), so nothing is
//! looked up elsewhere. Numbers are exact rationals `num / den` with
//! `den >= 1`; a decimal literal such as `2.5` becomes `25 / 10`.

use vstd::prelude::*;

verus! {

/// An exact rational number `num / den`. Well-formed values have `den >= 1`.
#[derive(Copy, Clone, Debug, PartialEq, Eq, Structural)]
pub struct Rational {
    pub num: i64,
    pub den: i64,
}

impl Rational {
    /// Well-formedness: the denominator is positive, so the sign of the value
    /// is the sign of the numerator.
    pub open spec fn wf(self) -> bool {
        self.den >= 1
    }

    /// The rational with integer value `n`.
    pub fn from_int(n: i64) -> (r: Self)
        ensures
            r == (Rational { num: n, den: 1 }),
            r.wf(),
    {
        Rational { num: n, den: 1 }
    }

    /// Mathematical equality of two rationals, by cross-multiplication.
    pub open spec fn spec_eq_value(self, other: Self) -> bool {
        self.num * other.den == other.num * self.den
    }

    /// Decides mathematical equality of two rationals.
    pub fn eq_value(&self, other: &Self) -> (r: bool)
        ensures
            r == self.spec_eq_value(*other),
    {
        mul_i64(self.num, other.den) == mul_i64(other.num, self.den)
    }
}

/// The exact product of two `i64` values, computed without overflow.
pub fn mul_i64(a: i64, b: i64) -> (r: i128)
    ensures
        r == a as int * b as int,
        -0x4000_0000_0000_0000_0000_0000_0000_0000 <= r
            <= 0x4000_0000_0000_0000_0000_0000_0000_0000,
{
    proof {
        assert((a as int) * (b as int) <= 0x4000_0000_0000_0000_0000_0000_0000_0000
            && (a as int) * (b as int) >= -0x4000_0000_0000_0000_0000_0000_0000_0000)
            by (nonlinear_arith)
            requires
                -0x8000_0000_0000_0000 <= a as int <= 0x7fff_ffff_ffff_ffff,
                -0x8000_0000_0000_0000 <= b as int <= 0x7fff_ffff_ffff_ffff,
        ;
    }
    a as i128 * b as i128
}

/// Whether repeated application of an equal-precedence operator groups
/// left-to-right or right-to-left.
#[derive(Copy, Clone, Debug, PartialEq, Eq, Structural)]
pub enum Assoc {
    Left,
    Right,
}

/// How many operands an operator consumes.
#[derive(Copy, Clone, Debug, PartialEq, Eq, Structural)]
pub enum Arity {
    Unary,
    Binary,
}

/// The arithmetic operation an operator token denotes.
#[derive(Copy, Clone, Debug, PartialEq, Eq, Structural)]
pub enum OpKind {
    /// Binary addition.
    Add,
    /// Binary subtraction.
    Sub,
    /// Binary multiplication.
    Mul,
    /// Binary (exact) division.
    Div,
    /// Binary exponentiation.
    Pow,
    /// Unary negation.
    Neg,
    /// Unary plus, a no-op on its operand.
    Pos,
}

/// A self-describing operator: its symbol, precedence, associativity, arity
/// and the operation it denotes.
#[derive(Copy, Clone, Debug, PartialEq, Eq, Structural)]
pub struct Operator {
    pub symbol: char,
    pub precedence: u8,
    pub assoc: Assoc,
    pub arity: Arity,
    pub kind: OpKind,
}

/// A lexical token of the expression language.
#[derive(Debug, PartialEq)]
pub enum Token {
    /// A numeric literal.
    Number(Rational),
    /// An operator with its full metadata.
    Operator(Operator),
    /// `(` — a structural marker, carries no data.
    OpenParen,
    /// `)` — a structural marker, carries no data.
    CloseParen,
    /// A named function awaiting an argument list, e.g. `max`.
    Function(Vec<char>),
    /// `,` — the separator between function arguments.
    ArgSeparator,
}

/// The mathematical model of a token: like [`Token`], with the function name
/// abstracted to a character sequence.
pub enum SpecToken {
    Number(Rational),
    Operator(Operator),
    OpenParen,
    CloseParen,
    Function(Seq<char>),
    ArgSeparator,
}

impl View for Token {
    type V = SpecToken;

    open spec fn view(&self) -> SpecToken {
        match self {
            Token::Number(r) => SpecToken::Number(*r),
            Token::Operator(op) => SpecToken::Operator(*op),
            Token::OpenParen => SpecToken::OpenParen,
            Token::CloseParen => SpecToken::CloseParen,
            Token::Function(name) => SpecToken::Function(name@),
            Token::ArgSeparator => SpecToken::ArgSeparator,
        }
    }
}

/// The model of a token sequence: each token replaced by its model.
pub open spec fn seq_view(ts: Seq<Token>) -> Seq<SpecToken> {
    ts.map_values(|t: Token| t@)
}

/// A token is well-formed when every number in it is a well-formed rational.
pub open spec fn wf_token(t: SpecToken) -> bool {
    match t {
        SpecToken::Number(r) => r.wf(),
        _ => true,
    }
}

/// All tokens of a sequence are well-formed.
pub open spec fn wf_tokens(ts: Seq<SpecToken>) -> bool {
    forall|i: int| 0 <= i < ts.len() ==> wf_token(#[trigger] ts[i])
}

/// The fixed operator table entry for symbol `c` in a binary position.
pub open spec fn spec_binary_op(c: char) -> Option<Operator> {
    if c == '+' {
        Some(
            Operator {
                symbol: '+',
                precedence: 1,
                assoc: Assoc::Left,
                arity: Arity::Binary,
                kind: OpKind::Add,
            },
        )
    } else if c == '-' {
        Some(
            Operator {
                symbol: '-',
                precedence: 1,
                assoc: Assoc::Left,
                arity: Arity::Binary,
                kind: OpKind::Sub,
            },
        )
    } else if c == '*' {
        Some(
            Operator {
                symbol: '*',
                precedence: 2,
                assoc: Assoc::Left,
                arity: Arity::Binary,
                kind: OpKind::Mul,
            },
        )
    } else if c == '/' {
        Some(
            Operator {
                symbol: '/',
                precedence: 2,
                assoc: Assoc::Left,
                arity: Arity::Binary,
                kind: OpKind::Div,
            },
        )
    } else if c == '^' {
        Some(
            Operator {
                symbol: '^',
                precedence: 3,
                assoc: Assoc::Right,
                arity: Arity::Binary,
                kind: OpKind::Pow,
            },
        )
    } else {
        None
    }
}

/// The fixed operator table entry for `+` or `-` in a unary position:
/// precedence 1, right-associative, applied to a single operand.
pub open spec fn spec_unary_op(c: char) -> Option<Operator> {
    if c == '+' {
        Some(
            Operator {
                symbol: '+',
                precedence: 1,
                assoc: Assoc::Right,
                arity: Arity::Unary,
                kind: OpKind::Pos,
            },
        )
    } else if c == '-' {
        Some(
            Operator {
                symbol: '-',
                precedence: 1,
                assoc: Assoc::Right,
                arity: Arity::Unary,
                kind: OpKind::Neg,
            },
        )
    } else {
        None
    }
}

/// The token for a single structural or operator symbol, if any. `unary`
/// says whether the symbol stands in a unary position (at the start of the
/// expression, or right after `(`, `,` or another operator), which decides
/// between the unary and the binary reading of `+` and `-`.
pub open spec fn spec_symbol_token(c: char, unary: bool) -> Option<SpecToken> {
    if c == '(' {
        Some(SpecToken::OpenParen)
    } else if c == ')' {
        Some(SpecToken::CloseParen)
    } else if c == ',' {
        Some(SpecToken::ArgSeparator)
    } else if unary && (c == '+' || c == '-') {
        match spec_unary_op(c) {
            Some(op) => Some(SpecToken::Operator(op)),
            None => None,
        }
    } else {
        match spec_binary_op(c) {
            Some(op) => Some(SpecToken::Operator(op)),
            None => None,
        }
    }
}

impl Operator {
    /// Builds the operator token for the table entry with the given metadata.
    pub fn new_token(
        symbol: char,
        precedence: u8,
        assoc: Assoc,
        arity: Arity,
        kind: OpKind,
    ) -> (r: Token)
        ensures
            r@ == SpecToken::Operator(
                Operator { symbol, precedence, assoc, arity, kind },
            ),
    {
        Token::Operator(Operator { symbol, precedence, assoc, arity, kind })
    }
}

/// Maps one structural or operator symbol to its token via the fixed
/// operator table; any other character is unrecognized and yields `None`.
pub fn symbol_to_token(c: char, unary: bool) -> (r: Option<Token>)
    ensures
        match r {
            Some(t) => spec_symbol_token(c, unary) == Some(t@),
            None => spec_symbol_token(c, unary) is None,
        },
{
    if c == '(' {
        Some(Token::OpenParen)
    } else if c == ')' {
        Some(Token::CloseParen)
    } else if c == ',' {
        Some(Token::ArgSeparator)
    } else if unary && c == '+' {
        Some(Operator::new_token('+', 1, Assoc::Right, Arity::Unary, OpKind::Pos))
    } else if unary && c == '-' {
        Some(Operator::new_token('-', 1, Assoc::Right, Arity::Unary, OpKind::Neg))
    } else if c == '+' {
        Some(Operator::new_token('+', 1, Assoc::Left, Arity::Binary, OpKind::Add))
    } else if c == '-' {
        Some(Operator::new_token('-', 1, Assoc::Left, Arity::Binary, OpKind::Sub))
    } else if c == '*' {
        Some(Operator::new_token('*', 2, Assoc::Left, Arity::Binary, OpKind::Mul))
    } else if c == '/' {
        Some(Operator::new_token('/', 2, Assoc::Left, Arity::Binary, OpKind::Div))
    } else if c == '^' {
        Some(Operator::new_token('^', 3, Assoc::Right, Arity::Binary, OpKind::Pow))
    } else {
        None
    }
}

} // verus!

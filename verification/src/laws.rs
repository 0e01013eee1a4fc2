//! Laws of the pipeline, proved once and for all inputs: the lexer is a
//! pure function of its input, the lexer only emits well-formed tokens, and
//! the converter's output is well-formed RPN made only of numbers,
//! operators and functions.

use vstd::prelude::*;

use crate::converter::{
    spec_convert, spec_convert_from, spec_convert_step, spec_drain, spec_pop_ops,
    spec_pop_to_paren, ConvertError,
};
use crate::evaluator::{spec_eval_from, spec_evaluate, SpecEvalError};
use crate::lexer::{
    digit_val, is_digit_char, spec_lex, spec_lex_from, spec_scan_number, LexError,
};
use crate::rational::pow_int;
use crate::render::{digit_char, spec_digits, spec_digits_acc, spec_render};
use crate::token::{wf_token, wf_tokens, Rational, SpecToken};

verus! {

/// Lexing is a pure function of the character sequence: two runs over equal
/// inputs yield equal token sequences (or equal errors). There is no hidden
/// state carried between calls; the executable lexer's contract ties every
/// call to `spec_lex`, so this holds of any two calls as well.
pub proof fn lemma_lex_deterministic(s1: Seq<char>, s2: Seq<char>)
    requires
        s1 == s2,
    ensures
        spec_lex(s1) == spec_lex(s2),
{
}

/// Every number token the lexer emits is well-formed: its denominator is a
/// positive power of ten.
pub proof fn lemma_lex_wf(s: Seq<char>, i: nat, unary: bool)
    requires
        i <= s.len(),
    ensures
        spec_lex_from(s, i, unary) matches Ok(ts) ==> wf_tokens(ts),
    decreases s.len() - i,
{
    if i >= s.len() {
    } else {
        let c = s[i as int];
        if crate::lexer::is_space_char(c) {
            lemma_lex_wf(s, i + 1, unary);
        } else if crate::lexer::is_digit_char(c) {
            let (m, den, j) = spec_scan_number(s, i, 0, 1, false);
            crate::lexer::lemma_scan_number_bounds(
                s,
                i + 1,
                crate::lexer::digit_val(c),
                1,
                false,
            );
            assert(spec_scan_number(s, i, 0, 1, false) == spec_scan_number(
                s,
                i + 1,
                crate::lexer::digit_val(c),
                1,
                false,
            ));
            if m > i64::MAX as int || den > i64::MAX as int {
            } else {
                lemma_lex_wf(s, j, false);
            }
        } else if crate::lexer::is_alpha_char(c) {
            let j = crate::lexer::spec_scan_name(s, i);
            crate::lexer::lemma_scan_name_bounds(s, i + 1);
            assert(crate::lexer::spec_scan_name(s, i) == crate::lexer::spec_scan_name(
                s,
                i + 1,
            ));
            lemma_lex_wf(s, j, false);
        } else {
            match crate::token::spec_symbol_token(c, unary) {
                Some(t) => {
                    lemma_lex_wf(s, i + 1, crate::lexer::next_unary(t));
                },
                None => {},
            }
        }
    }
}

/// What may sit on the converter's operator stack: operators, function
/// names and open parentheses, all well-formed.
pub open spec fn stack_ok(s: Seq<SpecToken>) -> bool {
    forall|i: int|
        0 <= i < s.len() ==> ((#[trigger] s[i]) is Operator || s[i] is Function
            || s[i] is OpenParen) && wf_token(s[i])
}

/// What may stand in the converter's output: numbers, operators and
/// function names, all well-formed — valid RPN material.
pub open spec fn rpn_ok(s: Seq<SpecToken>) -> bool {
    forall|i: int|
        0 <= i < s.len() ==> ((#[trigger] s[i]) is Number || s[i] is Operator
            || s[i] is Function) && wf_token(s[i])
}

proof fn lemma_pop_to_paren_ok(stack: Seq<SpecToken>, out: Seq<SpecToken>)
    requires
        stack_ok(stack),
        rpn_ok(out),
    ensures
        stack_ok(spec_pop_to_paren(stack, out).0),
        rpn_ok(spec_pop_to_paren(stack, out).1),
        spec_pop_to_paren(stack, out).2 ==> spec_pop_to_paren(stack, out).0.len() > 0
            && spec_pop_to_paren(stack, out).0.last() is OpenParen,
    decreases stack.len(),
{
    if stack.len() == 0 {
    } else if stack.last() is OpenParen {
    } else {
        assert(stack_ok(stack.drop_last()));
        assert(rpn_ok(out.push(stack.last())));
        lemma_pop_to_paren_ok(stack.drop_last(), out.push(stack.last()));
    }
}

proof fn lemma_pop_ops_ok(stack: Seq<SpecToken>, out: Seq<SpecToken>, op: crate::token::Operator)
    requires
        stack_ok(stack),
        rpn_ok(out),
    ensures
        stack_ok(spec_pop_ops(stack, out, op).0),
        rpn_ok(spec_pop_ops(stack, out, op).1),
    decreases stack.len(),
{
    if stack.len() > 0 && crate::converter::spec_should_pop(stack.last(), op) {
        assert(stack_ok(stack.drop_last()));
        assert(rpn_ok(out.push(stack.last())));
        lemma_pop_ops_ok(stack.drop_last(), out.push(stack.last()), op);
    }
}

proof fn lemma_drain_ok(stack: Seq<SpecToken>, out: Seq<SpecToken>)
    requires
        stack_ok(stack),
        rpn_ok(out),
    ensures
        spec_drain(stack, out) matches Ok(o) ==> rpn_ok(o),
    decreases stack.len(),
{
    if stack.len() == 0 {
    } else if stack.last() is OpenParen {
    } else {
        assert(stack_ok(stack.drop_last()));
        assert(rpn_ok(out.push(stack.last())));
        lemma_drain_ok(stack.drop_last(), out.push(stack.last()));
    }
}

proof fn lemma_step_ok(t: SpecToken, stack: Seq<SpecToken>, out: Seq<SpecToken>)
    requires
        wf_token(t),
        stack_ok(stack),
        rpn_ok(out),
    ensures
        spec_convert_step(t, stack, out) matches Ok((s2, o2)) ==> stack_ok(s2) && rpn_ok(o2),
{
    match t {
        SpecToken::Number(_) => {
            assert(rpn_ok(out.push(t)));
        },
        SpecToken::Function(_) => {
            assert(stack_ok(stack.push(t)));
        },
        SpecToken::OpenParen => {
            assert(stack_ok(stack.push(t)));
        },
        SpecToken::ArgSeparator => {
            lemma_pop_to_paren_ok(stack, out);
        },
        SpecToken::Operator(op) => {
            lemma_pop_ops_ok(stack, out, op);
            let (s2, o2) = spec_pop_ops(stack, out, op);
            assert(stack_ok(s2.push(t)));
        },
        SpecToken::CloseParen => {
            lemma_pop_to_paren_ok(stack, out);
            let (s2, o2, found) = spec_pop_to_paren(stack, out);
            if found {
                let s3 = s2.drop_last();
                assert(stack_ok(s3));
                if s3.len() > 0 && s3.last() is Function {
                    assert(stack_ok(s3.drop_last()));
                    assert(rpn_ok(o2.push(s3.last())));
                }
            }
        },
    }
}

proof fn lemma_convert_from_ok(
    toks: Seq<SpecToken>,
    i: nat,
    stack: Seq<SpecToken>,
    out: Seq<SpecToken>,
)
    requires
        wf_tokens(toks),
        stack_ok(stack),
        rpn_ok(out),
    ensures
        spec_convert_from(toks, i, stack, out) matches Ok(o) ==> rpn_ok(o),
    decreases toks.len() - i,
{
    if i >= toks.len() {
        lemma_drain_ok(stack, out);
    } else {
        lemma_step_ok(toks[i as int], stack, out);
        match spec_convert_step(toks[i as int], stack, out) {
            Ok((s2, o2)) => {
                lemma_convert_from_ok(toks, i + 1, s2, o2);
            },
            Err(_) => {},
        }
    }
}

/// The shunting-yard output is valid RPN material: when conversion of a
/// well-formed token sequence succeeds, the result holds only `Number`,
/// `Operator` and `Function` tokens — never a parenthesis or an argument
/// separator — and every number in it is well-formed.
pub proof fn lemma_convert_output_shape(toks: Seq<SpecToken>)
    requires
        wf_tokens(toks),
    ensures
        spec_convert(toks) matches Ok(o) ==> rpn_ok(o),
{
    assert(stack_ok(Seq::<SpecToken>::empty()));
    assert(rpn_ok(Seq::<SpecToken>::empty()));
    lemma_convert_from_ok(toks, 0, Seq::empty(), Seq::empty());
}

/// The digit text of `n` in front of `acc` is the digit text of `n`
/// followed by `acc`.
proof fn lemma_digits_acc_concat(n: nat, acc: Seq<char>)
    ensures
        spec_digits_acc(n, acc) == spec_digits(n) + acc,
    decreases n,
{
    if n < 10 {
        assert(spec_digits_acc(n, acc) =~= spec_digits(n) + acc);
    } else {
        lemma_digits_acc_concat(n / 10, seq![digit_char((n % 10) as int)] + acc);
        lemma_digits_acc_concat(n / 10, seq![digit_char((n % 10) as int)]);
        assert((spec_digits(n / 10) + seq![digit_char((n % 10) as int)]) + acc =~= spec_digits(
            n / 10,
        ) + (seq![digit_char((n % 10) as int)] + acc));
    }
}

/// Every character of a decimal digit text is a digit, and the text is
/// nonempty.
proof fn lemma_digits_are_digits(n: nat)
    ensures
        spec_digits(n).len() >= 1,
        forall|i: int|
            0 <= i < spec_digits(n).len() ==> is_digit_char(#[trigger] spec_digits(n)[i])
                && digit_val(spec_digits(n)[i]) < 10,
    decreases n,
{
    if n < 10 {
        assert(spec_digits(n) =~= seq![digit_char(n as int)]);
        assert(is_digit_char(digit_char(n as int)));
    } else {
        lemma_digits_are_digits(n / 10);
        lemma_digits_acc_concat(n / 10, seq![digit_char((n % 10) as int)]);
        assert(spec_digits(n) == spec_digits(n / 10) + seq![digit_char((n % 10) as int)]);
        assert(is_digit_char(digit_char((n % 10) as int)));
    }
}

/// Scanning the decimal digit text of `n` folds it back into the running
/// numerator: the scan moves past the text and multiplies the accumulator
/// by ten for each digit read.
proof fn lemma_scan_digits(s: Seq<char>, i: nat, m: int, n: nat)
    requires
        i + spec_digits(n).len() <= s.len(),
        s.subrange(i as int, (i + spec_digits(n).len()) as int) == spec_digits(n),
        m >= 0,
    ensures
        spec_scan_number(s, i, m, 1, false) == spec_scan_number(
            s,
            i + spec_digits(n).len(),
            m * pow_int(10, spec_digits(n).len()) + n,
            1,
            false,
        ),
    decreases n,
{
    lemma_digits_are_digits(n);
    if n < 10 {
        assert(spec_digits(n) =~= seq![digit_char(n as int)]);
        assert(spec_digits(n)[0] == digit_char(n as int));
        assert(s.subrange(i as int, (i + spec_digits(n).len()) as int)[0] == s[i as int]);
        assert(s[i as int] == digit_char(n as int));
        assert(is_digit_char(s[i as int]));
        assert(digit_val(s[i as int]) == n);
        assert(pow_int(10, 1) == 10 * pow_int(10, 0));
        assert(spec_scan_number(s, i, m, 1, false) == spec_scan_number(
            s,
            i + 1,
            m * 10 + n,
            1,
            false,
        ));
        assert(m * pow_int(10, 1) + n == m * 10 + n) by (nonlinear_arith)
            requires
                pow_int(10, 1) == 10,
        ;
    } else {
        lemma_digits_acc_concat(n / 10, seq![digit_char((n % 10) as int)]);
        assert(spec_digits(n) == spec_digits(n / 10) + seq![digit_char((n % 10) as int)]);
        let l0 = spec_digits(n / 10).len();
        let l = spec_digits(n).len();
        assert(l == l0 + 1);
        lemma_digits_are_digits(n / 10);
        assert(s.subrange(i as int, (i + l0) as int) =~= spec_digits(n / 10));
        lemma_scan_digits(s, i, m, n / 10);
        crate::rational::lemma_pow_pos(10, l0);
        let m1 = m * pow_int(10, l0) + n / 10;
        assert(spec_digits(n)[l0 as int] == digit_char((n % 10) as int));
        assert(s.subrange(i as int, (i + l) as int)[l0 as int] == s[(i + l0) as int]);
        assert(s[(i + l0) as int] == digit_char((n % 10) as int));
        assert(is_digit_char(s[(i + l0) as int]));
        assert(digit_val(s[(i + l0) as int]) == n % 10);
        let p10 = pow_int(10, l0);
        let q = (n / 10) as int;
        assert(m * p10 + q >= 0) by (nonlinear_arith)
            requires
                m >= 0,
                p10 >= 1,
                q >= 0,
        ;
        assert(m1 >= 0);
        assert(spec_scan_number(s, i + l0, m1, 1, false) == spec_scan_number(
            s,
            i + l0 + 1,
            m1 * 10 + n % 10,
            1,
            false,
        ));
        assert(pow_int(10, l) == 10 * pow_int(10, l0));
        assert(m1 * 10 + n % 10 == m * pow_int(10, l) + n) by (nonlinear_arith)
            requires
                m1 == m * pow_int(10, l0) + n / 10,
                pow_int(10, l) == 10 * pow_int(10, l0),
                n == 10 * (n / 10) + n % 10,
        ;
    }
}

/// A fragment of the round trip: the rendered text of a single nonnegative
/// integer RPN token, re-lexed, gives back exactly that token; re-converted
/// it stays that token; and re-evaluated it yields the same value. The
/// full round trip over arbitrary RPN sequences does not hold: re-lexing
/// can read a rendered `+` or `-` that follows another operator as unary,
/// and re-converting an already postfix sequence can regroup its operands.
pub proof fn lemma_round_trip_single_number(r: Rational)
    requires
        r.den == 1,
        r.num >= 0,
    ensures
        spec_lex(spec_render(seq![SpecToken::Number(r)])) == Ok::<Seq<SpecToken>, LexError>(
            seq![SpecToken::Number(r)],
        ),
        spec_convert(seq![SpecToken::Number(r)]) == Ok::<Seq<SpecToken>, ConvertError>(
            seq![SpecToken::Number(r)],
        ),
        spec_evaluate(seq![SpecToken::Number(r)]) == Ok::<Rational, SpecEvalError>(r),
{
    let t = SpecToken::Number(r);
    let n = r.num as nat;
    let s = spec_render(seq![t]);
    assert(s == spec_digits(n));
    lemma_digits_are_digits(n);
    assert(s.subrange(0, spec_digits(n).len() as int) =~= spec_digits(n));
    lemma_scan_digits(s, 0, 0, n);
    assert(0 * pow_int(10, spec_digits(n).len()) + n == n) by (nonlinear_arith);
    assert(spec_scan_number(s, 0, 0, 1, false) == spec_scan_number(
        s,
        spec_digits(n).len(),
        n as int,
        1,
        false,
    ));
    assert(spec_scan_number(s, spec_digits(n).len(), n as int, 1, false) == (
        n as int,
        1int,
        spec_digits(n).len(),
    ));
    assert(is_digit_char(s[0]));
    assert(spec_lex_from(s, spec_digits(n).len(), false) == Ok::<Seq<SpecToken>, LexError>(
        Seq::empty(),
    ));
    assert(spec_lex(s) == Ok::<Seq<SpecToken>, LexError>(seq![t] + Seq::empty()));
    assert(seq![t] + Seq::<SpecToken>::empty() =~= seq![t]);
    let stack0 = Seq::<SpecToken>::empty();
    let out0 = Seq::<SpecToken>::empty();
    assert(seq![t][0] == t);
    assert(spec_convert_step(t, stack0, out0) == Ok::<
        (Seq<SpecToken>, Seq<SpecToken>),
        ConvertError,
    >((stack0, out0.push(t))));
    assert(spec_convert_from(seq![t], 0, stack0, out0) == spec_convert_from(
        seq![t],
        1,
        stack0,
        out0.push(t),
    ));
    assert(spec_convert_from(seq![t], 1, stack0, out0.push(t)) == spec_drain(
        stack0,
        out0.push(t),
    ));
    assert(spec_drain(stack0, out0.push(t)) == Ok::<Seq<SpecToken>, ConvertError>(
        out0.push(t),
    ));
    assert(out0.push(t) =~= seq![t]);
    let vals0 = Seq::<Rational>::empty();
    assert(vals0.push(r)[0] == r);
    assert(spec_eval_from(seq![t], 0, vals0) == spec_eval_from(seq![t], 1, vals0.push(r)));
    assert(spec_eval_from(seq![t], 1, vals0.push(r)) == Ok::<Rational, SpecEvalError>(r));
    assert(spec_evaluate(seq![t]) == Ok::<Rational, SpecEvalError>(r));
}

/// A fragment of the round trip for one whole operation: the rendered
/// text of an RPN sequence `x y op` — two nonnegative integer operands
/// followed by a binary operator from the fixed table — re-lexes to exactly
/// that sequence, re-converts to it unchanged, and so re-evaluates to the
/// same result. (Over arbitrary RPN sequences the round trip fails: a
/// rendered `+` or `-` directly after another operator re-lexes as unary,
/// and re-converting a longer postfix sequence can regroup its operands.)
pub proof fn lemma_round_trip_binary_operation(x: Rational, y: Rational, op: crate::token::Operator)
    requires
        x.den == 1,
        x.num >= 0,
        y.den == 1,
        y.num >= 0,
        crate::token::spec_symbol_token(op.symbol, false) == Some(SpecToken::Operator(op)),
    ensures
        spec_lex(
            spec_render(seq![SpecToken::Number(x), SpecToken::Number(y), SpecToken::Operator(op)]),
        ) == Ok::<Seq<SpecToken>, LexError>(
            seq![SpecToken::Number(x), SpecToken::Number(y), SpecToken::Operator(op)],
        ),
        spec_convert(seq![SpecToken::Number(x), SpecToken::Number(y), SpecToken::Operator(op)])
            == Ok::<Seq<SpecToken>, ConvertError>(
            seq![SpecToken::Number(x), SpecToken::Number(y), SpecToken::Operator(op)],
        ),
{
    let tx = SpecToken::Number(x);
    let ty = SpecToken::Number(y);
    let to = SpecToken::Operator(op);
    let ts = seq![tx, ty, to];
    let nx = x.num as nat;
    let ny = y.num as nat;
    let dx = spec_digits(nx);
    let dy = spec_digits(ny);
    lemma_digits_are_digits(nx);
    lemma_digits_are_digits(ny);
    let lx = dx.len();
    let ly = dy.len();
    let s = spec_render(ts);
    assert(crate::render::spec_render_from(ts, 2) == seq![op.symbol]);
    assert(crate::render::spec_render_from(ts, 1) == dy + seq![' '] + seq![op.symbol]);
    assert(s == dx + seq![' '] + (dy + seq![' '] + seq![op.symbol]));
    let n = s.len();
    assert(n == lx + 1 + ly + 2);
    assert(s.subrange(0, lx as int) =~= dx);
    assert(s[lx as int] == ' ');
    assert(s.subrange((lx + 1) as int, (lx + 1 + ly) as int) =~= dy);
    assert(s[(lx + 1 + ly) as int] == ' ');
    assert(s[(lx + 1 + ly + 1) as int] == op.symbol);

    // the first number
    lemma_scan_digits(s, 0, 0, nx);
    assert(0 * crate::rational::pow_int(10, lx) + nx == nx) by (nonlinear_arith);
    assert(!is_digit_char(' ') && ' ' != '.');
    assert(spec_scan_number(s, lx, nx as int, 1, false) == (nx as int, 1int, lx));
    assert(is_digit_char(s[0]));
    assert(!crate::lexer::is_space_char(s[0]));
    assert(!crate::lexer::is_alpha_char(s[0]));

    // the second number
    lemma_scan_digits(s, lx + 1, 0, ny);
    assert(0 * crate::rational::pow_int(10, ly) + ny == ny) by (nonlinear_arith);
    assert(spec_scan_number(s, lx + 1 + ly, ny as int, 1, false) == (
        ny as int,
        1int,
        lx + 1 + ly,
    ));
    assert(is_digit_char(s[(lx + 1) as int]));
    assert(!crate::lexer::is_space_char(s[(lx + 1) as int]));
    assert(!crate::lexer::is_alpha_char(s[(lx + 1) as int]));

    // the operator symbol: after a number the context is binary
    assert(op.symbol == '+' || op.symbol == '-' || op.symbol == '*' || op.symbol == '/'
        || op.symbol == '^');
    assert(!crate::lexer::is_space_char(op.symbol) && !is_digit_char(op.symbol)
        && !crate::lexer::is_alpha_char(op.symbol));

    // assemble the lexing, back to front
    assert(spec_lex_from(s, n, true) == Ok::<Seq<SpecToken>, LexError>(Seq::empty()));
    assert(spec_lex_from(s, lx + 1 + ly + 1, false) == Ok::<Seq<SpecToken>, LexError>(
        seq![to] + Seq::empty(),
    ));
    assert(spec_lex_from(s, lx + 1 + ly, false) == spec_lex_from(s, lx + 1 + ly + 1, false));
    assert(spec_lex_from(s, lx + 1, false) == Ok::<Seq<SpecToken>, LexError>(
        seq![ty] + (seq![to] + Seq::empty()),
    ));
    assert(spec_lex_from(s, lx, false) == spec_lex_from(s, lx + 1, false));
    assert(spec_lex_from(s, 0, true) == Ok::<Seq<SpecToken>, LexError>(
        seq![tx] + (seq![ty] + (seq![to] + Seq::empty())),
    ));
    assert(seq![tx] + (seq![ty] + (seq![to] + Seq::<SpecToken>::empty())) =~= ts);

    // re-conversion leaves the sequence unchanged
    let e = Seq::<SpecToken>::empty();
    assert(ts[0] == tx && ts[1] == ty && ts[2] == to);
    assert(spec_convert_step(tx, e, e) == Ok::<(Seq<SpecToken>, Seq<SpecToken>), ConvertError>(
        (e, e.push(tx)),
    ));
    assert(spec_convert_step(ty, e, e.push(tx)) == Ok::<
        (Seq<SpecToken>, Seq<SpecToken>),
        ConvertError,
    >((e, e.push(tx).push(ty))));
    assert(spec_pop_ops(e, e.push(tx).push(ty), op) == (e, e.push(tx).push(ty)));
    assert(spec_convert_step(to, e, e.push(tx).push(ty)) == Ok::<
        (Seq<SpecToken>, Seq<SpecToken>),
        ConvertError,
    >((e.push(to), e.push(tx).push(ty))));
    assert(e.push(to).drop_last() =~= e);
    assert(e.push(to).last() == to);
    assert(spec_drain(e.push(to), e.push(tx).push(ty)) == spec_drain(
        e,
        e.push(tx).push(ty).push(to),
    ));
    assert(spec_drain(e, e.push(tx).push(ty).push(to)) == Ok::<Seq<SpecToken>, ConvertError>(
        e.push(tx).push(ty).push(to),
    ));
    assert(e.push(tx).push(ty).push(to) =~= ts);
    assert(spec_convert_from(ts, 0, e, e) == spec_convert_from(ts, 1, e, e.push(tx)));
    assert(spec_convert_from(ts, 1, e, e.push(tx)) == spec_convert_from(
        ts,
        2,
        e,
        e.push(tx).push(ty),
    ));
    assert(spec_convert_from(ts, 2, e, e.push(tx).push(ty)) == spec_convert_from(
        ts,
        3,
        e.push(to),
        e.push(tx).push(ty),
    ));
}

/// The full pipeline only hands well-formed RPN to the evaluator: lexing a
/// character sequence and converting the tokens yields, on success, a
/// sequence of well-formed `Number`, `Operator` and `Function` tokens.
pub proof fn lemma_pipeline_rpn_ok(s: Seq<char>)
    ensures
        spec_lex(s) matches Ok(ts) ==> (spec_convert(ts) matches Ok(o) ==> rpn_ok(o)
            && wf_tokens(o)),
{
    lemma_lex_wf(s, 0, true);
    match spec_lex(s) {
        Ok(ts) => {
            lemma_convert_output_shape(ts);
            match spec_convert(ts) {
                Ok(o) => {
                    assert(rpn_ok(o));
                    assert(wf_tokens(o));
                },
                Err(_) => {},
            }
        },
        Err(_) => {},
    }
}

} // verus!

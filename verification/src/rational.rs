//! Exact arithmetic on [`Rational`] values.
//!
//! Each operation is specified over unbounded integers and range-checked
//! into `i64`: a result whose numerator or denominator falls outside the
//! machine range is a domain error, as are division by zero and a
//! fractional exponent (exponentiation is exact, so only integer exponents
//! are defined). Denominators stay positive throughout: a division by a
//! negative value flips both signs.

use vstd::arithmetic::div_mod::{
    lemma_div_multiples_vanish, lemma_fundamental_div_mod, lemma_mod_multiples_basic,
};
use vstd::math::abs;
use vstd::prelude::*;

use crate::token::{mul_i64, Rational};

verus! {

/// Why an arithmetic operation was undefined for its inputs.
#[derive(Copy, Clone, Debug, PartialEq, Eq, Structural)]
pub enum DomainDetail {
    /// The divisor was zero, or a negative power of zero was asked for.
    DivisionByZero,
    /// The exponent was not an integer; exact exponentiation is only
    /// defined for integer exponents.
    FractionalExponent,
    /// The exact result does not fit the machine representation.
    Overflow,
}

/// Whether an unbounded integer fits in an `i64`.
pub open spec fn in_i64(n: int) -> bool {
    i64::MIN <= n <= i64::MAX
}

/// Range-checks an exact numerator and denominator into a `Rational`.
pub open spec fn spec_make_rat(n: int, d: int) -> Result<Rational, DomainDetail> {
    if !in_i64(n) || !in_i64(d) {
        Err(DomainDetail::Overflow)
    } else {
        Ok(Rational { num: n as i64, den: d as i64 })
    }
}

/// Like [`spec_make_rat`], but flips both signs first when the denominator
/// is negative, keeping denominators positive.
pub open spec fn spec_make_rat_signed(n: int, d: int) -> Result<Rational, DomainDetail> {
    if d < 0 {
        spec_make_rat(-n, -d)
    } else {
        spec_make_rat(n, d)
    }
}

/// The exact sum `a + b`.
pub open spec fn spec_add(a: Rational, b: Rational) -> Result<Rational, DomainDetail> {
    spec_make_rat(a.num * b.den + b.num * a.den, a.den * b.den)
}

/// The exact difference `a - b`.
pub open spec fn spec_sub(a: Rational, b: Rational) -> Result<Rational, DomainDetail> {
    spec_make_rat(a.num * b.den - b.num * a.den, a.den * b.den)
}

/// The exact product `a * b`.
pub open spec fn spec_mul(a: Rational, b: Rational) -> Result<Rational, DomainDetail> {
    spec_make_rat(a.num * b.num, a.den * b.den)
}

/// The exact quotient `a / b`; division by zero is a domain error.
pub open spec fn spec_div(a: Rational, b: Rational) -> Result<Rational, DomainDetail> {
    if b.num == 0 {
        Err(DomainDetail::DivisionByZero)
    } else {
        spec_make_rat_signed(a.num * b.den, a.den * b.num)
    }
}

/// The exact negation `-a`.
pub open spec fn spec_neg(a: Rational) -> Result<Rational, DomainDetail> {
    spec_make_rat(-(a.num as int), a.den as int)
}

/// `b` raised to the natural power `e`.
pub open spec fn pow_int(b: int, e: nat) -> int
    decreases e,
{
    if e == 0 {
        1
    } else {
        b * pow_int(b, (e - 1) as nat)
    }
}

/// The exact power `a ^ b`. The exponent must be an integer; `0 ^ 0` is 1
/// by convention, a negative power of zero is a division by zero, and a
/// result out of machine range is an overflow.
pub open spec fn spec_pow(a: Rational, b: Rational) -> Result<Rational, DomainDetail> {
    if b.num % b.den != 0 {
        Err(DomainDetail::FractionalExponent)
    } else {
        let e = b.num / b.den;
        if e == 0 {
            Ok(Rational { num: 1, den: 1 })
        } else if a.num == 0 {
            if e > 0 {
                Ok(Rational { num: 0, den: 1 })
            } else {
                Err(DomainDetail::DivisionByZero)
            }
        } else if e > 0 {
            spec_make_rat_signed(pow_int(a.num as int, e as nat), pow_int(a.den as int, e as nat))
        } else {
            spec_make_rat_signed(
                pow_int(a.den as int, (-e) as nat),
                pow_int(a.num as int, (-e) as nat),
            )
        }
    }
}

/// A power of a nonzero base is nonzero, and its magnitude never shrinks as
/// the exponent grows.
pub proof fn lemma_pow_abs_mono(b: int, k: nat, e: nat)
    requires
        b != 0,
        k <= e,
    ensures
        pow_int(b, k) != 0,
        abs(pow_int(b, k)) <= abs(pow_int(b, e)),
    decreases e,
{
    if e == 0 {
        assert(pow_int(b, 0) == 1);
    } else if k == e {
        lemma_pow_abs_mono(b, (e - 1) as nat, (e - 1) as nat);
        let p = pow_int(b, (e - 1) as nat);
        assert(pow_int(b, e) == b * p);
        assert(b * p != 0 && abs(b * p) >= abs(p)) by (nonlinear_arith)
            requires
                b != 0,
                p != 0,
        ;
    } else {
        lemma_pow_abs_mono(b, k, (e - 1) as nat);
        let p = pow_int(b, (e - 1) as nat);
        assert(pow_int(b, e) == b * p);
        assert(b * p != 0 && abs(b * p) >= abs(p)) by (nonlinear_arith)
            requires
                b != 0,
                p != 0,
        ;
    }
}

/// A power of a positive base is at least 1.
pub proof fn lemma_pow_pos(b: int, e: nat)
    requires
        b >= 1,
    ensures
        pow_int(b, e) >= 1,
    decreases e,
{
    if e > 0 {
        lemma_pow_pos(b, (e - 1) as nat);
        let p = pow_int(b, (e - 1) as nat);
        assert(b * p >= 1) by (nonlinear_arith)
            requires
                b >= 1,
                p >= 1,
        ;
    }
}

/// The product of an `i64` value and a positive `i64` value stays well
/// inside the `i128` range, with room to add two such products.
proof fn lemma_mul_wf_bound(x: int, y: int)
    requires
        -0x8000_0000_0000_0000 <= x <= 0x7fff_ffff_ffff_ffff,
        1 <= y <= 0x7fff_ffff_ffff_ffff,
    ensures
        -0x3fff_ffff_ffff_ffff_8000_0000_0000_0000 <= x * y
            <= 0x3fff_ffff_ffff_ffff_8000_0000_0000_0000,
{
    assert(-0x3fff_ffff_ffff_ffff_8000_0000_0000_0000 <= x * y
        <= 0x3fff_ffff_ffff_ffff_8000_0000_0000_0000) by (nonlinear_arith)
        requires
            -0x8000_0000_0000_0000 <= x <= 0x7fff_ffff_ffff_ffff,
            1 <= y <= 0x7fff_ffff_ffff_ffff,
    ;
}

/// Adds two well-formed rationals exactly, as [`spec_add`] describes.
pub fn add_rat(a: Rational, b: Rational) -> (r: Result<Rational, DomainDetail>)
    requires
        a.wf(),
        b.wf(),
    ensures
        r == spec_add(a, b),
        r matches Ok(v) ==> v.wf(),
{
    let p1: i128 = mul_i64(a.num, b.den);
    let p2: i128 = mul_i64(b.num, a.den);
    proof {
        lemma_mul_wf_bound(a.num as int, b.den as int);
        lemma_mul_wf_bound(b.num as int, a.den as int);
    }
    let n: i128 = p1 + p2;
    let d: i128 = mul_i64(a.den, b.den);
    proof {
        assert(a.den as int * b.den as int >= 1) by (nonlinear_arith)
            requires
                a.den >= 1,
                b.den >= 1,
        ;
    }
    if n > i64::MAX as i128 || n < i64::MIN as i128 || d > i64::MAX as i128 {
        Err(DomainDetail::Overflow)
    } else {
        Ok(Rational { num: n as i64, den: d as i64 })
    }
}

/// Subtracts two well-formed rationals exactly, as [`spec_sub`] describes.
pub fn sub_rat(a: Rational, b: Rational) -> (r: Result<Rational, DomainDetail>)
    requires
        a.wf(),
        b.wf(),
    ensures
        r == spec_sub(a, b),
        r matches Ok(v) ==> v.wf(),
{
    let p1: i128 = mul_i64(a.num, b.den);
    let p2: i128 = mul_i64(b.num, a.den);
    proof {
        lemma_mul_wf_bound(a.num as int, b.den as int);
        lemma_mul_wf_bound(b.num as int, a.den as int);
    }
    let n: i128 = p1 - p2;
    let d: i128 = mul_i64(a.den, b.den);
    proof {
        assert(a.den as int * b.den as int >= 1) by (nonlinear_arith)
            requires
                a.den >= 1,
                b.den >= 1,
        ;
    }
    if n > i64::MAX as i128 || n < i64::MIN as i128 || d > i64::MAX as i128 {
        Err(DomainDetail::Overflow)
    } else {
        Ok(Rational { num: n as i64, den: d as i64 })
    }
}

/// Multiplies two well-formed rationals exactly, as [`spec_mul`] describes.
pub fn mul_rat(a: Rational, b: Rational) -> (r: Result<Rational, DomainDetail>)
    requires
        a.wf(),
        b.wf(),
    ensures
        r == spec_mul(a, b),
        r matches Ok(v) ==> v.wf(),
{
    let n: i128 = mul_i64(a.num, b.num);
    let d: i128 = mul_i64(a.den, b.den);
    proof {
        assert(a.den as int * b.den as int >= 1) by (nonlinear_arith)
            requires
                a.den >= 1,
                b.den >= 1,
        ;
    }
    if n > i64::MAX as i128 || n < i64::MIN as i128 || d > i64::MAX as i128 {
        Err(DomainDetail::Overflow)
    } else {
        Ok(Rational { num: n as i64, den: d as i64 })
    }
}

/// Divides two well-formed rationals exactly, as [`spec_div`] describes;
/// the result keeps a positive denominator.
pub fn div_rat(a: Rational, b: Rational) -> (r: Result<Rational, DomainDetail>)
    requires
        a.wf(),
        b.wf(),
    ensures
        r == spec_div(a, b),
        r matches Ok(v) ==> v.wf(),
{
    if b.num == 0 {
        return Err(DomainDetail::DivisionByZero);
    }
    let mut n: i128 = mul_i64(a.num, b.den);
    let mut d: i128 = mul_i64(a.den, b.num);
    proof {
        assert(a.den as int * b.num as int != 0) by (nonlinear_arith)
            requires
                a.den >= 1,
                b.num != 0,
        ;
    }
    if d < 0 {
        n = -n;
        d = -d;
    }
    if n > i64::MAX as i128 || n < i64::MIN as i128 || d > i64::MAX as i128 {
        Err(DomainDetail::Overflow)
    } else {
        Ok(Rational { num: n as i64, den: d as i64 })
    }
}

/// Negates a well-formed rational, as [`spec_neg`] describes.
pub fn neg_rat(a: Rational) -> (r: Result<Rational, DomainDetail>)
    requires
        a.wf(),
    ensures
        r == spec_neg(a),
        r matches Ok(v) ==> v.wf(),
{
    if a.num == i64::MIN {
        Err(DomainDetail::Overflow)
    } else {
        Ok(Rational { num: -a.num, den: a.den })
    }
}

/// Splits a well-formed exponent into its magnitude and sign when it is an
/// integer; `None` means the exponent is fractional.
fn exp_parts(b: Rational) -> (r: Option<(u64, bool)>)
    requires
        b.wf(),
    ensures
        match r {
            None => b.num as int % b.den as int != 0,
            Some((emag, neg)) => b.num as int % b.den as int == 0 && b.num as int
                / b.den as int == (if neg {
                -(emag as int)
            } else {
                emag as int
            }) && (neg ==> emag >= 1),
        },
{
    let bd: u64 = b.den as u64;
    if b.num >= 0 {
        let mag: u64 = b.num as u64;
        if mag % bd != 0 {
            None
        } else {
            Some((mag / bd, false))
        }
    } else {
        let magi: i128 = -(b.num as i128);
        let mag: u64 = magi as u64;
        proof {
            assert(mag as int == -(b.num as int));
        }
        if mag % bd != 0 {
            proof {
                if b.num as int % b.den as int == 0 {
                    let q = b.num as int / b.den as int;
                    lemma_fundamental_div_mod(b.num as int, b.den as int);
                    assert(b.num as int == b.den as int * q);
                    assert(mag as int == (-q) * (b.den as int)) by (nonlinear_arith)
                        requires
                            b.num as int == b.den as int * q,
                            mag as int == -(b.num as int),
                    ;
                    lemma_mod_multiples_basic(-q, b.den as int);
                    assert(mag as int % (b.den as int) == 0);
                }
            }
            None
        } else {
            let emag: u64 = mag / bd;
            proof {
                lemma_fundamental_div_mod(mag as int, bd as int);
                assert(mag as int == bd as int * (emag as int));
                assert(b.num as int == b.den as int * (-(emag as int))) by (nonlinear_arith)
                    requires
                        mag as int == bd as int * (emag as int),
                        b.num as int == -(mag as int),
                        bd as int == b.den as int,
                ;
                lemma_mod_multiples_basic(-(emag as int), b.den as int);
                lemma_div_multiples_vanish(-(emag as int), b.den as int);
                assert(emag >= 1) by {
                    if emag == 0 {
                        assert(mag as int == 0);
                    }
                };
            }
            Some((emag, true))
        }
    }
}

/// Raises a well-formed rational to a well-formed rational power exactly,
/// as [`spec_pow`] describes; the result keeps a positive denominator.
pub fn pow_rat(a: Rational, b: Rational) -> (r: Result<Rational, DomainDetail>)
    requires
        a.wf(),
        b.wf(),
    ensures
        r == spec_pow(a, b),
        r matches Ok(v) ==> v.wf(),
{
    let parts = exp_parts(b);
    let ghost e = b.num as int / b.den as int;
    match parts {
        None => Err(DomainDetail::FractionalExponent),
        Some((emag, neg)) => {
            if emag == 0 {
                return Ok(Rational { num: 1, den: 1 });
            }
            if a.num == 0 {
                if neg {
                    return Err(DomainDetail::DivisionByZero);
                } else {
                    return Ok(Rational { num: 0, den: 1 });
                }
            }
            let bound: i128 = 0x8000_0000_0000_0000;
            let mut pn: i128 = 1;
            let mut pd: u64 = 1;
            let mut k: u64 = 0;
            let mut overflow: bool = false;
            loop
                invariant_except_break
                    !overflow,
                invariant
                    a.wf(),
                    a.num != 0,
                    bound == 0x8000_0000_0000_0000,
                    k <= emag,
                    !overflow ==> {
                        &&& pn == pow_int(a.num as int, k as nat)
                        &&& -bound <= pn <= bound
                        &&& pn != 0
                        &&& pd == pow_int(a.den as int, k as nat)
                        &&& 1 <= pd as int <= bound
                    },
                ensures
                    !overflow ==> k == emag,
                    !overflow ==> {
                        &&& pn == pow_int(a.num as int, emag as nat)
                        &&& -bound <= pn <= bound
                        &&& pn != 0
                        &&& pd == pow_int(a.den as int, emag as nat)
                        &&& 1 <= pd as int <= bound
                    },
                    overflow ==> (abs(pow_int(a.num as int, emag as nat)) > bound || pow_int(
                        a.den as int,
                        emag as nat,
                    ) > bound),
                decreases emag - k,
            {
                if k == emag {
                    break ;
                }
                proof {
                    assert(-(0x4000_0000_0000_0000_0000_0000_0000_0000int) <= pn * (
                    a.num as int) <= 0x4000_0000_0000_0000_0000_0000_0000_0000int && pn * (
                    a.num as int) != 0) by (nonlinear_arith)
                        requires
                            -0x8000_0000_0000_0000 <= pn <= 0x8000_0000_0000_0000,
                            pn != 0,
                            -0x8000_0000_0000_0000 <= a.num as int <= 0x7fff_ffff_ffff_ffff,
                            a.num != 0,
                    ;
                    assert((pd as int) * (a.den as int)
                        <= 0x4000_0000_0000_0000_0000_0000_0000_0000int && (pd as int) * (
                    a.den as int) >= 1) by (nonlinear_arith)
                        requires
                            1 <= pd as int <= 0x8000_0000_0000_0000,
                            1 <= a.den as int <= 0x7fff_ffff_ffff_ffff,
                    ;
                }
                let nn: i128 = pn * (a.num as i128);
                let nd: u128 = (pd as u128) * (a.den as u128);
                proof {
                    assert(((k + 1) as nat - 1) as nat == k as nat);
                    assert(pow_int(a.num as int, (k + 1) as nat) == a.num as int * pow_int(
                        a.num as int,
                        k as nat,
                    ));
                    assert(pow_int(a.den as int, (k + 1) as nat) == a.den as int * pow_int(
                        a.den as int,
                        k as nat,
                    ));
                    assert(nn as int == pow_int(a.num as int, (k + 1) as nat));
                    assert(nd as int == (pd as int) * (a.den as int));
                    assert(pd as int == pow_int(a.den as int, k as nat));
                    assert((pd as int) * (a.den as int) == (a.den as int) * (pow_int(
                        a.den as int,
                        k as nat,
                    ))) by (nonlinear_arith)
                        requires
                            pd as int == pow_int(a.den as int, k as nat),
                    ;
                    assert(nd as int == pow_int(a.den as int, (k + 1) as nat));
                }
                if nn > bound || nn < -bound || nd > bound as u128 {
                    proof {
                        lemma_pow_abs_mono(a.num as int, (k + 1) as nat, emag as nat);
                        if nd > bound as u128 {
                            lemma_pow_abs_mono(a.den as int, (k + 1) as nat, emag as nat);
                            lemma_pow_pos(a.den as int, emag as nat);
                        }
                    }
                    overflow = true;
                    break ;
                }
                pn = nn;
                pd = nd as u64;
                k = k + 1;
            }
            if overflow {
                proof {
                    lemma_pow_pos(a.den as int, emag as nat);
                    lemma_pow_abs_mono(a.num as int, emag as nat, emag as nat);
                }
                return Err(DomainDetail::Overflow);
            }
            if neg {
                if pn < 0 {
                    if pn == -bound {
                        Err(DomainDetail::Overflow)
                    } else {
                        Ok(Rational { num: -(pd as i128) as i64, den: (-pn) as i64 })
                    }
                } else {
                    if pn == bound || pd as u128 == bound as u128 {
                        Err(DomainDetail::Overflow)
                    } else {
                        Ok(Rational { num: pd as i64, den: pn as i64 })
                    }
                }
            } else {
                if pn == bound || pd as u128 == bound as u128 {
                    Err(DomainDetail::Overflow)
                } else {
                    Ok(Rational { num: pn as i64, den: pd as i64 })
                }
            }
        },
    }
}

} // verus!

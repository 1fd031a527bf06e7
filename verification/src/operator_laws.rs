//! Laws of the interpreter's arithmetic: on two numbers, each operator gives
//! the exact mathematical result whenever it fits in an `i32`, and an error
//! only when it does not (or, for division, when the divisor is zero).
use vstd::prelude::*;
use vstd::arithmetic::div_mod::{
    lemma_div_decreases, lemma_div_pos_is_pos, lemma_fundamental_div_mod, lemma_mod_pos_bound,
};
use crate::ast::BinOp;
use crate::error::RuntimeError;
use crate::interpret::{spec_bin_op, trunc_div};
use crate::memory::SpecIntRep;

verus! {

/// The absolute value of an integer.
pub open spec fn abs(x: int) -> int {
    if x < 0 {
        -x
    } else {
        x
    }
}

/// The result of an operation is the number `n`.
pub open spec fn gives_number(r: Result<SpecIntRep, RuntimeError>, n: int) -> bool {
    r matches Ok(SpecIntRep::Number(x)) && x as int == n
}

/// Division of non-negative by positive: quotient and remainder bounds.
proof fn lemma_pos_div(x: int, d: int)
    requires
        0 <= x,
        0 < d,
    ensures
        0 <= x - (x / d) * d < d,
        0 <= x / d <= x,
        d == 1 ==> x / d == x,
        d > 1 && x > 0 ==> x / d < x,
{
    lemma_fundamental_div_mod(x, d);
    lemma_mod_pos_bound(x, d);
    lemma_div_pos_is_pos(x, d);
    assert(d * (x / d) == (x / d) * d) by (nonlinear_arith);
    assert((x / d) * d >= x / d) by (nonlinear_arith)
        requires
            x / d >= 0,
            d >= 1,
    ;
    if d == 1 {
        assert(x / d == x) by (nonlinear_arith)
            requires
                d == 1,
                0 <= x - (x / d) * d < d,
        ;
    }
    if d > 1 && x > 0 {
        lemma_div_decreases(x, d);
    }
}

/// Division rounding towards zero: the remainder has the sign of the
/// dividend and is smaller than the divisor; the quotient fits in an `i32`
/// except for `i32::MIN / -1`.
proof fn lemma_trunc_div(a: int, b: int)
    requires
        i32::MIN <= a <= i32::MAX,
        i32::MIN <= b <= i32::MAX,
        b != 0,
    ensures
        a >= 0 ==> 0 <= a - trunc_div(a, b) * b < abs(b),
        a < 0 ==> -abs(b) < a - trunc_div(a, b) * b <= 0,
        (i32::MIN <= trunc_div(a, b) <= i32::MAX) <==> !(a == i32::MIN && b == -1),
{
    let q = trunc_div(a, b);
    if a == 0 {
    } else if a > 0 && b > 0 {
        lemma_pos_div(a, b);
    } else if a < 0 && b < 0 {
        lemma_pos_div(-a, -b);
        let p = (-a) / (-b);
        assert(q == p);
        assert(a - q * b == -((-a) - p * (-b))) by (nonlinear_arith)
            requires
                q == p,
        ;
    } else if a < 0 {
        lemma_pos_div(-a, b);
        let p = (-a) / b;
        assert(q == -p);
        assert(a - q * b == -((-a) - p * b)) by (nonlinear_arith)
            requires
                q == -p,
        ;
    } else {
        lemma_pos_div(a, -b);
        let p = a / (-b);
        assert(q == -p);
        assert(a - q * b == a - p * (-b)) by (nonlinear_arith)
            requires
                q == -p,
        ;
    }
}

/// On two numbers, `+`, `-` and `*` give the exact sum, difference and
/// product when it fits in an `i32` and `Overflow` when it does not; `/`
/// gives `DivisionByZero` for a zero divisor, `Overflow` for `i32::MIN / -1`,
/// and otherwise the quotient rounded towards zero (the remainder
/// `a - q * b` has the sign of `a` and is smaller than `b` in size). Anything
/// but two numbers gives `NotNumber`.
pub proof fn law_bin_op_exact(op: BinOp, a: i32, b: i32, l: SpecIntRep, r: SpecIntRep)
    ensures
        op == BinOp::Add ==> if i32::MIN <= a + b <= i32::MAX {
            gives_number(spec_bin_op(op, SpecIntRep::Number(a), SpecIntRep::Number(b)), a + b)
        } else {
            spec_bin_op(op, SpecIntRep::Number(a), SpecIntRep::Number(b)) == Err::<
                SpecIntRep,
                RuntimeError,
            >(RuntimeError::Overflow)
        },
        op == BinOp::Sub ==> if i32::MIN <= a - b <= i32::MAX {
            gives_number(spec_bin_op(op, SpecIntRep::Number(a), SpecIntRep::Number(b)), a - b)
        } else {
            spec_bin_op(op, SpecIntRep::Number(a), SpecIntRep::Number(b)) == Err::<
                SpecIntRep,
                RuntimeError,
            >(RuntimeError::Overflow)
        },
        op == BinOp::Mul ==> if i32::MIN <= a * b <= i32::MAX {
            gives_number(spec_bin_op(op, SpecIntRep::Number(a), SpecIntRep::Number(b)), a * b)
        } else {
            spec_bin_op(op, SpecIntRep::Number(a), SpecIntRep::Number(b)) == Err::<
                SpecIntRep,
                RuntimeError,
            >(RuntimeError::Overflow)
        },
        op == BinOp::Div && b == 0 ==> spec_bin_op(
            op,
            SpecIntRep::Number(a),
            SpecIntRep::Number(b),
        ) == Err::<SpecIntRep, RuntimeError>(RuntimeError::DivisionByZero),
        op == BinOp::Div && a == i32::MIN && b == -1 ==> spec_bin_op(
            op,
            SpecIntRep::Number(a),
            SpecIntRep::Number(b),
        ) == Err::<SpecIntRep, RuntimeError>(RuntimeError::Overflow),
        op == BinOp::Div && b != 0 && !(a == i32::MIN && b == -1) ==> (spec_bin_op(
            op,
            SpecIntRep::Number(a),
            SpecIntRep::Number(b),
        ) matches Ok(SpecIntRep::Number(q)) && (a >= 0 ==> 0 <= a - q * b < abs(b as int)) && (a
            < 0 ==> -abs(b as int) < a - q * b <= 0)),
        !(l is Number && r is Number) ==> spec_bin_op(op, l, r) == Err::<SpecIntRep, RuntimeError>(
            RuntimeError::NotNumber,
        ),
{
    if op == BinOp::Div && b != 0 {
        lemma_trunc_div(a as int, b as int);
    }
}

} // verus!

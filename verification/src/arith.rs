//! Integer arithmetic on 32-bit operands, with every failure as an error.

use vstd::prelude::*;
use vstd::arithmetic::power::{lemma0_pow, lemma1_pow, lemma_pow0, pow};
use crate::error::{IntyError, SpecError};
use crate::op::BinOp;

verus! {

/// The result of a fallible step, with the error as its model.
pub open spec fn view_plain<T>(outcome: Result<T, IntyError>) -> Result<T, SpecError> {
    match outcome {
        Ok(value) => Ok(value),
        Err(error) => Err(error@),
    }
}

/// Whether `n` is a 32-bit signed integer.
pub open spec fn fits(n: int) -> bool {
    -0x8000_0000 <= n <= 0x7fff_ffff
}

/// The error for a result that is no 32-bit signed integer.
pub open spec fn overflow_error() -> SpecError {
    SpecError::LogicError { message: "integer overflow"@ }
}

/// The error for an exponent below zero.
pub open spec fn negative_power_error() -> SpecError {
    SpecError::LogicError { message: "power must be non-negative integer"@ }
}

/// `n` as a 32-bit result, or the overflow error.
pub open spec fn checked(n: int) -> Result<i32, SpecError> {
    if fits(n) {
        Ok(n as i32)
    } else {
        Err(overflow_error())
    }
}

/// The absolute value of `n`.
pub open spec fn magnitude(n: int) -> int {
    if n < 0 {
        -n
    } else {
        n
    }
}

/// The quotient of `a` by `b`, rounded toward zero.
pub open spec fn quotient(a: int, b: int) -> int
    recommends
        b != 0,
{
    if (a < 0) == (b < 0) {
        magnitude(a) / magnitude(b)
    } else {
        -(magnitude(a) / magnitude(b))
    }
}

/// What a binary arithmetic operator gives on two integers: the exact
/// mathematical result where it is a 32-bit signed integer. A zero divisor, a
/// negative exponent and a result out of range are errors.
pub open spec fn arith(op: BinOp, lhs: i32, rhs: i32) -> Result<i32, SpecError> {
    match op {
        BinOp::Add => checked(lhs + rhs),
        BinOp::Sub => checked(lhs - rhs),
        BinOp::Mul => checked(lhs * rhs),
        BinOp::Div => if rhs == 0 {
            Err(SpecError::DivideByZeroError)
        } else {
            checked(quotient(lhs as int, rhs as int))
        },
        BinOp::Pow => if rhs < 0 {
            Err(negative_power_error())
        } else {
            checked(pow(lhs as int, rhs as nat))
        },
    }
}

/// What unary minus gives on an integer.
pub open spec fn negation(operand: i32) -> Result<i32, SpecError> {
    checked(-operand)
}

/// From one exponent to a greater one, a power of a base other than zero
/// does not get nearer to zero.
pub proof fn lemma_power_magnitude_grows(base: int, low: nat, high: nat)
    requires
        base != 0,
        low <= high,
    ensures
        1 <= magnitude(pow(base, low)) <= magnitude(pow(base, high)),
    decreases high,
{
    reveal(pow);
    if high > 0 {
        let below = pow(base, (high - 1) as nat);
        if low == high {
            lemma_power_magnitude_grows(base, (high - 1) as nat, (high - 1) as nat);
        } else {
            lemma_power_magnitude_grows(base, low, (high - 1) as nat);
        }
        assert(pow(base, high) == base * below);
        if base > 0 && below > 0 {
            assert(base * below >= below) by (nonlinear_arith)
                requires
                    base >= 1,
                    below >= 1,
            ;
        } else if base > 0 {
            assert(base * below <= below) by (nonlinear_arith)
                requires
                    base >= 1,
                    below <= -1,
            ;
        } else if below > 0 {
            assert(base * below <= -below) by (nonlinear_arith)
                requires
                    base <= -1,
                    below >= 1,
            ;
        } else {
            assert(base * below >= -below) by (nonlinear_arith)
                requires
                    base <= -1,
                    below <= -1,
            ;
        }
    }
}

fn overflow<T>() -> (outcome: Result<T, IntyError>)
    ensures
        view_plain(outcome) == Err::<T, SpecError>(overflow_error()),
{
    Err(IntyError::LogicError { message: "integer overflow".to_owned() })
}

fn narrow(n: i64) -> (outcome: Result<i32, IntyError>)
    ensures
        view_plain(outcome) == checked(n as int),
{
    if -0x8000_0000 <= n && n <= 0x7fff_ffff {
        Ok(n as i32)
    } else {
        overflow()
    }
}

/// The quotient rounded toward zero, for a divisor other than zero.
fn divide(lhs: i32, rhs: i32) -> (outcome: Result<i32, IntyError>)
    requires
        rhs != 0,
    ensures
        view_plain(outcome) == checked(quotient(lhs as int, rhs as int)),
{
    let a: i64 = if lhs < 0 { -(lhs as i64) } else { lhs as i64 };
    let b: i64 = if rhs < 0 { -(rhs as i64) } else { rhs as i64 };
    let q: i64 = a / b;
    if (lhs < 0) == (rhs < 0) {
        narrow(q)
    } else {
        narrow(-q)
    }
}

/// A power of minus one is one for an even exponent and minus one for an odd
/// one.
pub proof fn lemma_power_of_minus_one(exponent: nat)
    ensures
        pow(-1, exponent) == if exponent % 2 == 0 {
            1int
        } else {
            -1int
        },
    decreases exponent,
{
    reveal(pow);
    if exponent > 0 {
        lemma_power_of_minus_one((exponent - 1) as nat);
    }
}

/// `base` to the power `exponent`, for an exponent of zero or more.
fn power(base: i32, exponent: i32) -> (outcome: Result<i32, IntyError>)
    requires
        exponent >= 0,
    ensures
        view_plain(outcome) == checked(pow(base as int, exponent as nat)),
{
    if exponent == 0 {
        proof {
            lemma_pow0(base as int);
        }
        return Ok(1);
    }
    if base == 0 {
        proof {
            lemma0_pow(exponent as nat);
        }
        return Ok(0);
    }
    if base == 1 {
        proof {
            lemma1_pow(exponent as nat);
        }
        return Ok(1);
    }
    if base == -1 {
        proof {
            lemma_power_of_minus_one(exponent as nat);
        }
        return Ok(if exponent % 2 == 0 { 1 } else { -1 });
    }
    let mut acc: i64 = 1;
    let mut done: i32 = 0;
    proof {
        lemma_pow0(base as int);
    }
    while done < exponent
        invariant
            0 <= done <= exponent,
            base != 0,
            acc == pow(base as int, done as nat),
            -0x8000_0000 <= acc <= 0x8000_0000,
        decreases exponent - done,
    {
        assert(-0x4000_0000_0000_0000 <= acc * base <= 0x4000_0000_0000_0000) by (nonlinear_arith)
            requires
                -0x8000_0000 <= acc <= 0x8000_0000,
                -0x8000_0000 <= base <= 0x8000_0000,
        ;
        let next: i64 = acc * (base as i64);
        proof {
            assert(pow(base as int, (done + 1) as nat) == base * pow(base as int, done as nat)) by {
                reveal(pow);
            }
            assert(base * acc == acc * base) by (nonlinear_arith);
        }
        if next > 0x8000_0000 || next < -0x8000_0000 {
            proof {
                lemma_power_magnitude_grows(base as int, (done + 1) as nat, exponent as nat);
            }
            return overflow();
        }
        acc = next;
        done = done + 1;
    }
    narrow(acc)
}

/// Applies a binary arithmetic operator to two integers.
pub fn compute(op: BinOp, lhs: i32, rhs: i32) -> (outcome: Result<i32, IntyError>)
    ensures
        view_plain(outcome) == arith(op, lhs, rhs),
{
    match op {
        BinOp::Add => narrow(lhs as i64 + rhs as i64),
        BinOp::Sub => narrow(lhs as i64 - rhs as i64),
        BinOp::Mul => {
            assert(-0x4000_0000_0000_0000 <= lhs * rhs <= 0x4000_0000_0000_0000) by (
                nonlinear_arith)
                requires
                    -0x8000_0000 <= lhs <= 0x8000_0000,
                    -0x8000_0000 <= rhs <= 0x8000_0000,
            ;
            narrow((lhs as i64) * (rhs as i64))
        },
        BinOp::Div => {
            if rhs == 0 {
                Err(IntyError::DivideByZeroError)
            } else {
                divide(lhs, rhs)
            }
        },
        BinOp::Pow => {
            if rhs < 0 {
                Err(
                    IntyError::LogicError {
                        message: "power must be non-negative integer".to_owned(),
                    },
                )
            } else {
                power(lhs, rhs)
            }
        },
    }
}

/// Negates an integer.
pub fn negate(operand: i32) -> (outcome: Result<i32, IntyError>)
    ensures
        view_plain(outcome) == negation(operand),
{
    narrow(-(operand as i64))
}

} // verus!

//! Evaluation: folding a parsed expression, left to right, into one
//! canonical duration.
//!
//! The accumulator is a wide signed count of seconds, so an intermediate
//! negative total (as in `1d - 2d + 3d`) is fine; only a net-negative final
//! total, or a total beyond what the scalar types hold, is rejected.

use vstd::prelude::*;

use crate::duration::{decompose, Duration, Seconds};
use crate::error::Error;
use crate::parse::{equation_spec, parse_equation, strs_view, Equation, Phrase};

verus! {

/// The operator pending before the next operand.
#[derive(Debug, Clone, Copy, PartialEq, Eq, Structural)]
pub enum Op {
    Plus,
    Minus,
}

/// The operator in force after the first `n` phrases: the most recent
/// operator seen, or an implicit leading plus.
pub open spec fn pending_op(eq: Seq<Phrase>, n: int) -> Op
    decreases n,
{
    if n <= 0 {
        Op::Plus
    } else {
        match eq[n - 1] {
            Phrase::Plus => Op::Plus,
            Phrase::Minus => Op::Minus,
            Phrase::Seconds(_) => pending_op(eq, n - 1),
        }
    }
}

/// The running second count after the first `n` phrases: each operand is
/// added or subtracted according to the operator in force before it.
pub open spec fn acc_at(eq: Seq<Phrase>, n: int) -> int
    decreases n,
{
    if n <= 0 {
        0
    } else {
        match eq[n - 1] {
            Phrase::Seconds(u) => acc_at(eq, n - 1) + (match pending_op(eq, n - 1) {
                Op::Plus => u as int,
                Op::Minus => -(u as int),
            }),
            _ => acc_at(eq, n - 1),
        }
    }
}

/// Whether every running total over the first `n` phrases fits the
/// evaluator's signed accumulator.
pub open spec fn totals_in_range(eq: Seq<Phrase>, n: int) -> bool {
    forall|j: int| 0 <= j <= n ==> i128::MIN <= #[trigger] acc_at(eq, j) <= i128::MAX
}

/// What evaluating an expression yields: the canonical decomposition of its
/// final second count, or the error that stops it — an accumulator out of
/// range, a net-negative total, or a total beyond the scalar type.
pub open spec fn solve_spec(eq: Seq<Phrase>) -> Result<Duration, Error> {
    let total = acc_at(eq, eq.len() as int);
    if !totals_in_range(eq, eq.len() as int) {
        Err(Error::Overflow)
    } else if total < 0 {
        Err(Error::Negative)
    } else if total > u64::MAX {
        Err(Error::Overflow)
    } else {
        Ok(decompose(total))
    }
}

/// Folds the expression left to right, an implicit plus leading, and
/// renders the final count canonically.
pub fn solve_equation(equation: &[Phrase]) -> (r: Result<Duration, Error>)
    ensures
        r == solve_spec(equation@),
{
    let n = equation.len();
    let mut acc: i128 = 0;
    let mut op = Op::Plus;
    let mut i: usize = 0;
    while i < n
        invariant
            0 <= i <= n == equation@.len(),
            acc == acc_at(equation@, i as int),
            op == pending_op(equation@, i as int),
            totals_in_range(equation@, i as int),
        decreases n - i,
    {
        let phrase = *vstd::slice::slice_index_get(equation, i);
        match phrase {
            Phrase::Seconds(u) => {
                let delta = u as i128;
                match op {
                    Op::Plus => {
                        if acc > i128::MAX - delta {
                            proof {
                                assert(acc_at(equation@, i as int + 1) > i128::MAX);
                                assert(!totals_in_range(equation@, equation@.len() as int));
                            }
                            return Err(Error::Overflow);
                        }
                        acc = acc + delta;
                    },
                    Op::Minus => {
                        if acc < i128::MIN + delta {
                            proof {
                                assert(acc_at(equation@, i as int + 1) < i128::MIN);
                                assert(!totals_in_range(equation@, equation@.len() as int));
                            }
                            return Err(Error::Overflow);
                        }
                        acc = acc - delta;
                    },
                }
            },
            Phrase::Plus => {
                op = Op::Plus;
            },
            Phrase::Minus => {
                op = Op::Minus;
            },
        }
        i = i + 1;
    }
    if acc < 0 {
        return Err(Error::Negative);
    }
    if acc > u64::MAX as i128 {
        return Err(Error::Overflow);
    }
    Ok(Duration::from_seconds(Seconds(acc as u64)))
}

/// What the whole pipeline yields for a raw token list: parse, then
/// evaluate, stopping at the first error.
pub open spec fn parse_and_solve_spec(parts: Seq<Seq<char>>) -> Result<Duration, Error> {
    match equation_spec(parts) {
        Ok(eq) => solve_spec(eq),
        Err(e) => Err(e),
    }
}

/// Parses the raw token list and evaluates the resulting expression.
pub fn parse_and_solve(input: &[String]) -> (r: Result<Duration, Error>)
    ensures
        r == parse_and_solve_spec(strs_view(input@)),
{
    let equation: Equation = match parse_equation(input) {
        Ok(eq) => eq,
        Err(e) => {
            return Err(e);
        },
    };
    solve_equation(equation.as_slice())
}

} // verus!

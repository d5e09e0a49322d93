//! Partial symbolic integration with respect to one named variable.
//!
//! Deliberately partial: the constant rule, the linear term, sum and
//! difference linearity, the constant multiple, the monomial power rule
//! (with the reciprocal going to a logarithm), and the derivatives of
//! sine and cosine. Every other shape is declined explicitly. The only
//! arithmetic is the increment of a literal exponent, requested from
//! the caller's answer table.

use vstd::prelude::*;

use crate::expr::{Expr, ExprV, name_is, func1};
use crate::numeric::{NumOp, NumTable, NumTableV, BinKind, op_answer, ONE_BITS, TWO_BITS,
    NEG_ONE_BITS};

verus! {

/// A shape the integrator declines; the offending subtree is carried
/// for rendering in diagnostics.
#[derive(Debug, PartialEq)]
pub enum IntegrateError {
    /// A product of two non-constant factors.
    ByParts(Expr),
    /// A monomial with a non-literal exponent.
    NonNumericExponent(Expr),
    /// Any other unsupported shape.
    NotSupported(Expr),
}

/// One round of integration: the antiderivative, a refusal, or a
/// request for one arithmetic answer.
#[derive(Debug, PartialEq)]
pub enum IntStep {
    Done(Expr),
    Fail(IntegrateError),
    Need(NumOp),
}

/// Model of [`IntegrateError`].
pub ghost enum IntErrorV {
    ByParts(ExprV),
    NonNumericExponent(ExprV),
    NotSupported(ExprV),
}

/// Model of [`IntStep`].
pub ghost enum IntResV {
    Done(ExprV),
    Fail(IntErrorV),
    Need(NumOp),
}

impl View for IntegrateError {
    type V = IntErrorV;

    open spec fn view(&self) -> IntErrorV {
        match self {
            IntegrateError::ByParts(e) => IntErrorV::ByParts(e@),
            IntegrateError::NonNumericExponent(e) => IntErrorV::NonNumericExponent(e@),
            IntegrateError::NotSupported(e) => IntErrorV::NotSupported(e@),
        }
    }
}

impl View for IntStep {
    type V = IntResV;

    open spec fn view(&self) -> IntResV {
        match self {
            IntStep::Done(e) => IntResV::Done(e@),
            IntStep::Fail(e) => IntResV::Fail(e@),
            IntStep::Need(op) => IntResV::Need(*op),
        }
    }
}

/// The antiderivative of a monomial in `var` with literal exponent
/// `n`: the reciprocal goes to a logarithm, any other exponent through
/// the power rule, whose incremented exponent comes from the table.
pub open spec fn spec_monomial_rule(n: u64, var: Seq<char>, t: NumTableV) -> IntResV {
    if n == NEG_ONE_BITS {
        IntResV::Done(ExprV::Func("ln"@, seq![ExprV::Variable(var)]))
    } else {
        match op_answer(t, NumOp::Bin(BinKind::Add, n, ONE_BITS)) {
            Option::None => IntResV::Need(NumOp::Bin(BinKind::Add, n, ONE_BITS)),
            Option::Some(m) => IntResV::Done(
                ExprV::Div(
                    Box::new(ExprV::Pow(
                        Box::new(ExprV::Variable(var)),
                        Box::new(ExprV::Number(m)),
                    )),
                    Box::new(ExprV::Number(m)),
                ),
            ),
        }
    }
}

/// The antiderivative of `e` with respect to `var`, relative to the
/// arithmetic answers recorded in `t`.
pub open spec fn spec_integrate(e: ExprV, var: Seq<char>, t: NumTableV) -> IntResV
    decreases e,
{
    match e {
        ExprV::Number(c) => IntResV::Done(
            ExprV::Mul(Box::new(ExprV::Number(c)), Box::new(ExprV::Variable(var))),
        ),
        ExprV::Variable(x) => {
            if x == var {
                IntResV::Done(
                    ExprV::Div(
                        Box::new(ExprV::Pow(
                            Box::new(ExprV::Variable(var)),
                            Box::new(ExprV::Number(TWO_BITS)),
                        )),
                        Box::new(ExprV::Number(TWO_BITS)),
                    ),
                )
            } else {
                IntResV::Fail(IntErrorV::NotSupported(e))
            }
        },
        ExprV::Add(l, r) => match spec_integrate(*l, var, t) {
            IntResV::Done(il) => match spec_integrate(*r, var, t) {
                IntResV::Done(ir) => IntResV::Done(ExprV::Add(Box::new(il), Box::new(ir))),
                other => other,
            },
            other => other,
        },
        ExprV::Sub(l, r) => match spec_integrate(*l, var, t) {
            IntResV::Done(il) => match spec_integrate(*r, var, t) {
                IntResV::Done(ir) => IntResV::Done(ExprV::Sub(Box::new(il), Box::new(ir))),
                other => other,
            },
            other => other,
        },
        ExprV::Mul(l, r) => match *l {
            ExprV::Number(c) => match spec_integrate(*r, var, t) {
                IntResV::Done(ir) => IntResV::Done(
                    ExprV::Mul(Box::new(ExprV::Number(c)), Box::new(ir)),
                ),
                other => other,
            },
            _ => match *r {
                ExprV::Number(c) => match spec_integrate(*l, var, t) {
                    IntResV::Done(il) => IntResV::Done(
                        ExprV::Mul(Box::new(ExprV::Number(c)), Box::new(il)),
                    ),
                    other => other,
                },
                _ => IntResV::Fail(IntErrorV::ByParts(e)),
            },
        },
        ExprV::Pow(base, exponent) => {
            if *base matches ExprV::Variable(x) && x == var {
                match *exponent {
                    ExprV::Number(n) => spec_monomial_rule(n, var, t),
                    _ => IntResV::Fail(IntErrorV::NonNumericExponent(e)),
                }
            } else {
                IntResV::Fail(IntErrorV::NotSupported(e))
            }
        },
        ExprV::Func(name, args) => {
            if args.len() == 1 {
                if name == "sin"@ {
                    IntResV::Done(
                        ExprV::Mul(
                            Box::new(ExprV::Number(NEG_ONE_BITS)),
                            Box::new(ExprV::Func("cos"@, seq![args[0]])),
                        ),
                    )
                } else if name == "cos"@ {
                    IntResV::Done(ExprV::Func("sin"@, seq![args[0]]))
                } else {
                    IntResV::Fail(IntErrorV::NotSupported(e))
                }
            } else {
                IntResV::Fail(IntErrorV::NotSupported(e))
            }
        },
        _ => IntResV::Fail(IntErrorV::NotSupported(e)),
    }
}

/// Integrate `expr` with respect to `var`.
///
/// The result is the antiderivative the rules dictate, a refusal for a
/// shape outside the supported fragment, or a request for one
/// arithmetic answer to be recorded in `nums` before calling again.
pub fn integrate(expr: &Expr, var: &str, nums: &NumTable) -> (r: IntStep)
    ensures
        r@ == spec_integrate(expr@, var@, nums@),
    decreases expr,
{
    proof {
        reveal_with_fuel(crate::expr::view_of, 6);
    }
    match expr {
        Expr::Number(c) => IntStep::Done(
            Expr::Mul(
                Box::new(Expr::Number(*c)),
                Box::new(Expr::Variable(var.to_owned())),
            ),
        ),
        Expr::Variable(x) => {
            if name_is(x, var) {
                IntStep::Done(
                    Expr::Div(
                        Box::new(Expr::Pow(
                            Box::new(Expr::Variable(var.to_owned())),
                            Box::new(Expr::Number(TWO_BITS)),
                        )),
                        Box::new(Expr::Number(TWO_BITS)),
                    ),
                )
            } else {
                IntStep::Fail(IntegrateError::NotSupported(expr.duplicate()))
            }
        },
        Expr::Add(l, r) => match integrate(l, var, nums) {
            IntStep::Done(il) => match integrate(r, var, nums) {
                IntStep::Done(ir) => IntStep::Done(Expr::Add(Box::new(il), Box::new(ir))),
                other => other,
            },
            other => other,
        },
        Expr::Sub(l, r) => match integrate(l, var, nums) {
            IntStep::Done(il) => match integrate(r, var, nums) {
                IntStep::Done(ir) => IntStep::Done(Expr::Sub(Box::new(il), Box::new(ir))),
                other => other,
            },
            other => other,
        },
        Expr::Mul(l, r) => {
            let left_constant: Option<u64> = match &**l {
                Expr::Number(c) => Some(*c),
                _ => None,
            };
            match left_constant {
                Some(c) => match integrate(r, var, nums) {
                    IntStep::Done(ir) => IntStep::Done(
                        Expr::Mul(Box::new(Expr::Number(c)), Box::new(ir)),
                    ),
                    other => other,
                },
                None => {
                    let right_constant: Option<u64> = match &**r {
                        Expr::Number(c) => Some(*c),
                        _ => None,
                    };
                    match right_constant {
                        Some(c) => match integrate(l, var, nums) {
                            IntStep::Done(il) => IntStep::Done(
                                Expr::Mul(Box::new(Expr::Number(c)), Box::new(il)),
                            ),
                            other => other,
                        },
                        None => IntStep::Fail(IntegrateError::ByParts(expr.duplicate())),
                    }
                },
            }
        },
        Expr::Pow(base, exponent) => {
            let base_is_var: bool = match &**base {
                Expr::Variable(x) => name_is(x, var),
                _ => false,
            };
            if base_is_var {
                match &**exponent {
                    Expr::Number(n) => {
                        if *n == NEG_ONE_BITS {
                            IntStep::Done(func1("ln", Expr::Variable(var.to_owned())))
                        } else {
                            let op = NumOp::Bin(BinKind::Add, *n, ONE_BITS);
                            match nums.op_lookup(op) {
                                None => IntStep::Need(op),
                                Some(m) => IntStep::Done(
                                    Expr::Div(
                                        Box::new(Expr::Pow(
                                            Box::new(Expr::Variable(var.to_owned())),
                                            Box::new(Expr::Number(m)),
                                        )),
                                        Box::new(Expr::Number(m)),
                                    ),
                                ),
                            }
                        }
                    },
                    _ => IntStep::Fail(IntegrateError::NonNumericExponent(expr.duplicate())),
                }
            } else {
                IntStep::Fail(IntegrateError::NotSupported(expr.duplicate()))
            }
        },
        Expr::Div(_, _) => IntStep::Fail(IntegrateError::NotSupported(expr.duplicate())),
        Expr::Func(name, args) => {
            proof {
                crate::expr::lemma_views_of_index(args@);
            }
            if args.len() == 1 {
                if name_is(name, "sin") {
                    IntStep::Done(
                        Expr::Mul(
                            Box::new(Expr::Number(NEG_ONE_BITS)),
                            Box::new(func1("cos", args[0].duplicate())),
                        ),
                    )
                } else if name_is(name, "cos") {
                    IntStep::Done(func1("sin", args[0].duplicate()))
                } else {
                    IntStep::Fail(IntegrateError::NotSupported(expr.duplicate()))
                }
            } else {
                IntStep::Fail(IntegrateError::NotSupported(expr.duplicate()))
            }
        },
    }
}

} // verus!

//! Symbolic differentiation with respect to one named variable.
//!
//! The derivative tree is built exactly by the textbook rules below and is
//! deliberately left unsimplified; callers run it through the simplifier.
//! The only arithmetic the pass performs is the decrement of a literal
//! exponent, which it requests from the caller's answer table.

use vstd::prelude::*;

use crate::expr::{Expr, ExprV, name_is, func1};
use crate::numeric::{NumOp, NumTable, NumTableV, BinKind, op_answer, ZERO_BITS, ONE_BITS,
    TWO_BITS, NEG_ONE_BITS};

verus! {

/// A call the differentiator declines to interpret; the offending
/// subtree is carried for rendering in diagnostics.
#[derive(Debug, PartialEq)]
pub enum DiffError {
    /// The call does not have exactly one argument.
    UnsupportedArity(Expr),
    /// The call's name is not one the differentiator knows.
    UnsupportedFunction(Expr),
}

/// One round of differentiation: the finished derivative, a refusal, or
/// a request for one arithmetic answer.
#[derive(Debug, PartialEq)]
pub enum DiffStep {
    Done(Expr),
    Fail(DiffError),
    Need(NumOp),
}

/// Model of [`DiffError`].
pub ghost enum DiffErrorV {
    UnsupportedArity(ExprV),
    UnsupportedFunction(ExprV),
}

/// Model of [`DiffStep`].
pub ghost enum DiffResV {
    Done(ExprV),
    Fail(DiffErrorV),
    Need(NumOp),
}

impl View for DiffError {
    type V = DiffErrorV;

    open spec fn view(&self) -> DiffErrorV {
        match self {
            DiffError::UnsupportedArity(e) => DiffErrorV::UnsupportedArity(e@),
            DiffError::UnsupportedFunction(e) => DiffErrorV::UnsupportedFunction(e@),
        }
    }
}

impl View for DiffStep {
    type V = DiffResV;

    open spec fn view(&self) -> DiffResV {
        match self {
            DiffStep::Done(e) => DiffResV::Done(e@),
            DiffStep::Fail(e) => DiffResV::Fail(e@),
            DiffStep::Need(op) => DiffResV::Need(*op),
        }
    }
}

/// The derivative of `e` with respect to `var`, relative to the
/// arithmetic answers recorded in `t`.
pub open spec fn spec_differentiate(e: ExprV, var: Seq<char>, t: NumTableV) -> DiffResV
    decreases e,
{
    match e {
        ExprV::Number(_) => DiffResV::Done(ExprV::Number(ZERO_BITS)),
        ExprV::Variable(name) => DiffResV::Done(
            ExprV::Number(if name == var { ONE_BITS } else { ZERO_BITS }),
        ),
        ExprV::Add(l, r) => match spec_differentiate(*l, var, t) {
            DiffResV::Done(dl) => match spec_differentiate(*r, var, t) {
                DiffResV::Done(dr) => DiffResV::Done(
                    ExprV::Add(Box::new(dl), Box::new(dr)),
                ),
                other => other,
            },
            other => other,
        },
        ExprV::Sub(l, r) => match spec_differentiate(*l, var, t) {
            DiffResV::Done(dl) => match spec_differentiate(*r, var, t) {
                DiffResV::Done(dr) => DiffResV::Done(
                    ExprV::Sub(Box::new(dl), Box::new(dr)),
                ),
                other => other,
            },
            other => other,
        },
        ExprV::Mul(l, r) => match spec_differentiate(*l, var, t) {
            DiffResV::Done(dl) => match spec_differentiate(*r, var, t) {
                DiffResV::Done(dr) => DiffResV::Done(
                    ExprV::Add(
                        Box::new(ExprV::Mul(Box::new(dl), r)),
                        Box::new(ExprV::Mul(l, Box::new(dr))),
                    ),
                ),
                other => other,
            },
            other => other,
        },
        ExprV::Div(l, r) => match spec_differentiate(*l, var, t) {
            DiffResV::Done(dl) => match spec_differentiate(*r, var, t) {
                DiffResV::Done(dr) => DiffResV::Done(
                    ExprV::Div(
                        Box::new(ExprV::Sub(
                            Box::new(ExprV::Mul(Box::new(dl), r)),
                            Box::new(ExprV::Mul(l, Box::new(dr))),
                        )),
                        Box::new(ExprV::Pow(r, Box::new(ExprV::Number(TWO_BITS)))),
                    ),
                ),
                other => other,
            },
            other => other,
        },
        ExprV::Pow(base, exponent) => match *exponent {
            ExprV::Number(n) => match op_answer(t, NumOp::Bin(BinKind::Sub, n, ONE_BITS)) {
                Option::None => DiffResV::Need(NumOp::Bin(BinKind::Sub, n, ONE_BITS)),
                Option::Some(m) => match spec_differentiate(*base, var, t) {
                    DiffResV::Done(db) => DiffResV::Done(
                        ExprV::Mul(
                            Box::new(ExprV::Mul(
                                Box::new(ExprV::Number(n)),
                                Box::new(ExprV::Pow(base, Box::new(ExprV::Number(m)))),
                            )),
                            Box::new(db),
                        ),
                    ),
                    other => other,
                },
            },
            _ => match spec_differentiate(*base, var, t) {
                DiffResV::Done(db) => match spec_differentiate(*exponent, var, t) {
                    DiffResV::Done(dx) => DiffResV::Done(
                        ExprV::Mul(
                            Box::new(ExprV::Pow(base, exponent)),
                            Box::new(ExprV::Add(
                                Box::new(ExprV::Mul(
                                    Box::new(dx),
                                    Box::new(ExprV::Func("ln"@, seq![*base])),
                                )),
                                Box::new(ExprV::Mul(
                                    exponent,
                                    Box::new(ExprV::Div(Box::new(db), base)),
                                )),
                            )),
                        ),
                    ),
                    other => other,
                },
                other => other,
            },
        },
        ExprV::Func(name, args) => {
            if args.len() != 1 {
                DiffResV::Fail(DiffErrorV::UnsupportedArity(e))
            } else {
                match spec_differentiate(args[0], var, t) {
                    DiffResV::Done(du) => {
                        if name == "sin"@ {
                            DiffResV::Done(
                                ExprV::Mul(
                                    Box::new(ExprV::Func("cos"@, seq![args[0]])),
                                    Box::new(du),
                                ),
                            )
                        } else if name == "cos"@ {
                            DiffResV::Done(
                                ExprV::Mul(
                                    Box::new(ExprV::Mul(
                                        Box::new(ExprV::Number(NEG_ONE_BITS)),
                                        Box::new(ExprV::Func("sin"@, seq![args[0]])),
                                    )),
                                    Box::new(du),
                                ),
                            )
                        } else if name == "tan"@ {
                            DiffResV::Done(
                                ExprV::Mul(
                                    Box::new(ExprV::Div(
                                        Box::new(ExprV::Number(ONE_BITS)),
                                        Box::new(ExprV::Pow(
                                            Box::new(ExprV::Func("cos"@, seq![args[0]])),
                                            Box::new(ExprV::Number(TWO_BITS)),
                                        )),
                                    )),
                                    Box::new(du),
                                ),
                            )
                        } else if name == "ln"@ {
                            DiffResV::Done(
                                ExprV::Div(Box::new(du), Box::new(args[0])),
                            )
                        } else if name == "sqrt"@ {
                            DiffResV::Done(
                                ExprV::Div(
                                    Box::new(du),
                                    Box::new(ExprV::Mul(
                                        Box::new(ExprV::Number(TWO_BITS)),
                                        Box::new(ExprV::Func("sqrt"@, seq![args[0]])),
                                    )),
                                ),
                            )
                        } else {
                            DiffResV::Fail(DiffErrorV::UnsupportedFunction(e))
                        }
                    },
                    other => other,
                }
            }
        },
    }
}

/// Differentiate `expr` with respect to `var`.
///
/// The result is the derivative tree the rules dictate, a refusal for a
/// call shape the pass does not support, or a request for one arithmetic
/// answer to be recorded in `nums` before calling again.
pub fn differentiate(expr: &Expr, var: &str, nums: &NumTable) -> (r: DiffStep)
    ensures
        r@ == spec_differentiate(expr@, var@, nums@),
    decreases expr,
{
    proof {
        reveal_with_fuel(crate::expr::view_of, 8);
    }
    match expr {
        Expr::Number(_) => DiffStep::Done(Expr::Number(ZERO_BITS)),
        Expr::Variable(name) => {
            if name_is(name, var) {
                DiffStep::Done(Expr::Number(ONE_BITS))
            } else {
                DiffStep::Done(Expr::Number(ZERO_BITS))
            }
        },
        Expr::Add(l, r) => match differentiate(l, var, nums) {
            DiffStep::Done(dl) => match differentiate(r, var, nums) {
                DiffStep::Done(dr) => DiffStep::Done(
                    Expr::Add(Box::new(dl), Box::new(dr)),
                ),
                other => other,
            },
            other => other,
        },
        Expr::Sub(l, r) => match differentiate(l, var, nums) {
            DiffStep::Done(dl) => match differentiate(r, var, nums) {
                DiffStep::Done(dr) => DiffStep::Done(
                    Expr::Sub(Box::new(dl), Box::new(dr)),
                ),
                other => other,
            },
            other => other,
        },
        Expr::Mul(l, r) => match differentiate(l, var, nums) {
            DiffStep::Done(dl) => match differentiate(r, var, nums) {
                DiffStep::Done(dr) => DiffStep::Done(
                    Expr::Add(
                        Box::new(Expr::Mul(Box::new(dl), Box::new(r.duplicate()))),
                        Box::new(Expr::Mul(Box::new(l.duplicate()), Box::new(dr))),
                    ),
                ),
                other => other,
            },
            other => other,
        },
        Expr::Div(l, r) => match differentiate(l, var, nums) {
            DiffStep::Done(dl) => match differentiate(r, var, nums) {
                DiffStep::Done(dr) => DiffStep::Done(
                    Expr::Div(
                        Box::new(Expr::Sub(
                            Box::new(Expr::Mul(Box::new(dl), Box::new(r.duplicate()))),
                            Box::new(Expr::Mul(Box::new(l.duplicate()), Box::new(dr))),
                        )),
                        Box::new(Expr::Pow(
                            Box::new(r.duplicate()),
                            Box::new(Expr::Number(TWO_BITS)),
                        )),
                    ),
                ),
                other => other,
            },
            other => other,
        },
        Expr::Pow(base, exponent) => {
            let literal_exponent: Option<u64> = match &**exponent {
                Expr::Number(n) => Some(*n),
                _ => None,
            };
            match literal_exponent {
                Some(n) => {
                    let op = NumOp::Bin(BinKind::Sub, n, ONE_BITS);
                    match nums.op_lookup(op) {
                        None => DiffStep::Need(op),
                        Some(m) => match differentiate(base, var, nums) {
                            DiffStep::Done(db) => DiffStep::Done(
                                Expr::Mul(
                                    Box::new(Expr::Mul(
                                        Box::new(Expr::Number(n)),
                                        Box::new(Expr::Pow(
                                            Box::new(base.duplicate()),
                                            Box::new(Expr::Number(m)),
                                        )),
                                    )),
                                    Box::new(db),
                                ),
                            ),
                            other => other,
                        },
                    }
                },
                None => match differentiate(base, var, nums) {
                    DiffStep::Done(db) => match differentiate(exponent, var, nums) {
                        DiffStep::Done(dx) => DiffStep::Done(
                            Expr::Mul(
                                Box::new(Expr::Pow(
                                    Box::new(base.duplicate()),
                                    Box::new(exponent.duplicate()),
                                )),
                                Box::new(Expr::Add(
                                    Box::new(Expr::Mul(
                                        Box::new(dx),
                                        Box::new(func1("ln", base.duplicate())),
                                    )),
                                    Box::new(Expr::Mul(
                                        Box::new(exponent.duplicate()),
                                        Box::new(Expr::Div(
                                            Box::new(db),
                                            Box::new(base.duplicate()),
                                        )),
                                    )),
                                )),
                            ),
                        ),
                        other => other,
                    },
                    other => other,
                },
            }
        },
        Expr::Func(name, args) => {
            proof {
                crate::expr::lemma_views_of_index(args@);
            }
            if args.len() != 1 {
                DiffStep::Fail(DiffError::UnsupportedArity(expr.duplicate()))
            } else {
                proof {
                    assert(decreases_to!(*expr => args@[0]));
                }
                match differentiate(&args[0], var, nums) {
                    DiffStep::Done(du) => {
                        if name_is(name, "sin") {
                            DiffStep::Done(
                                Expr::Mul(
                                    Box::new(func1("cos", args[0].duplicate())),
                                    Box::new(du),
                                ),
                            )
                        } else if name_is(name, "cos") {
                            DiffStep::Done(
                                Expr::Mul(
                                    Box::new(Expr::Mul(
                                        Box::new(Expr::Number(NEG_ONE_BITS)),
                                        Box::new(func1("sin", args[0].duplicate())),
                                    )),
                                    Box::new(du),
                                ),
                            )
                        } else if name_is(name, "tan") {
                            DiffStep::Done(
                                Expr::Mul(
                                    Box::new(Expr::Div(
                                        Box::new(Expr::Number(ONE_BITS)),
                                        Box::new(Expr::Pow(
                                            Box::new(func1("cos", args[0].duplicate())),
                                            Box::new(Expr::Number(TWO_BITS)),
                                        )),
                                    )),
                                    Box::new(du),
                                ),
                            )
                        } else if name_is(name, "ln") {
                            DiffStep::Done(
                                Expr::Div(Box::new(du), Box::new(args[0].duplicate())),
                            )
                        } else if name_is(name, "sqrt") {
                            DiffStep::Done(
                                Expr::Div(
                                    Box::new(du),
                                    Box::new(Expr::Mul(
                                        Box::new(Expr::Number(TWO_BITS)),
                                        Box::new(func1("sqrt", args[0].duplicate())),
                                    )),
                                ),
                            )
                        } else {
                            DiffStep::Fail(DiffError::UnsupportedFunction(expr.duplicate()))
                        }
                    },
                    other => other,
                }
            }
        },
    }
}

} // verus!

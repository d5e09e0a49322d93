//! The laws the passes obey, stated over the models and proved once
//! for all inputs.

use vstd::prelude::*;

use crate::expr::ExprV;
use crate::numeric::{NumOp, NumTableV, BinKind, op_answer, is_zero, ZERO_BITS, ONE_BITS,
    NAN_BITS};
use crate::differentiate::{spec_differentiate, DiffResV};
use crate::simplify::{spec_simplify, spec_simplify_args, SimResV, SimErrorV,
    spec_fold_variadic};
use crate::eval::{spec_evaluate, lookup_name, EvalResV};

verus! {

/// The derivative of a literal is the literal zero, whatever the
/// variable and whatever the table holds.
pub proof fn lemma_derivative_of_number(c: u64, var: Seq<char>, t: NumTableV)
    ensures
        spec_differentiate(ExprV::Number(c), var, t) == DiffResV::Done(ExprV::Number(ZERO_BITS)),
{
}

/// The derivative of the differentiation variable is the literal one;
/// of any other variable, the literal zero.
pub proof fn lemma_derivative_of_variable(name: Seq<char>, var: Seq<char>, t: NumTableV)
    ensures
        name == var ==> spec_differentiate(ExprV::Variable(name), var, t) == DiffResV::Done(
            ExprV::Number(ONE_BITS),
        ),
        name != var ==> spec_differentiate(ExprV::Variable(name), var, t) == DiffResV::Done(
            ExprV::Number(ZERO_BITS),
        ),
{
}

/// The derivative of a sum is the sum of the derivatives, structurally
/// and unsimplified, whenever both sides differentiate.
pub proof fn lemma_derivative_of_sum(f: ExprV, g: ExprV, var: Seq<char>, t: NumTableV)
    requires
        spec_differentiate(f, var, t) is Done,
        spec_differentiate(g, var, t) is Done,
    ensures
        spec_differentiate(ExprV::Add(Box::new(f), Box::new(g)), var, t) == DiffResV::Done(
            ExprV::Add(
                Box::new(spec_differentiate(f, var, t)->Done_0),
                Box::new(spec_differentiate(g, var, t)->Done_0),
            ),
        ),
{
}

/// A finished variadic fold is a literal number.
proof fn lemma_fold_variadic_literal(k: BinKind, acc: u64, vals: Seq<u64>, t: NumTableV)
    requires
        spec_fold_variadic(k, acc, vals, t) is Done,
    ensures
        spec_fold_variadic(k, acc, vals, t)->Done_0 is Number,
    decreases vals.len(),
{
    if vals.len() > 0 {
        match op_answer(t, NumOp::Bin(k, acc, vals[0])) {
            Option::Some(v) => {
                lemma_fold_variadic_literal(k, v, vals.drop_first(), t);
            },
            Option::None => {},
        }
    }
}

/// Simplification is idempotent: what one pass produces, a second pass
/// leaves untouched, relative to one answer table.
pub proof fn lemma_simplify_idempotent(e: ExprV, t: NumTableV)
    requires
        spec_simplify(e, t) is Done,
    ensures
        spec_simplify(spec_simplify(e, t)->Done_0, t) == spec_simplify(e, t),
    decreases e,
{
    match e {
        ExprV::Number(_) => {},
        ExprV::Variable(_) => {},
        ExprV::Add(l, r) => {
            lemma_simplify_idempotent(*l, t);
            lemma_simplify_idempotent(*r, t);
        },
        ExprV::Sub(l, r) => {
            lemma_simplify_idempotent(*l, t);
            lemma_simplify_idempotent(*r, t);
        },
        ExprV::Mul(l, r) => {
            lemma_simplify_idempotent(*l, t);
            lemma_simplify_idempotent(*r, t);
        },
        ExprV::Div(l, r) => {
            lemma_simplify_idempotent(*l, t);
            lemma_simplify_idempotent(*r, t);
        },
        ExprV::Pow(l, r) => {
            lemma_simplify_idempotent(*l, t);
            lemma_simplify_idempotent(*r, t);
        },
        ExprV::Func(name, args) => {
            lemma_simplify_args_idempotent(args, t);
            let ss = spec_simplify_args(args, t)->Done_0;
            match crate::simplify::unary_kind(name) {
                Option::Some(_) => {},
                Option::None => {
                    if name == "max"@ && crate::simplify::all_numbers(ss) {
                        lemma_fold_variadic_literal(
                            BinKind::Max,
                            crate::numeric::NEG_INF_BITS,
                            crate::simplify::number_values(ss),
                            t,
                        );
                    } else if name == "min"@ && crate::simplify::all_numbers(ss) {
                        lemma_fold_variadic_literal(
                            BinKind::Min,
                            crate::numeric::INF_BITS,
                            crate::simplify::number_values(ss),
                            t,
                        );
                    }
                },
            }
        },
    }
}

/// Simplified argument lists are fixed points of argument
/// simplification.
pub proof fn lemma_simplify_args_idempotent(args: Seq<ExprV>, t: NumTableV)
    requires
        spec_simplify_args(args, t) is Done,
    ensures
        spec_simplify_args(spec_simplify_args(args, t)->Done_0, t) == spec_simplify_args(args, t),
    decreases args,
{
    let ss = spec_simplify_args(args, t)->Done_0;
    if args.len() == 0 {
        assert(ss =~= Seq::<ExprV>::empty());
    } else {
        lemma_simplify_idempotent(args[0], t);
        lemma_simplify_args_idempotent(args.drop_first(), t);
        let s0 = spec_simplify(args[0], t)->Done_0;
        let rest = spec_simplify_args(args.drop_first(), t)->Done_0;
        assert(ss == seq![s0] + rest);
        assert(ss[0] == s0);
        assert(ss.drop_first() =~= rest);
        assert(ss.len() > 0);
    }
}

/// Adding a literal zero on the right simplifies away: the table must
/// answer the fold of a literal sum with the left literal itself,
/// which real arithmetic does for every payload but the negative zero.
pub proof fn lemma_add_zero_identity(e: ExprV, t: NumTableV)
    requires
        spec_simplify(e, t) is Done,
        (spec_simplify(e, t)->Done_0 matches ExprV::Number(a) ==> op_answer(
            t,
            NumOp::Bin(BinKind::Add, a, ZERO_BITS),
        ) == Option::Some(a)),
    ensures
        spec_simplify(ExprV::Add(Box::new(e), Box::new(ExprV::Number(ZERO_BITS))), t)
            == spec_simplify(e, t),
{
    assert(spec_simplify(ExprV::Number(ZERO_BITS), t) == SimResV::Done(ExprV::Number(ZERO_BITS)));
}

/// Multiplying by a literal one on the right simplifies away, for
/// every simplified form but the negative-zero literal, which the zero
/// rule rewrites to the positive zero.
pub proof fn lemma_mul_one_identity(e: ExprV, t: NumTableV)
    requires
        spec_simplify(e, t) is Done,
        (spec_simplify(e, t)->Done_0 matches ExprV::Number(a) ==> !(is_zero(a) && a
            != ZERO_BITS)),
    ensures
        spec_simplify(ExprV::Mul(Box::new(e), Box::new(ExprV::Number(ONE_BITS))), t)
            == spec_simplify(e, t),
{
    assert(spec_simplify(ExprV::Number(ONE_BITS), t) == SimResV::Done(ExprV::Number(ONE_BITS)));
}

/// Multiplying by a literal zero on the right absorbs everything that
/// simplifies.
pub proof fn lemma_mul_zero_absorbs(e: ExprV, t: NumTableV)
    requires
        spec_simplify(e, t) is Done,
    ensures
        spec_simplify(ExprV::Mul(Box::new(e), Box::new(ExprV::Number(ZERO_BITS))), t)
            == SimResV::Done(ExprV::Number(ZERO_BITS)),
{
    assert(spec_simplify(ExprV::Number(ZERO_BITS), t) == SimResV::Done(ExprV::Number(ZERO_BITS)));
}

/// A literal zero denominator always fails with the division-by-zero
/// error, whatever the numerator simplified to.
pub proof fn lemma_divide_by_zero_fails(e: ExprV, t: NumTableV)
    requires
        spec_simplify(e, t) is Done,
    ensures
        spec_simplify(ExprV::Div(Box::new(e), Box::new(ExprV::Number(ZERO_BITS))), t)
            == SimResV::Fail(
            SimErrorV::DivisionByZero(
                ExprV::Div(
                    Box::new(spec_simplify(e, t)->Done_0),
                    Box::new(ExprV::Number(ZERO_BITS)),
                ),
            ),
        ),
{
    assert(spec_simplify(ExprV::Number(ZERO_BITS), t) == SimResV::Done(ExprV::Number(ZERO_BITS)));
}

/// An unbound variable evaluates softly: the not-a-number payload and
/// one diagnostic naming the variable, never a failure.
pub proof fn lemma_unbound_variable_is_soft(
    name: Seq<char>,
    b: Seq<(Seq<char>, u64)>,
    t: NumTableV,
)
    requires
        lookup_name(b, name) is None,
    ensures
        spec_evaluate(ExprV::Variable(name), b, t) == EvalResV::Done(NAN_BITS, seq![name]),
{
}

/// Simplifying an argument list preserves its length.
pub proof fn lemma_simplify_args_length(args: Seq<ExprV>, t: NumTableV)
    requires
        spec_simplify_args(args, t) is Done,
    ensures
        spec_simplify_args(args, t)->Done_0.len() == args.len(),
    decreases args,
{
    if args.len() > 0 {
        match spec_simplify(args[0], t) {
            SimResV::Done(_) => {
                lemma_simplify_args_length(args.drop_first(), t);
            },
            _ => {},
        }
    }
}

/// Simplification never changes a call's name or arity: a call either
/// folds to a literal or is rebuilt with its name and as many
/// simplified arguments as it had.
pub proof fn lemma_simplify_preserves_call_shape(name: Seq<char>, args: Seq<ExprV>, t: NumTableV)
    requires
        spec_simplify(ExprV::Func(name, args), t) is Done,
    ensures
        ({
            let s = spec_simplify(ExprV::Func(name, args), t)->Done_0;
            s is Number || (s matches ExprV::Func(rebuilt_name, rebuilt_args)
                && rebuilt_name == name && rebuilt_args.len() == args.len())
        }),
{
    lemma_simplify_args_length(args, t);
    let ss = spec_simplify_args(args, t)->Done_0;
    match crate::simplify::unary_kind(name) {
        Option::Some(_) => {},
        Option::None => {
            if name == "max"@ && crate::simplify::all_numbers(ss) {
                lemma_fold_variadic_literal(
                    BinKind::Max,
                    crate::numeric::NEG_INF_BITS,
                    crate::simplify::number_values(ss),
                    t,
                );
            } else if name == "min"@ && crate::simplify::all_numbers(ss) {
                lemma_fold_variadic_literal(
                    BinKind::Min,
                    crate::numeric::INF_BITS,
                    crate::simplify::number_values(ss),
                    t,
                );
            }
        },
    }
}

/// An extremum fold only requests answers the table does not have.
proof fn lemma_fold_variadic_requests_missing(k: BinKind, acc: u64, vals: Seq<u64>, t: NumTableV)
    ensures
        spec_fold_variadic(k, acc, vals, t) matches SimResV::Need(op) ==> op_answer(t, op)
            is None,
    decreases vals.len(),
{
    if vals.len() > 0 {
        match op_answer(t, NumOp::Bin(k, acc, vals[0])) {
            Option::Some(v) => {
                lemma_fold_variadic_requests_missing(k, v, vals.drop_first(), t);
            },
            Option::None => {},
        }
    }
}

/// The simplifier only requests answers the table does not have: a
/// caller that records each reported request makes progress.
pub proof fn lemma_simplify_requests_missing(e: ExprV, t: NumTableV)
    ensures
        spec_simplify(e, t) matches SimResV::Need(op) ==> op_answer(t, op) is None,
    decreases e,
{
    match e {
        ExprV::Number(_) => {},
        ExprV::Variable(_) => {},
        ExprV::Add(l, r) => {
            lemma_simplify_requests_missing(*l, t);
            lemma_simplify_requests_missing(*r, t);
        },
        ExprV::Sub(l, r) => {
            lemma_simplify_requests_missing(*l, t);
            lemma_simplify_requests_missing(*r, t);
        },
        ExprV::Mul(l, r) => {
            lemma_simplify_requests_missing(*l, t);
            lemma_simplify_requests_missing(*r, t);
        },
        ExprV::Div(l, r) => {
            lemma_simplify_requests_missing(*l, t);
            lemma_simplify_requests_missing(*r, t);
        },
        ExprV::Pow(l, r) => {
            lemma_simplify_requests_missing(*l, t);
            lemma_simplify_requests_missing(*r, t);
        },
        ExprV::Func(name, args) => {
            lemma_simplify_args_requests_missing(args, t);
            match spec_simplify_args(args, t) {
                crate::simplify::ArgsResV::Done(ss) => {
                    if name == "max"@ && crate::simplify::all_numbers(ss) {
                        lemma_fold_variadic_requests_missing(
                            BinKind::Max,
                            crate::numeric::NEG_INF_BITS,
                            crate::simplify::number_values(ss),
                            t,
                        );
                    } else if name == "min"@ && crate::simplify::all_numbers(ss) {
                        lemma_fold_variadic_requests_missing(
                            BinKind::Min,
                            crate::numeric::INF_BITS,
                            crate::simplify::number_values(ss),
                            t,
                        );
                    }
                },
                _ => {},
            }
        },
    }
}

/// Argument simplification only requests answers the table does not
/// have.
pub proof fn lemma_simplify_args_requests_missing(args: Seq<ExprV>, t: NumTableV)
    ensures
        spec_simplify_args(args, t) matches crate::simplify::ArgsResV::Need(op) ==> op_answer(
            t,
            op,
        ) is None,
    decreases args,
{
    if args.len() > 0 {
        lemma_simplify_requests_missing(args[0], t);
        lemma_simplify_args_requests_missing(args.drop_first(), t);
    }
}

/// The differentiator only requests answers the table does not have.
pub proof fn lemma_differentiate_requests_missing(e: ExprV, var: Seq<char>, t: NumTableV)
    ensures
        spec_differentiate(e, var, t) matches DiffResV::Need(op) ==> op_answer(t, op) is None,
    decreases e,
{
    match e {
        ExprV::Number(_) => {},
        ExprV::Variable(_) => {},
        ExprV::Add(l, r) => {
            lemma_differentiate_requests_missing(*l, var, t);
            lemma_differentiate_requests_missing(*r, var, t);
        },
        ExprV::Sub(l, r) => {
            lemma_differentiate_requests_missing(*l, var, t);
            lemma_differentiate_requests_missing(*r, var, t);
        },
        ExprV::Mul(l, r) => {
            lemma_differentiate_requests_missing(*l, var, t);
            lemma_differentiate_requests_missing(*r, var, t);
        },
        ExprV::Div(l, r) => {
            lemma_differentiate_requests_missing(*l, var, t);
            lemma_differentiate_requests_missing(*r, var, t);
        },
        ExprV::Pow(l, r) => {
            lemma_differentiate_requests_missing(*l, var, t);
            lemma_differentiate_requests_missing(*r, var, t);
        },
        ExprV::Func(_, args) => {
            if args.len() == 1 {
                lemma_differentiate_requests_missing(args[0], var, t);
            }
        },
    }
}

} // verus!

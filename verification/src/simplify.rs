//! Canonicalization: one bottom-up rewrite pass.
//!
//! Children (and all call arguments) are simplified first; then exactly
//! one table of local rules is applied to the already-simplified
//! children, first match wins. The pass is not iterated to a fixed
//! point. Constant folds are arithmetic, so they are requested from the
//! caller's answer table.

use vstd::prelude::*;

use crate::expr::{Expr, ExprV, name_is};
use crate::numeric::{NumOp, NumTable, NumTableV, BinKind, FuncKind, op_answer, is_zero, is_one,
    bits_are_zero, bits_are_one, ZERO_BITS, ONE_BITS, NEG_INF_BITS, INF_BITS};

verus! {

/// The one failure of the pass: a literal zero in a denominator.
/// The offending division, with both sides already simplified, is
/// carried for rendering in diagnostics.
#[derive(Debug, PartialEq)]
pub enum SimplifyError {
    DivisionByZero(Expr),
}

/// One round of simplification: the canonical form, the failure, or a
/// request for one arithmetic answer.
#[derive(Debug, PartialEq)]
pub enum SimStep {
    Done(Expr),
    Fail(SimplifyError),
    Need(NumOp),
}

/// Model of [`SimplifyError`].
pub ghost enum SimErrorV {
    DivisionByZero(ExprV),
}

/// Model of [`SimStep`].
pub ghost enum SimResV {
    Done(ExprV),
    Fail(SimErrorV),
    Need(NumOp),
}

/// Outcome of simplifying a sequence of call arguments.
pub ghost enum ArgsResV {
    Done(Seq<ExprV>),
    Fail(SimErrorV),
    Need(NumOp),
}

impl View for SimplifyError {
    type V = SimErrorV;

    open spec fn view(&self) -> SimErrorV {
        match self {
            SimplifyError::DivisionByZero(e) => SimErrorV::DivisionByZero(e@),
        }
    }
}

impl View for SimStep {
    type V = SimResV;

    open spec fn view(&self) -> SimResV {
        match self {
            SimStep::Done(e) => SimResV::Done(e@),
            SimStep::Fail(e) => SimResV::Fail(e@),
            SimStep::Need(op) => SimResV::Need(*op),
        }
    }
}

/// The literal payload of a number node, if the node is one.
pub open spec fn as_number(e: ExprV) -> Option<u64> {
    match e {
        ExprV::Number(n) => Option::Some(n),
        _ => Option::None,
    }
}

/// Fold two literals with a binary operation, if the table answers.
pub open spec fn spec_fold2(k: BinKind, a: u64, b: u64, t: NumTableV) -> SimResV {
    match op_answer(t, NumOp::Bin(k, a, b)) {
        Option::Some(v) => SimResV::Done(ExprV::Number(v)),
        Option::None => SimResV::Need(NumOp::Bin(k, a, b)),
    }
}

/// Fold a literal under a unary function, if the table answers.
pub open spec fn spec_fold1(k: FuncKind, n: u64, t: NumTableV) -> SimResV {
    match op_answer(t, NumOp::Apply(k, n)) {
        Option::Some(v) => SimResV::Done(ExprV::Number(v)),
        Option::None => SimResV::Need(NumOp::Apply(k, n)),
    }
}

/// The sum rules: fold two literals, drop a literal zero on either
/// side, otherwise rebuild.
pub open spec fn spec_add_rule(ls: ExprV, rs: ExprV, t: NumTableV) -> SimResV {
    match as_number(ls) {
        Option::Some(a) => match as_number(rs) {
            Option::Some(b) => spec_fold2(BinKind::Add, a, b, t),
            Option::None => if is_zero(a) {
                SimResV::Done(rs)
            } else {
                SimResV::Done(ExprV::Add(Box::new(ls), Box::new(rs)))
            },
        },
        Option::None => match as_number(rs) {
            Option::Some(b) => if is_zero(b) {
                SimResV::Done(ls)
            } else {
                SimResV::Done(ExprV::Add(Box::new(ls), Box::new(rs)))
            },
            Option::None => SimResV::Done(ExprV::Add(Box::new(ls), Box::new(rs))),
        },
    }
}

/// The difference rules: fold two literals, drop a literal zero on the
/// right, otherwise rebuild. A zero on the left is deliberately kept.
pub open spec fn spec_sub_rule(ls: ExprV, rs: ExprV, t: NumTableV) -> SimResV {
    match as_number(ls) {
        Option::Some(a) => match as_number(rs) {
            Option::Some(b) => spec_fold2(BinKind::Sub, a, b, t),
            Option::None => SimResV::Done(ExprV::Sub(Box::new(ls), Box::new(rs))),
        },
        Option::None => match as_number(rs) {
            Option::Some(b) => if is_zero(b) {
                SimResV::Done(ls)
            } else {
                SimResV::Done(ExprV::Sub(Box::new(ls), Box::new(rs)))
            },
            Option::None => SimResV::Done(ExprV::Sub(Box::new(ls), Box::new(rs))),
        },
    }
}

/// The product rules, in order: a literal zero absorbs everything, a
/// literal one disappears, two literals fold, otherwise rebuild. The
/// zero rule coming first decides `0 * 1`.
pub open spec fn spec_mul_rule(ls: ExprV, rs: ExprV, t: NumTableV) -> SimResV {
    match as_number(ls) {
        Option::Some(a) => match as_number(rs) {
            Option::Some(b) => if is_zero(a) || is_zero(b) {
                SimResV::Done(ExprV::Number(ZERO_BITS))
            } else if is_one(a) {
                SimResV::Done(rs)
            } else if is_one(b) {
                SimResV::Done(ls)
            } else {
                spec_fold2(BinKind::Mul, a, b, t)
            },
            Option::None => if is_zero(a) {
                SimResV::Done(ExprV::Number(ZERO_BITS))
            } else if is_one(a) {
                SimResV::Done(rs)
            } else {
                SimResV::Done(ExprV::Mul(Box::new(ls), Box::new(rs)))
            },
        },
        Option::None => match as_number(rs) {
            Option::Some(b) => if is_zero(b) {
                SimResV::Done(ExprV::Number(ZERO_BITS))
            } else if is_one(b) {
                SimResV::Done(ls)
            } else {
                SimResV::Done(ExprV::Mul(Box::new(ls), Box::new(rs)))
            },
            Option::None => SimResV::Done(ExprV::Mul(Box::new(ls), Box::new(rs))),
        },
    }
}

/// The quotient rules, in order: a literal zero denominator fails, even
/// under a zero numerator; a literal zero numerator collapses; a
/// literal one denominator disappears; two literals fold; otherwise
/// rebuild.
pub open spec fn spec_div_rule(ls: ExprV, rs: ExprV, t: NumTableV) -> SimResV {
    match as_number(rs) {
        Option::Some(b) => if is_zero(b) {
            SimResV::Fail(SimErrorV::DivisionByZero(ExprV::Div(Box::new(ls), Box::new(rs))))
        } else {
            match as_number(ls) {
                Option::Some(a) => if is_zero(a) {
                    SimResV::Done(ExprV::Number(ZERO_BITS))
                } else if is_one(b) {
                    SimResV::Done(ls)
                } else {
                    spec_fold2(BinKind::Div, a, b, t)
                },
                Option::None => if is_one(b) {
                    SimResV::Done(ls)
                } else {
                    SimResV::Done(ExprV::Div(Box::new(ls), Box::new(rs)))
                },
            }
        },
        Option::None => match as_number(ls) {
            Option::Some(a) => if is_zero(a) {
                SimResV::Done(ExprV::Number(ZERO_BITS))
            } else {
                SimResV::Done(ExprV::Div(Box::new(ls), Box::new(rs)))
            },
            Option::None => SimResV::Done(ExprV::Div(Box::new(ls), Box::new(rs))),
        },
    }
}

/// The power rules, in order: a literal zero exponent gives one, even
/// on a zero base; a literal one exponent gives the base; two literals
/// fold; otherwise rebuild.
pub open spec fn spec_pow_rule(ls: ExprV, rs: ExprV, t: NumTableV) -> SimResV {
    match as_number(rs) {
        Option::Some(b) => if is_zero(b) {
            SimResV::Done(ExprV::Number(ONE_BITS))
        } else if is_one(b) {
            SimResV::Done(ls)
        } else {
            match as_number(ls) {
                Option::Some(a) => spec_fold2(BinKind::Pow, a, b, t),
                Option::None => SimResV::Done(ExprV::Pow(Box::new(ls), Box::new(rs))),
            }
        },
        Option::None => SimResV::Done(ExprV::Pow(Box::new(ls), Box::new(rs))),
    }
}

/// The unary function a call name folds through, if any.
pub open spec fn unary_kind(name: Seq<char>) -> Option<FuncKind> {
    if name == "sin"@ {
        Option::Some(FuncKind::Sin)
    } else if name == "cos"@ {
        Option::Some(FuncKind::Cos)
    } else if name == "tan"@ {
        Option::Some(FuncKind::Tan)
    } else if name == "ln"@ {
        Option::Some(FuncKind::Ln)
    } else if name == "log10"@ {
        Option::Some(FuncKind::Log10)
    } else if name == "sqrt"@ {
        Option::Some(FuncKind::Sqrt)
    } else {
        Option::None
    }
}

/// Whether every argument is a literal number.
pub open spec fn all_numbers(vs: Seq<ExprV>) -> bool {
    forall|i: int| 0 <= i < vs.len() ==> vs[i] is Number
}

/// The payloads of a sequence of literal numbers.
pub open spec fn number_values(vs: Seq<ExprV>) -> Seq<u64> {
    Seq::new(vs.len(), |i: int| vs[i]->Number_0)
}

/// Left fold of a variadic extremum over literal payloads, starting
/// from the operation's identity.
pub open spec fn spec_fold_variadic(k: BinKind, acc: u64, vals: Seq<u64>, t: NumTableV) -> SimResV
    decreases vals.len(),
{
    if vals.len() == 0 {
        SimResV::Done(ExprV::Number(acc))
    } else {
        match op_answer(t, NumOp::Bin(k, acc, vals[0])) {
            Option::None => SimResV::Need(NumOp::Bin(k, acc, vals[0])),
            Option::Some(v) => spec_fold_variadic(k, v, vals.drop_first(), t),
        }
    }
}

/// The call rules, applied to already-simplified arguments: a known
/// unary name over a single literal folds; an extremum over all
/// literals folds from its identity; anything else is rebuilt, never an
/// error.
pub open spec fn spec_func_rule(name: Seq<char>, ss: Seq<ExprV>, t: NumTableV) -> SimResV {
    match unary_kind(name) {
        Option::Some(k) => {
            if ss.len() == 1 && ss[0] is Number {
                spec_fold1(k, ss[0]->Number_0, t)
            } else {
                SimResV::Done(ExprV::Func(name, ss))
            }
        },
        Option::None => {
            if name == "max"@ && all_numbers(ss) {
                spec_fold_variadic(BinKind::Max, NEG_INF_BITS, number_values(ss), t)
            } else if name == "min"@ && all_numbers(ss) {
                spec_fold_variadic(BinKind::Min, INF_BITS, number_values(ss), t)
            } else {
                SimResV::Done(ExprV::Func(name, ss))
            }
        },
    }
}

/// The canonical form of `e`, relative to the arithmetic answers
/// recorded in `t`: children first, then one rule table per node.
pub open spec fn spec_simplify(e: ExprV, t: NumTableV) -> SimResV
    decreases e,
{
    match e {
        ExprV::Number(_) => SimResV::Done(e),
        ExprV::Variable(_) => SimResV::Done(e),
        ExprV::Add(l, r) => match spec_simplify(*l, t) {
            SimResV::Done(ls) => match spec_simplify(*r, t) {
                SimResV::Done(rs) => spec_add_rule(ls, rs, t),
                other => other,
            },
            other => other,
        },
        ExprV::Sub(l, r) => match spec_simplify(*l, t) {
            SimResV::Done(ls) => match spec_simplify(*r, t) {
                SimResV::Done(rs) => spec_sub_rule(ls, rs, t),
                other => other,
            },
            other => other,
        },
        ExprV::Mul(l, r) => match spec_simplify(*l, t) {
            SimResV::Done(ls) => match spec_simplify(*r, t) {
                SimResV::Done(rs) => spec_mul_rule(ls, rs, t),
                other => other,
            },
            other => other,
        },
        ExprV::Div(l, r) => match spec_simplify(*l, t) {
            SimResV::Done(ls) => match spec_simplify(*r, t) {
                SimResV::Done(rs) => spec_div_rule(ls, rs, t),
                other => other,
            },
            other => other,
        },
        ExprV::Pow(l, r) => match spec_simplify(*l, t) {
            SimResV::Done(ls) => match spec_simplify(*r, t) {
                SimResV::Done(rs) => spec_pow_rule(ls, rs, t),
                other => other,
            },
            other => other,
        },
        ExprV::Func(name, args) => match spec_simplify_args(args, t) {
            ArgsResV::Done(ss) => spec_func_rule(name, ss, t),
            ArgsResV::Fail(e2) => SimResV::Fail(e2),
            ArgsResV::Need(op) => SimResV::Need(op),
        },
    }
}

/// Simplify a sequence of call arguments in order.
pub open spec fn spec_simplify_args(args: Seq<ExprV>, t: NumTableV) -> ArgsResV
    decreases args,
{
    if args.len() == 0 {
        ArgsResV::Done(Seq::empty())
    } else {
        match spec_simplify(args[0], t) {
            SimResV::Done(s) => match spec_simplify_args(args.drop_first(), t) {
                ArgsResV::Done(rest) => ArgsResV::Done(seq![s] + rest),
                other => other,
            },
            SimResV::Fail(e) => ArgsResV::Fail(e),
            SimResV::Need(op) => ArgsResV::Need(op),
        }
    }
}

fn fold2(k: BinKind, a: u64, b: u64, nums: &NumTable) -> (r: SimStep)
    ensures
        r@ == spec_fold2(k, a, b, nums@),
{
    let op = NumOp::Bin(k, a, b);
    match nums.op_lookup(op) {
        Some(v) => SimStep::Done(Expr::Number(v)),
        None => SimStep::Need(op),
    }
}

fn fold1(k: FuncKind, n: u64, nums: &NumTable) -> (r: SimStep)
    ensures
        r@ == spec_fold1(k, n, nums@),
{
    let op = NumOp::Apply(k, n);
    match nums.op_lookup(op) {
        Some(v) => SimStep::Done(Expr::Number(v)),
        None => SimStep::Need(op),
    }
}

/// The literal payload of a node, if it is a number.
fn payload_of(e: &Expr) -> (r: Option<u64>)
    ensures
        r == as_number(e@),
{
    match e {
        Expr::Number(n) => Some(*n),
        _ => None,
    }
}

fn apply_add_rule(ls: Expr, rs: Expr, nums: &NumTable) -> (r: SimStep)
    ensures
        r@ == spec_add_rule(ls@, rs@, nums@),
{
    let ls_num = payload_of(&ls);
    let rs_num = payload_of(&rs);
    match ls_num {
        Some(a) => match rs_num {
            Some(b) => fold2(BinKind::Add, a, b, nums),
            None => if bits_are_zero(a) {
                SimStep::Done(rs)
            } else {
                SimStep::Done(Expr::Add(Box::new(ls), Box::new(rs)))
            },
        },
        None => match rs_num {
            Some(b) => if bits_are_zero(b) {
                SimStep::Done(ls)
            } else {
                SimStep::Done(Expr::Add(Box::new(ls), Box::new(rs)))
            },
            None => SimStep::Done(Expr::Add(Box::new(ls), Box::new(rs))),
        },
    }
}

fn apply_sub_rule(ls: Expr, rs: Expr, nums: &NumTable) -> (r: SimStep)
    ensures
        r@ == spec_sub_rule(ls@, rs@, nums@),
{
    let ls_num = payload_of(&ls);
    let rs_num = payload_of(&rs);
    match ls_num {
        Some(a) => match rs_num {
            Some(b) => fold2(BinKind::Sub, a, b, nums),
            None => SimStep::Done(Expr::Sub(Box::new(ls), Box::new(rs))),
        },
        None => match rs_num {
            Some(b) => if bits_are_zero(b) {
                SimStep::Done(ls)
            } else {
                SimStep::Done(Expr::Sub(Box::new(ls), Box::new(rs)))
            },
            None => SimStep::Done(Expr::Sub(Box::new(ls), Box::new(rs))),
        },
    }
}

fn apply_mul_rule(ls: Expr, rs: Expr, nums: &NumTable) -> (r: SimStep)
    ensures
        r@ == spec_mul_rule(ls@, rs@, nums@),
{
    let ls_num = payload_of(&ls);
    let rs_num = payload_of(&rs);
    match ls_num {
        Some(a) => match rs_num {
            Some(b) => if bits_are_zero(a) || bits_are_zero(b) {
                SimStep::Done(Expr::Number(ZERO_BITS))
            } else if bits_are_one(a) {
                SimStep::Done(rs)
            } else if bits_are_one(b) {
                SimStep::Done(ls)
            } else {
                fold2(BinKind::Mul, a, b, nums)
            },
            None => if bits_are_zero(a) {
                SimStep::Done(Expr::Number(ZERO_BITS))
            } else if bits_are_one(a) {
                SimStep::Done(rs)
            } else {
                SimStep::Done(Expr::Mul(Box::new(ls), Box::new(rs)))
            },
        },
        None => match rs_num {
            Some(b) => if bits_are_zero(b) {
                SimStep::Done(Expr::Number(ZERO_BITS))
            } else if bits_are_one(b) {
                SimStep::Done(ls)
            } else {
                SimStep::Done(Expr::Mul(Box::new(ls), Box::new(rs)))
            },
            None => SimStep::Done(Expr::Mul(Box::new(ls), Box::new(rs))),
        },
    }
}

fn apply_div_rule(ls: Expr, rs: Expr, nums: &NumTable) -> (r: SimStep)
    ensures
        r@ == spec_div_rule(ls@, rs@, nums@),
{
    let ls_num = payload_of(&ls);
    let rs_num = payload_of(&rs);
    match rs_num {
        Some(b) => if bits_are_zero(b) {
            SimStep::Fail(SimplifyError::DivisionByZero(Expr::Div(Box::new(ls), Box::new(rs))))
        } else {
            match ls_num {
                Some(a) => if bits_are_zero(a) {
                    SimStep::Done(Expr::Number(ZERO_BITS))
                } else if bits_are_one(b) {
                    SimStep::Done(ls)
                } else {
                    fold2(BinKind::Div, a, b, nums)
                },
                None => if bits_are_one(b) {
                    SimStep::Done(ls)
                } else {
                    SimStep::Done(Expr::Div(Box::new(ls), Box::new(rs)))
                },
            }
        },
        None => match ls_num {
            Some(a) => if bits_are_zero(a) {
                SimStep::Done(Expr::Number(ZERO_BITS))
            } else {
                SimStep::Done(Expr::Div(Box::new(ls), Box::new(rs)))
            },
            None => SimStep::Done(Expr::Div(Box::new(ls), Box::new(rs))),
        },
    }
}

fn apply_pow_rule(ls: Expr, rs: Expr, nums: &NumTable) -> (r: SimStep)
    ensures
        r@ == spec_pow_rule(ls@, rs@, nums@),
{
    let ls_num = payload_of(&ls);
    let rs_num = payload_of(&rs);
    match rs_num {
        Some(b) => if bits_are_zero(b) {
            SimStep::Done(Expr::Number(ONE_BITS))
        } else if bits_are_one(b) {
            SimStep::Done(ls)
        } else {
            match ls_num {
                Some(a) => fold2(BinKind::Pow, a, b, nums),
                None => SimStep::Done(Expr::Pow(Box::new(ls), Box::new(rs))),
            }
        },
        None => SimStep::Done(Expr::Pow(Box::new(ls), Box::new(rs))),
    }
}

/// The payloads of the arguments, if every one is a literal number.
#[verifier::loop_isolation(false)]
fn literal_payloads(items: &Vec<Expr>) -> (r: Option<Vec<u64>>)
    ensures
        match r {
            Some(vals) => all_numbers(crate::expr::views_of(items@)) && vals@
                == number_values(crate::expr::views_of(items@)),
            None => !all_numbers(crate::expr::views_of(items@)),
        },
{
    proof {
        crate::expr::lemma_views_of_index(items@);
    }
    let ghost vs = crate::expr::views_of(items@);
    let mut vals: Vec<u64> = Vec::new();
    let mut i: usize = 0;
    while i < items.len()
        invariant
            i <= items.len(),
            vals@.len() == i as int,
            forall|j: int| 0 <= j < i ==> (#[trigger] vs[j]) is Number,
            forall|j: int| 0 <= j < i ==> #[trigger] vals@[j] == vs[j]->Number_0,
        decreases items.len() - i,
    {
        match &items[i] {
            Expr::Number(n) => {
                proof {
                    assert(vs[i as int] == ExprV::Number(*n));
                }
                vals.push(*n);
            },
            _ => {
                proof {
                    assert(!(vs[i as int] is Number));
                }
                return None;
            },
        }
        i = i + 1;
    }
    proof {
        assert(vals@ =~= number_values(vs));
    }
    Some(vals)
}

/// Left fold of an extremum over recorded answers.
#[verifier::loop_isolation(false)]
fn fold_variadic(k: BinKind, start: u64, vals: &Vec<u64>, nums: &NumTable) -> (r: SimStep)
    ensures
        r@ == spec_fold_variadic(k, start, vals@, nums@),
{
    let mut acc: u64 = start;
    let mut i: usize = 0;
    proof {
        assert(vals@.skip(0) =~= vals@);
    }
    while i < vals.len()
        invariant
            i <= vals.len(),
            spec_fold_variadic(k, start, vals@, nums@) == spec_fold_variadic(
                k,
                acc,
                vals@.skip(i as int),
                nums@,
            ),
        decreases vals.len() - i,
    {
        proof {
            assert(vals@.skip(i as int)[0] == vals@[i as int]);
            assert(vals@.skip(i as int).drop_first() =~= vals@.skip(i as int + 1));
        }
        let op = NumOp::Bin(k, acc, vals[i]);
        match nums.op_lookup(op) {
            None => {
                return SimStep::Need(op);
            },
            Some(v) => {
                acc = v;
            },
        }
        i = i + 1;
    }
    proof {
        assert(vals@.skip(vals@.len() as int) =~= Seq::<u64>::empty());
    }
    SimStep::Done(Expr::Number(acc))
}

/// Simplify `expr` into its canonical form.
///
/// The result is the rewritten tree, the division-by-zero failure, or a
/// request for one arithmetic answer to be recorded in `nums` before
/// calling again.
#[verifier::loop_isolation(false)]
#[verifier::rlimit(60)]
pub fn simplify(expr: &Expr, nums: &NumTable) -> (r: SimStep)
    ensures
        r@ == spec_simplify(expr@, nums@),
    decreases expr,
{
    proof {
        reveal_with_fuel(crate::expr::view_of, 2);
    }
    match expr {
        Expr::Number(_) => SimStep::Done(expr.duplicate()),
        Expr::Variable(_) => SimStep::Done(expr.duplicate()),
        Expr::Add(l, r) => match simplify(l, nums) {
            SimStep::Done(ls) => match simplify(r, nums) {
                SimStep::Done(rs) => apply_add_rule(ls, rs, nums),
                other => other,
            },
            other => other,
        },
        Expr::Sub(l, r) => match simplify(l, nums) {
            SimStep::Done(ls) => match simplify(r, nums) {
                SimStep::Done(rs) => apply_sub_rule(ls, rs, nums),
                other => other,
            },
            other => other,
        },
        Expr::Mul(l, r) => match simplify(l, nums) {
            SimStep::Done(ls) => match simplify(r, nums) {
                SimStep::Done(rs) => apply_mul_rule(ls, rs, nums),
                other => other,
            },
            other => other,
        },
        Expr::Div(l, r) => match simplify(l, nums) {
            SimStep::Done(ls) => match simplify(r, nums) {
                SimStep::Done(rs) => apply_div_rule(ls, rs, nums),
                other => other,
            },
            other => other,
        },
        Expr::Pow(l, r) => match simplify(l, nums) {
            SimStep::Done(ls) => match simplify(r, nums) {
                SimStep::Done(rs) => apply_pow_rule(ls, rs, nums),
                other => other,
            },
            other => other,
        },
        Expr::Func(name, args) => {
            proof {
                crate::expr::lemma_views_of_index(args@);
            }
            let ghost vs = crate::expr::views_of(args@);
            let mut out: Vec<Expr> = Vec::new();
            let mut i: usize = 0;
            proof {
                assert(vs.skip(0) =~= vs);
                assert(crate::expr::views_of(Seq::<Expr>::empty()) + vs =~= vs);
            }
            while i < args.len()
                invariant
                    i <= args.len(),
                    out@.len() == i as int,
                    (match spec_simplify_args(vs.skip(i as int), nums@) {
                        ArgsResV::Done(rest) => spec_simplify_args(vs, nums@) == ArgsResV::Done(
                            crate::expr::views_of(out@) + rest,
                        ),
                        ArgsResV::Fail(f) => spec_simplify_args(vs, nums@) == ArgsResV::Fail(f),
                        ArgsResV::Need(op) => spec_simplify_args(vs, nums@) == ArgsResV::Need(op),
                    }),
                decreases args.len() - i,
            {
                proof {
                    assert(decreases_to!(*expr => args@[i as int]));
                    assert(vs.skip(i as int)[0] == vs[i as int]);
                    assert(vs.skip(i as int).drop_first() =~= vs.skip(i as int + 1));
                }
                let ghost out_before = out@;
                match simplify(&args[i], nums) {
                    SimStep::Done(s) => {
                        proof {
                            crate::expr::lemma_views_of_push(out_before, s);
                            match spec_simplify_args(vs.skip(i as int + 1), nums@) {
                                ArgsResV::Done(rest) => {
                                    assert(crate::expr::views_of(out_before) + (seq![s@] + rest)
                                        =~= (crate::expr::views_of(out_before) + seq![s@]) + rest);
                                },
                                _ => {},
                            }
                        }
                        out.push(s);
                    },
                    SimStep::Fail(e) => {
                        return SimStep::Fail(e);
                    },
                    SimStep::Need(op) => {
                        return SimStep::Need(op);
                    },
                }
                i = i + 1;
            }
            proof {
                crate::expr::lemma_views_of_index(out@);
                assert(vs.skip(vs.len() as int) =~= Seq::<ExprV>::empty());
                assert(crate::expr::views_of(out@) + Seq::<ExprV>::empty() =~= crate::expr::views_of(
                    out@,
                ));
                assert(spec_simplify_args(vs, nums@) == ArgsResV::Done(crate::expr::views_of(out@)));
            }
            let kind: Option<FuncKind> = if name_is(name, "sin") {
                Some(FuncKind::Sin)
            } else if name_is(name, "cos") {
                Some(FuncKind::Cos)
            } else if name_is(name, "tan") {
                Some(FuncKind::Tan)
            } else if name_is(name, "ln") {
                Some(FuncKind::Ln)
            } else if name_is(name, "log10") {
                Some(FuncKind::Log10)
            } else if name_is(name, "sqrt") {
                Some(FuncKind::Sqrt)
            } else {
                None
            };
            match kind {
                Some(k) => {
                    if out.len() == 1 {
                        let payload = payload_of(&out[0]);
                        match payload {
                            Some(n) => fold1(k, n, nums),
                            None => SimStep::Done(Expr::Func(name.clone(), out)),
                        }
                    } else {
                        SimStep::Done(Expr::Func(name.clone(), out))
                    }
                },
                None => {
                    if name_is(name, "max") {
                        match literal_payloads(&out) {
                            Some(vals) => fold_variadic(BinKind::Max, NEG_INF_BITS, &vals, nums),
                            None => SimStep::Done(Expr::Func(name.clone(), out)),
                        }
                    } else if name_is(name, "min") {
                        match literal_payloads(&out) {
                            Some(vals) => fold_variadic(BinKind::Min, INF_BITS, &vals, nums),
                            None => SimStep::Done(Expr::Func(name.clone(), out)),
                        }
                    } else {
                        SimStep::Done(Expr::Func(name.clone(), out))
                    }
                },
            }
        },
    }
}

} // verus!

//! Numeric evaluation under a set of variable bindings.
//!
//! The dispatch mirrors the differentiator and the simplifier. An
//! unbound variable is a soft outcome: the value is the not-a-number
//! payload and a diagnostic naming the variable is returned alongside,
//! in traversal order. Every arithmetic combination is requested from
//! the caller's answer table.

use vstd::prelude::*;

use crate::expr::{Expr, ExprV, name_is};
use crate::numeric::{NumOp, NumTable, NumTableV, BinKind, FuncKind, op_answer, NAN_BITS,
    INF_BITS, NEG_INF_BITS};
use crate::simplify::unary_kind;

verus! {

/// The variable bindings an evaluation runs under. The latest value
/// recorded for a name wins.
pub struct Bindings {
    entries: Vec<(String, u64)>,
}

/// The latest value recorded for `name`, if any.
pub open spec fn lookup_name(s: Seq<(Seq<char>, u64)>, name: Seq<char>) -> Option<u64>
    decreases s.len(),
{
    if s.len() == 0 {
        Option::None
    } else if s.last().0 == name {
        Option::Some(s.last().1)
    } else {
        lookup_name(s.drop_last(), name)
    }
}

impl View for Bindings {
    type V = Seq<(Seq<char>, u64)>;

    closed spec fn view(&self) -> Seq<(Seq<char>, u64)> {
        self.entries@.map_values(|p: (String, u64)| (p.0@, p.1))
    }
}

impl Bindings {
    /// No variables bound.
    pub fn new() -> (b: Bindings)
        ensures
            b@ == Seq::<(Seq<char>, u64)>::empty(),
    {
        let b = Bindings { entries: Vec::new() };
        proof {
            assert(b@ =~= Seq::<(Seq<char>, u64)>::empty());
        }
        b
    }

    /// Bind `name` to `bits`, shadowing any earlier binding.
    pub fn set(&mut self, name: String, bits: u64)
        ensures
            final(self)@ == old(self)@.push((name@, bits)),
    {
        let ghost before = self@;
        self.entries.push((name, bits));
        proof {
            assert(self@ =~= before.push((self.entries@.last().0@, bits)));
        }
    }

    /// The value bound to `name`, if any.
    #[verifier::loop_isolation(false)]
    pub fn get(&self, name: &String) -> (r: Option<u64>)
        ensures
            r == lookup_name(self@, name@),
    {
        let mut found: Option<u64> = None;
        let mut i: usize = 0;
        proof {
            assert(self@.take(0) =~= Seq::<(Seq<char>, u64)>::empty());
        }
        while i < self.entries.len()
            invariant
                i <= self.entries.len(),
                found == lookup_name(self@.take(i as int), name@),
            decreases self.entries.len() - i,
        {
            proof {
                assert(self@.take(i as int + 1).last() == self@[i as int]);
                assert(self@.take(i as int + 1).drop_last() =~= self@.take(i as int));
            }
            if self.entries[i].0 == *name {
                found = Some(self.entries[i].1);
            }
            i = i + 1;
        }
        proof {
            assert(self@.take(self.entries@.len() as int) =~= self@);
        }
        found
    }
}

/// A call the evaluator declines to interpret; the offending subtree is
/// carried for rendering in diagnostics.
#[derive(Debug, PartialEq)]
pub enum EvalError {
    /// A known unary function applied to other than one argument.
    WrongArity(Expr),
    /// A call whose name the evaluator does not know.
    UnknownFunction(Expr),
}

/// One round of evaluation: the value with its diagnostics, a refusal,
/// or a request for one arithmetic answer.
#[derive(Debug, PartialEq)]
pub enum EvalStep {
    Done(u64, Vec<String>),
    Fail(EvalError),
    Need(NumOp),
}

/// Model of [`EvalError`].
pub ghost enum EvalErrorV {
    WrongArity(ExprV),
    UnknownFunction(ExprV),
}

/// Model of [`EvalStep`].
pub ghost enum EvalResV {
    Done(u64, Seq<Seq<char>>),
    Fail(EvalErrorV),
    Need(NumOp),
}

/// Outcome of evaluating a sequence of call arguments.
pub ghost enum ValsResV {
    Done(Seq<u64>, Seq<Seq<char>>),
    Fail(EvalErrorV),
    Need(NumOp),
}

impl View for EvalError {
    type V = EvalErrorV;

    open spec fn view(&self) -> EvalErrorV {
        match self {
            EvalError::WrongArity(e) => EvalErrorV::WrongArity(e@),
            EvalError::UnknownFunction(e) => EvalErrorV::UnknownFunction(e@),
        }
    }
}

/// The views of a list of diagnostics.
pub open spec fn warn_views(s: Seq<String>) -> Seq<Seq<char>> {
    s.map_values(|x: String| x@)
}

impl View for EvalStep {
    type V = EvalResV;

    open spec fn view(&self) -> EvalResV {
        match self {
            EvalStep::Done(v, w) => EvalResV::Done(*v, warn_views(w@)),
            EvalStep::Fail(e) => EvalResV::Fail(e@),
            EvalStep::Need(op) => EvalResV::Need(*op),
        }
    }
}

/// Left fold of an extremum over payloads, from the operation's
/// identity; the value, or the first unanswered request.
pub open spec fn spec_eval_fold(k: BinKind, acc: u64, vals: Seq<u64>, t: NumTableV) -> Result<
    u64,
    NumOp,
>
    decreases vals.len(),
{
    if vals.len() == 0 {
        Result::Ok(acc)
    } else {
        match op_answer(t, NumOp::Bin(k, acc, vals[0])) {
            Option::None => Result::Err(NumOp::Bin(k, acc, vals[0])),
            Option::Some(v) => spec_eval_fold(k, v, vals.drop_first(), t),
        }
    }
}

/// The value of `e` under bindings `b`, relative to the arithmetic
/// answers recorded in `t`, with the unbound variables met along the
/// way.
pub open spec fn spec_evaluate(e: ExprV, b: Seq<(Seq<char>, u64)>, t: NumTableV) -> EvalResV
    decreases e,
{
    match e {
        ExprV::Number(n) => EvalResV::Done(n, Seq::empty()),
        ExprV::Variable(name) => match lookup_name(b, name) {
            Option::Some(v) => EvalResV::Done(v, Seq::empty()),
            Option::None => EvalResV::Done(NAN_BITS, seq![name]),
        },
        ExprV::Add(l, r) => spec_combine_bin(
            BinKind::Add,
            spec_evaluate(*l, b, t),
            spec_evaluate(*r, b, t),
            t,
        ),
        ExprV::Sub(l, r) => spec_combine_bin(
            BinKind::Sub,
            spec_evaluate(*l, b, t),
            spec_evaluate(*r, b, t),
            t,
        ),
        ExprV::Mul(l, r) => spec_combine_bin(
            BinKind::Mul,
            spec_evaluate(*l, b, t),
            spec_evaluate(*r, b, t),
            t,
        ),
        ExprV::Div(l, r) => spec_combine_bin(
            BinKind::Div,
            spec_evaluate(*l, b, t),
            spec_evaluate(*r, b, t),
            t,
        ),
        ExprV::Pow(l, r) => spec_combine_bin(
            BinKind::Pow,
            spec_evaluate(*l, b, t),
            spec_evaluate(*r, b, t),
            t,
        ),
        ExprV::Func(name, args) => match spec_evaluate_args(args, b, t) {
            ValsResV::Done(vals, ws) => match unary_kind(name) {
                Option::Some(k) => {
                    if vals.len() != 1 {
                        EvalResV::Fail(EvalErrorV::WrongArity(e))
                    } else {
                        match op_answer(t, NumOp::Apply(k, vals[0])) {
                            Option::Some(v) => EvalResV::Done(v, ws),
                            Option::None => EvalResV::Need(NumOp::Apply(k, vals[0])),
                        }
                    }
                },
                Option::None => {
                    if name == "max"@ {
                        match spec_eval_fold(BinKind::Max, NEG_INF_BITS, vals, t) {
                            Result::Ok(v) => EvalResV::Done(v, ws),
                            Result::Err(op) => EvalResV::Need(op),
                        }
                    } else if name == "min"@ {
                        match spec_eval_fold(BinKind::Min, INF_BITS, vals, t) {
                            Result::Ok(v) => EvalResV::Done(v, ws),
                            Result::Err(op) => EvalResV::Need(op),
                        }
                    } else {
                        EvalResV::Fail(EvalErrorV::UnknownFunction(e))
                    }
                },
            },
            ValsResV::Fail(e2) => EvalResV::Fail(e2),
            ValsResV::Need(op) => EvalResV::Need(op),
        },
    }
}

/// Combine the two sides of a binary operation, left outcome first,
/// through the answer table.
pub open spec fn spec_combine_bin(k: BinKind, ra: EvalResV, rb: EvalResV, t: NumTableV) -> EvalResV {
    match ra {
        EvalResV::Done(a, w1) => match rb {
            EvalResV::Done(c, w2) => match op_answer(t, NumOp::Bin(k, a, c)) {
                Option::Some(v) => EvalResV::Done(v, w1 + w2),
                Option::None => EvalResV::Need(NumOp::Bin(k, a, c)),
            },
            other => other,
        },
        other => other,
    }
}

/// Evaluate a sequence of call arguments in order, concatenating their
/// diagnostics.
pub open spec fn spec_evaluate_args(
    args: Seq<ExprV>,
    b: Seq<(Seq<char>, u64)>,
    t: NumTableV,
) -> ValsResV
    decreases args,
{
    if args.len() == 0 {
        ValsResV::Done(Seq::empty(), Seq::empty())
    } else {
        match spec_evaluate(args[0], b, t) {
            EvalResV::Done(v, w1) => match spec_evaluate_args(args.drop_first(), b, t) {
                ValsResV::Done(vals, w2) => ValsResV::Done(seq![v] + vals, w1 + w2),
                other => other,
            },
            EvalResV::Fail(e) => ValsResV::Fail(e),
            EvalResV::Need(op) => ValsResV::Need(op),
        }
    }
}

/// Concatenating diagnostic lists concatenates their views.
pub proof fn lemma_warn_views_concat(a: Seq<String>, b: Seq<String>)
    ensures
        warn_views(a + b) == warn_views(a) + warn_views(b),
{
    assert(warn_views(a + b) =~= warn_views(a) + warn_views(b));
}

fn combine_bin(k: BinKind, ra: EvalStep, rb: EvalStep, nums: &NumTable) -> (r: EvalStep)
    ensures
        r@ == spec_combine_bin(k, ra@, rb@, nums@),
{
    match ra {
        EvalStep::Done(a, w1) => match rb {
            EvalStep::Done(c, mut w2) => {
                let op = NumOp::Bin(k, a, c);
                match nums.op_lookup(op) {
                    Some(v) => {
                        proof {
                            lemma_warn_views_concat(w1@, w2@);
                        }
                        let mut w = w1;
                        w.append(&mut w2);
                        EvalStep::Done(v, w)
                    },
                    None => EvalStep::Need(op),
                }
            },
            other => other,
        },
        other => other,
    }
}

/// Left fold of an extremum over recorded answers.
#[verifier::loop_isolation(false)]
fn eval_fold(k: BinKind, start: u64, vals: &Vec<u64>, nums: &NumTable) -> (r: Result<u64, NumOp>)
    ensures
        r == spec_eval_fold(k, start, vals@, nums@),
{
    let mut acc: u64 = start;
    let mut i: usize = 0;
    proof {
        assert(vals@.skip(0) =~= vals@);
    }
    while i < vals.len()
        invariant
            i <= vals.len(),
            spec_eval_fold(k, start, vals@, nums@) == spec_eval_fold(
                k,
                acc,
                vals@.skip(i as int),
                nums@,
            ),
        decreases vals.len() - i,
    {
        proof {
            assert(vals@.skip(i as int)[0] == vals@[i as int]);
            assert(vals@.skip(i as int).drop_first() =~= vals@.skip(i as int + 1));
        }
        let op = NumOp::Bin(k, acc, vals[i]);
        match nums.op_lookup(op) {
            None => {
                return Err(op);
            },
            Some(v) => {
                acc = v;
            },
        }
        i = i + 1;
    }
    proof {
        assert(vals@.skip(vals@.len() as int) =~= Seq::<u64>::empty());
    }
    Ok(acc)
}

/// Evaluate `expr` under the bindings `vars`.
///
/// The result is the value's payload together with a diagnostic for
/// each unbound variable met, a refusal for a call shape the evaluator
/// does not support, or a request for one arithmetic answer to be
/// recorded in `nums` before calling again.
#[verifier::loop_isolation(false)]
#[verifier::rlimit(60)]
pub fn evaluate(expr: &Expr, vars: &Bindings, nums: &NumTable) -> (r: EvalStep)
    ensures
        r@ == spec_evaluate(expr@, vars@, nums@),
    decreases expr,
{
    proof {
        reveal_with_fuel(crate::expr::view_of, 2);
    }
    match expr {
        Expr::Number(n) => {
            let w: Vec<String> = Vec::new();
            proof {
                assert(warn_views(w@) =~= Seq::<Seq<char>>::empty());
            }
            EvalStep::Done(*n, w)
        },
        Expr::Variable(name) => {
            match vars.get(name) {
                Some(v) => {
                    let w: Vec<String> = Vec::new();
                    proof {
                        assert(warn_views(w@) =~= Seq::<Seq<char>>::empty());
                    }
                    EvalStep::Done(v, w)
                },
                None => {
                    let mut w: Vec<String> = Vec::new();
                    w.push(name.clone());
                    proof {
                        assert(warn_views(w@) =~= seq![name@]);
                    }
                    EvalStep::Done(NAN_BITS, w)
                },
            }
        },
        Expr::Add(l, r) => {
            let ra = evaluate(l, vars, nums);
            let rb = evaluate(r, vars, nums);
            combine_bin(BinKind::Add, ra, rb, nums)
        },
        Expr::Sub(l, r) => {
            let ra = evaluate(l, vars, nums);
            let rb = evaluate(r, vars, nums);
            combine_bin(BinKind::Sub, ra, rb, nums)
        },
        Expr::Mul(l, r) => {
            let ra = evaluate(l, vars, nums);
            let rb = evaluate(r, vars, nums);
            combine_bin(BinKind::Mul, ra, rb, nums)
        },
        Expr::Div(l, r) => {
            let ra = evaluate(l, vars, nums);
            let rb = evaluate(r, vars, nums);
            combine_bin(BinKind::Div, ra, rb, nums)
        },
        Expr::Pow(l, r) => {
            let ra = evaluate(l, vars, nums);
            let rb = evaluate(r, vars, nums);
            combine_bin(BinKind::Pow, ra, rb, nums)
        },
        Expr::Func(name, args) => {
            proof {
                crate::expr::lemma_views_of_index(args@);
            }
            let ghost vs = crate::expr::views_of(args@);
            let mut out_vals: Vec<u64> = Vec::new();
            let mut warns: Vec<String> = Vec::new();
            let mut i: usize = 0;
            proof {
                assert(vs.skip(0) =~= vs);
                assert(out_vals@ + Seq::<u64>::empty() =~= out_vals@);
                assert(warn_views(warns@) =~= Seq::<Seq<char>>::empty());
            }
            while i < args.len()
                invariant
                    i <= args.len(),
                    (match spec_evaluate_args(vs.skip(i as int), vars@, nums@) {
                        ValsResV::Done(vals, ws) => spec_evaluate_args(vs, vars@, nums@)
                            == ValsResV::Done(out_vals@ + vals, warn_views(warns@) + ws),
                        ValsResV::Fail(f) => spec_evaluate_args(vs, vars@, nums@)
                            == ValsResV::Fail(f),
                        ValsResV::Need(op) => spec_evaluate_args(vs, vars@, nums@)
                            == ValsResV::Need(op),
                    }),
                decreases args.len() - i,
            {
                proof {
                    assert(decreases_to!(*expr => args@[i as int]));
                    assert(vs.skip(i as int)[0] == vs[i as int]);
                    assert(vs.skip(i as int).drop_first() =~= vs.skip(i as int + 1));
                }
                let ghost vals_before = out_vals@;
                let ghost warns_before = warns@;
                match evaluate(&args[i], vars, nums) {
                    EvalStep::Done(v, mut w1) => {
                        proof {
                            lemma_warn_views_concat(warns_before, w1@);
                            match spec_evaluate_args(vs.skip(i as int + 1), vars@, nums@) {
                                ValsResV::Done(vals, ws) => {
                                    assert(vals_before + (seq![v] + vals) =~= vals_before.push(v)
                                        + vals);
                                    assert(warn_views(warns_before) + (warn_views(w1@) + ws) =~= (
                                    warn_views(warns_before) + warn_views(w1@)) + ws);
                                },
                                _ => {},
                            }
                        }
                        out_vals.push(v);
                        warns.append(&mut w1);
                    },
                    EvalStep::Fail(e) => {
                        return EvalStep::Fail(e);
                    },
                    EvalStep::Need(op) => {
                        return EvalStep::Need(op);
                    },
                }
                i = i + 1;
            }
            proof {
                assert(vs.skip(vs.len() as int) =~= Seq::<ExprV>::empty());
                assert(out_vals@ + Seq::<u64>::empty() =~= out_vals@);
                assert(warn_views(warns@) + Seq::<Seq<char>>::empty() =~= warn_views(warns@));
                assert(spec_evaluate_args(vs, vars@, nums@) == ValsResV::Done(
                    out_vals@,
                    warn_views(warns@),
                ));
            }
            let kind: Option<FuncKind> = if name_is(name, "sin") {
                Some(FuncKind::Sin)
            } else if name_is(name, "cos") {
                Some(FuncKind::Cos)
            } else if name_is(name, "tan") {
                Some(FuncKind::Tan)
            } else if name_is(name, "ln") {
                Some(FuncKind::Ln)
            } else if name_is(name, "log10") {
                Some(FuncKind::Log10)
            } else if name_is(name, "sqrt") {
                Some(FuncKind::Sqrt)
            } else {
                None
            };
            match kind {
                Some(k) => {
                    if out_vals.len() != 1 {
                        EvalStep::Fail(EvalError::WrongArity(expr.duplicate()))
                    } else {
                        let op = NumOp::Apply(k, out_vals[0]);
                        match nums.op_lookup(op) {
                            Some(v) => EvalStep::Done(v, warns),
                            None => EvalStep::Need(op),
                        }
                    }
                },
                None => {
                    if name_is(name, "max") {
                        match eval_fold(BinKind::Max, NEG_INF_BITS, &out_vals, nums) {
                            Ok(v) => EvalStep::Done(v, warns),
                            Err(op) => EvalStep::Need(op),
                        }
                    } else if name_is(name, "min") {
                        match eval_fold(BinKind::Min, INF_BITS, &out_vals, nums) {
                            Ok(v) => EvalStep::Done(v, warns),
                            Err(op) => EvalStep::Need(op),
                        }
                    } else {
                        EvalStep::Fail(EvalError::UnknownFunction(expr.duplicate()))
                    }
                },
            }
        },
    }
}

} // verus!

//! The expression tree: the one data model every pass consumes.

use vstd::prelude::*;
use vstd::string::StringExecFns;

verus! {

/// A closed-form mathematical expression. `Number` holds the 64-bit
/// payload of a numeric literal; the kernel never interprets it beyond
/// equality with a few distinguished constants.
#[derive(Debug, PartialEq)]
pub enum Expr {
    Number(u64),
    Variable(String),
    Add(Box<Expr>, Box<Expr>),
    Sub(Box<Expr>, Box<Expr>),
    Mul(Box<Expr>, Box<Expr>),
    Div(Box<Expr>, Box<Expr>),
    Pow(Box<Expr>, Box<Expr>),
    Func(String, Vec<Expr>),
}

/// The mathematical model of an expression tree.
#[verifier::ext_equal]
pub ghost enum ExprV {
    Number(u64),
    Variable(Seq<char>),
    Add(Box<ExprV>, Box<ExprV>),
    Sub(Box<ExprV>, Box<ExprV>),
    Mul(Box<ExprV>, Box<ExprV>),
    Div(Box<ExprV>, Box<ExprV>),
    Pow(Box<ExprV>, Box<ExprV>),
    Func(Seq<char>, Seq<ExprV>),
}

pub open spec fn view_of(e: Expr) -> ExprV
    decreases e,
{
    match e {
        Expr::Number(bits) => ExprV::Number(bits),
        Expr::Variable(name) => ExprV::Variable(name@),
        Expr::Add(l, r) => ExprV::Add(Box::new(view_of(*l)), Box::new(view_of(*r))),
        Expr::Sub(l, r) => ExprV::Sub(Box::new(view_of(*l)), Box::new(view_of(*r))),
        Expr::Mul(l, r) => ExprV::Mul(Box::new(view_of(*l)), Box::new(view_of(*r))),
        Expr::Div(l, r) => ExprV::Div(Box::new(view_of(*l)), Box::new(view_of(*r))),
        Expr::Pow(l, r) => ExprV::Pow(Box::new(view_of(*l)), Box::new(view_of(*r))),
        Expr::Func(name, args) => ExprV::Func(name@, views_of(args@)),
    }
}

pub open spec fn views_of(args: Seq<Expr>) -> Seq<ExprV>
    decreases args,
{
    if args.len() == 0 {
        Seq::empty()
    } else {
        seq![view_of(args[0])] + views_of(args.drop_first())
    }
}

impl View for Expr {
    type V = ExprV;

    open spec fn view(&self) -> ExprV {
        view_of(*self)
    }
}

impl Expr {
    /// A structural copy; the tree owns its children, so copying is deep.
    #[verifier::loop_isolation(false)]
    pub fn duplicate(&self) -> (r: Expr)
        ensures
            r@ == self@,
        decreases self,
    {
        match self {
            Expr::Number(bits) => Expr::Number(*bits),
            Expr::Variable(name) => Expr::Variable(name.clone()),
            Expr::Add(l, r) => Expr::Add(Box::new(l.duplicate()), Box::new(r.duplicate())),
            Expr::Sub(l, r) => Expr::Sub(Box::new(l.duplicate()), Box::new(r.duplicate())),
            Expr::Mul(l, r) => Expr::Mul(Box::new(l.duplicate()), Box::new(r.duplicate())),
            Expr::Div(l, r) => Expr::Div(Box::new(l.duplicate()), Box::new(r.duplicate())),
            Expr::Pow(l, r) => Expr::Pow(Box::new(l.duplicate()), Box::new(r.duplicate())),
            Expr::Func(name, args) => {
                let mut copies: Vec<Expr> = Vec::new();
                let mut i: usize = 0;
                while i < args.len()
                    invariant
                        i <= args.len(),
                        copies@.len() == i as int,
                        forall|j: int| 0 <= j < i ==> copies@[j]@ == args@[j]@,
                    decreases args.len() - i,
                {
                    proof {
                        assert(decreases_to!(*self => args@[i as int]));
                    }
                    let c = args[i].duplicate();
                    copies.push(c);
                    i = i + 1;
                }
                proof {
                    lemma_views_of_pointwise(copies@, args@);
                }
                Expr::Func(name.clone(), copies)
            }
        }
    }
}

/// Two argument vectors with pointwise equal views have equal view sequences.
pub proof fn lemma_views_of_pointwise(a: Seq<Expr>, b: Seq<Expr>)
    requires
        a.len() == b.len(),
        forall|j: int| 0 <= j < a.len() ==> a[j]@ == b[j]@,
    ensures
        views_of(a) == views_of(b),
    decreases a.len(),
{
    if a.len() > 0 {
        lemma_views_of_pointwise(a.drop_first(), b.drop_first());
    }
}

/// `views_of` is the pointwise view of the sequence.
pub proof fn lemma_views_of_index(args: Seq<Expr>)
    ensures
        views_of(args).len() == args.len(),
        forall|j: int| 0 <= j < args.len() ==> #[trigger] views_of(args)[j] == args[j]@,
    decreases args.len(),
{
    if args.len() > 0 {
        lemma_views_of_index(args.drop_first());
    }
}

/// Whether an owned name equals the given string slice.
pub(crate) fn name_is(name: &String, s: &str) -> (r: bool)
    ensures
        r == (name@ == s@),
{
    let owned: String = s.to_owned();
    *name == owned
}

/// Build a call with a single argument.
pub(crate) fn func1(name: &str, arg: Expr) -> (r: Expr)
    ensures
        r@ == ExprV::Func(name@, seq![arg@]),
{
    let args = vec![arg];
    proof {
        assert(views_of(args@.drop_first()) =~= Seq::<ExprV>::empty());
        assert(views_of(args@) =~= seq![args@[0]@]);
    }
    Expr::Func(name.to_owned(), args)
}

/// Appending an element appends its view.
pub proof fn lemma_views_of_push(s: Seq<Expr>, e: Expr)
    ensures
        views_of(s.push(e)) == views_of(s) + seq![e@],
{
    lemma_views_of_index(s);
    lemma_views_of_index(s.push(e));
    assert(views_of(s.push(e)) =~= views_of(s) + seq![e@]);
}

/// One round of rendering: the text, or a request for the decimal
/// rendering of one numeric payload.
#[derive(Debug, PartialEq)]
pub enum RenderStep {
    Done(String),
    Need(u64),
}

/// Model of [`RenderStep`].
pub ghost enum RenderResV {
    Done(Seq<char>),
    Need(u64),
}

impl View for RenderStep {
    type V = RenderResV;

    open spec fn view(&self) -> RenderResV {
        match self {
            RenderStep::Done(s) => RenderResV::Done(s@),
            RenderStep::Need(n) => RenderResV::Need(*n),
        }
    }
}

/// The text of `e`: fully parenthesized infix for the binary
/// operations, `name(arg, arg)` for calls, the recorded decimal text
/// for numeric leaves.
pub open spec fn spec_render(e: ExprV, t: crate::numeric::NumTableV) -> RenderResV
    decreases e,
{
    match e {
        ExprV::Number(n) => match crate::numeric::text_answer(t, n) {
            Option::Some(s) => RenderResV::Done(s),
            Option::None => RenderResV::Need(n),
        },
        ExprV::Variable(name) => RenderResV::Done(name),
        ExprV::Add(l, r) => spec_render_binary(" + "@, spec_render(*l, t), spec_render(*r, t)),
        ExprV::Sub(l, r) => spec_render_binary(" - "@, spec_render(*l, t), spec_render(*r, t)),
        ExprV::Mul(l, r) => spec_render_binary(" * "@, spec_render(*l, t), spec_render(*r, t)),
        ExprV::Div(l, r) => spec_render_binary(" / "@, spec_render(*l, t), spec_render(*r, t)),
        ExprV::Pow(l, r) => spec_render_binary(" ^ "@, spec_render(*l, t), spec_render(*r, t)),
        ExprV::Func(name, args) => match spec_render_args(args, t) {
            RenderResV::Done(inner) => RenderResV::Done(name + "("@ + inner + ")"@),
            RenderResV::Need(n) => RenderResV::Need(n),
        },
    }
}

/// Parenthesize two rendered sides around an operator, left first.
pub open spec fn spec_render_binary(op_text: Seq<char>, ra: RenderResV, rb: RenderResV) -> RenderResV {
    match ra {
        RenderResV::Done(a) => match rb {
            RenderResV::Done(b) => RenderResV::Done("("@ + a + op_text + b + ")"@),
            other => other,
        },
        other => other,
    }
}

/// Render a sequence of call arguments, separated by a comma and a
/// space.
pub open spec fn spec_render_args(args: Seq<ExprV>, t: crate::numeric::NumTableV) -> RenderResV
    decreases args,
{
    if args.len() == 0 {
        RenderResV::Done(Seq::empty())
    } else {
        match spec_render(args[0], t) {
            RenderResV::Done(s) => match spec_render_args(args.drop_first(), t) {
                RenderResV::Done(rest) => RenderResV::Done(
                    if args.len() == 1 {
                        s
                    } else {
                        s + ", "@ + rest
                    },
                ),
                other => other,
            },
            other => other,
        }
    }
}

fn render_binary(op_text: &str, a: String, b: String) -> (r: String)
    ensures
        r@ == "("@ + a@ + op_text@ + b@ + ")"@,
{
    let mut out = String::new();
    out.append("(");
    out.append(a.as_str());
    out.append(op_text);
    out.append(b.as_str());
    out.append(")");
    proof {
        assert(out@ =~= "("@ + a@ + op_text@ + b@ + ")"@);
    }
    out
}

/// Render `expr` as fully parenthesized text.
///
/// The result is the text, or a request for the decimal rendering of
/// one numeric payload to be recorded in `nums` before calling again.
#[verifier::loop_isolation(false)]
#[verifier::rlimit(60)]
pub fn to_string(expr: &Expr, nums: &crate::numeric::NumTable) -> (r: RenderStep)
    ensures
        r@ == spec_render(expr@, nums@),
    decreases expr,
{
    match expr {
        Expr::Number(n) => match nums.text_lookup(*n) {
            Some(s) => RenderStep::Done(s),
            None => RenderStep::Need(*n),
        },
        Expr::Variable(name) => RenderStep::Done(name.clone()),
        Expr::Add(l, r) => match to_string(l, nums) {
            RenderStep::Done(a) => match to_string(r, nums) {
                RenderStep::Done(b) => RenderStep::Done(render_binary(" + ", a, b)),
                other => other,
            },
            other => other,
        },
        Expr::Sub(l, r) => match to_string(l, nums) {
            RenderStep::Done(a) => match to_string(r, nums) {
                RenderStep::Done(b) => RenderStep::Done(render_binary(" - ", a, b)),
                other => other,
            },
            other => other,
        },
        Expr::Mul(l, r) => match to_string(l, nums) {
            RenderStep::Done(a) => match to_string(r, nums) {
                RenderStep::Done(b) => RenderStep::Done(render_binary(" * ", a, b)),
                other => other,
            },
            other => other,
        },
        Expr::Div(l, r) => match to_string(l, nums) {
            RenderStep::Done(a) => match to_string(r, nums) {
                RenderStep::Done(b) => RenderStep::Done(render_binary(" / ", a, b)),
                other => other,
            },
            other => other,
        },
        Expr::Pow(l, r) => match to_string(l, nums) {
            RenderStep::Done(a) => match to_string(r, nums) {
                RenderStep::Done(b) => RenderStep::Done(render_binary(" ^ ", a, b)),
                other => other,
            },
            other => other,
        },
        Expr::Func(name, args) => {
            proof {
                lemma_views_of_index(args@);
            }
            let ghost vs = views_of(args@);
            let mut joined = String::new();
            let mut i: usize = 0;
            proof {
                assert(vs.skip(0) =~= vs);
                assert(joined@ =~= Seq::<char>::empty());
            }
            while i < args.len()
                invariant
                    i <= args.len(),
                    i == 0 ==> joined@ == Seq::<char>::empty(),
                    (match spec_render_args(vs.skip(i as int), nums@) {
                        RenderResV::Done(rest) => spec_render_args(vs, nums@) == RenderResV::Done(
                            if i == 0 {
                                rest
                            } else if i == vs.len() {
                                joined@
                            } else {
                                joined@ + ", "@ + rest
                            },
                        ),
                        RenderResV::Need(n) => spec_render_args(vs, nums@) == RenderResV::Need(n),
                    }),
                decreases args.len() - i,
            {
                proof {
                    assert(decreases_to!(*expr => args@[i as int]));
                    assert(vs.skip(i as int)[0] == vs[i as int]);
                    assert(vs.skip(i as int).drop_first() =~= vs.skip(i as int + 1));
                }
                let ghost joined_before = joined@;
                match to_string(&args[i], nums) {
                    RenderStep::Done(s) => {
                        if i > 0 {
                            joined.append(", ");
                        }
                        joined.append(s.as_str());
                        proof {
                            if i > 0 {
                                assert(joined@ =~= joined_before + ", "@ + s@);
                            } else {
                                assert(joined@ =~= s@);
                            }
                            match spec_render_args(vs.skip(i as int + 1), nums@) {
                                RenderResV::Done(rest2) => {
                                    if i > 0 && i as int + 1 < vs.len() {
                                        assert(joined_before + ", "@ + (s@ + ", "@ + rest2) =~= (
                                        joined_before + ", "@ + s@) + ", "@ + rest2);
                                    }
                                },
                                _ => {},
                            }
                        }
                    },
                    RenderStep::Need(n) => {
                        return RenderStep::Need(n);
                    },
                }
                i = i + 1;
            }
            proof {
                assert(vs.skip(vs.len() as int) =~= Seq::<ExprV>::empty());
                if vs.len() == 0 {
                    assert(joined@ =~= Seq::<char>::empty());
                }
            }
            let mut out = name.clone();
            out.append("(");
            out.append(joined.as_str());
            out.append(")");
            proof {
                assert(out@ =~= name@ + "("@ + joined@ + ")"@);
            }
            RenderStep::Done(out)
        },
    }
}

} // verus!

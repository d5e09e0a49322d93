use proton_lite::expr::{Expr, RenderStep, to_string};
use proton_lite::numeric::{NumTable, NumOp, BinKind, FuncKind};
use proton_lite::differentiate::{differentiate, DiffStep, DiffError};
use proton_lite::simplify::{simplify, SimStep, SimplifyError};
use proton_lite::eval::{evaluate, EvalStep, EvalError, Bindings};
use proton_lite::integrate::{integrate, IntStep, IntegrateError};

fn num(x: f64) -> Expr {
    Expr::Number(x.to_bits())
}

fn var(name: &str) -> Expr {
    Expr::Variable(name.to_string())
}

fn answer(op: NumOp) -> u64 {
    match op {
        NumOp::Bin(k, a, b) => {
            let x = f64::from_bits(a);
            let y = f64::from_bits(b);
            let v = match k {
                BinKind::Add => x + y,
                BinKind::Sub => x - y,
                BinKind::Mul => x * y,
                BinKind::Div => x / y,
                BinKind::Pow => x.powf(y),
                BinKind::Max => x.max(y),
                BinKind::Min => x.min(y),
            };
            v.to_bits()
        }
        NumOp::Apply(k, a) => {
            let x = f64::from_bits(a);
            let v = match k {
                FuncKind::Sin => x.sin(),
                FuncKind::Cos => x.cos(),
                FuncKind::Tan => x.tan(),
                FuncKind::Ln => x.ln(),
                FuncKind::Log10 => x.log10(),
                FuncKind::Sqrt => x.sqrt(),
            };
            v.to_bits()
        }
    }
}

fn try_differentiate(expr: &Expr, name: &str) -> Result<Expr, DiffError> {
    let mut nums = NumTable::new();
    loop {
        match differentiate(expr, name, &nums) {
            DiffStep::Done(d) => return Ok(d),
            DiffStep::Fail(e) => return Err(e),
            DiffStep::Need(op) => {
                let v = answer(op);
                nums.record_op(op, v);
            }
        }
    }
}

fn run_differentiate(expr: &Expr, name: &str) -> Expr {
    try_differentiate(expr, name).expect("differentiation refused")
}

fn try_simplify(expr: &Expr) -> Result<Expr, SimplifyError> {
    let mut nums = NumTable::new();
    loop {
        match simplify(expr, &nums) {
            SimStep::Done(e) => return Ok(e),
            SimStep::Fail(e) => return Err(e),
            SimStep::Need(op) => {
                let v = answer(op);
                nums.record_op(op, v);
            }
        }
    }
}

fn run_simplify(expr: &Expr) -> Expr {
    try_simplify(expr).expect("simplification refused")
}

fn try_evaluate(expr: &Expr, vars: &Bindings) -> Result<(f64, Vec<String>), EvalError> {
    let mut nums = NumTable::new();
    loop {
        match evaluate(expr, vars, &nums) {
            EvalStep::Done(bits, warnings) => return Ok((f64::from_bits(bits), warnings)),
            EvalStep::Fail(e) => return Err(e),
            EvalStep::Need(op) => {
                let v = answer(op);
                nums.record_op(op, v);
            }
        }
    }
}

fn run_evaluate(expr: &Expr, vars: &Bindings) -> f64 {
    try_evaluate(expr, vars).expect("evaluation refused").0
}

fn try_integrate(expr: &Expr, name: &str) -> Result<Expr, IntegrateError> {
    let mut nums = NumTable::new();
    loop {
        match integrate(expr, name, &nums) {
            IntStep::Done(e) => return Ok(e),
            IntStep::Fail(e) => return Err(e),
            IntStep::Need(op) => {
                let v = answer(op);
                nums.record_op(op, v);
            }
        }
    }
}

fn run_render(expr: &Expr) -> String {
    let mut nums = NumTable::new();
    loop {
        match to_string(expr, &nums) {
            RenderStep::Done(s) => return s,
            RenderStep::Need(bits) => {
                nums.record_text(bits, f64::from_bits(bits).to_string());
            }
        }
    }
}

#[test]
fn simplify_folds_constant_sum() {
    let expr = Expr::Add(Box::new(num(2.0)), Box::new(num(3.0)));
    assert_eq!(run_simplify(&expr), num(5.0));
}

#[test]
fn simplify_add_zero_is_identity() {
    let expr = Expr::Add(Box::new(var("x")), Box::new(num(0.0)));
    assert_eq!(run_simplify(&expr), var("x"));
    let expr = Expr::Add(Box::new(num(0.0)), Box::new(var("x")));
    assert_eq!(run_simplify(&expr), var("x"));
}

#[test]
fn simplify_mul_one_is_identity() {
    let expr = Expr::Mul(Box::new(var("x")), Box::new(num(1.0)));
    assert_eq!(run_simplify(&expr), var("x"));
    let expr = Expr::Mul(Box::new(num(1.0)), Box::new(var("x")));
    assert_eq!(run_simplify(&expr), var("x"));
}

#[test]
fn simplify_mul_zero_absorbs() {
    let expr = Expr::Mul(Box::new(var("x")), Box::new(num(0.0)));
    assert_eq!(run_simplify(&expr), num(0.0));
}

#[test]
fn simplify_zero_beats_one_in_products() {
    let expr = Expr::Mul(Box::new(num(0.0)), Box::new(num(1.0)));
    assert_eq!(run_simplify(&expr), num(0.0));
}

#[test]
fn simplify_sub_keeps_zero_on_the_left() {
    let expr = Expr::Sub(Box::new(var("x")), Box::new(num(0.0)));
    assert_eq!(run_simplify(&expr), var("x"));
    let expr = Expr::Sub(Box::new(num(0.0)), Box::new(var("x")));
    assert_eq!(run_simplify(&expr), Expr::Sub(Box::new(num(0.0)), Box::new(var("x"))));
}

#[test]
fn simplify_division_by_literal_zero_fails() {
    let expr = Expr::Div(Box::new(var("x")), Box::new(num(0.0)));
    let refused = try_simplify(&expr);
    assert!(matches!(refused, Err(SimplifyError::DivisionByZero(_))));
}

#[test]
fn simplify_zero_over_zero_fails_too() {
    let expr = Expr::Div(Box::new(num(0.0)), Box::new(num(0.0)));
    let refused = try_simplify(&expr);
    assert!(matches!(refused, Err(SimplifyError::DivisionByZero(_))));
}

#[test]
fn simplify_zero_numerator_collapses() {
    let expr = Expr::Div(Box::new(num(0.0)), Box::new(var("x")));
    assert_eq!(run_simplify(&expr), num(0.0));
}

#[test]
fn simplify_div_one_is_identity() {
    let expr = Expr::Div(Box::new(var("x")), Box::new(num(1.0)));
    assert_eq!(run_simplify(&expr), var("x"));
}

#[test]
fn simplify_pow_zero_exponent_even_on_zero_base() {
    let expr = Expr::Pow(Box::new(num(0.0)), Box::new(num(0.0)));
    assert_eq!(run_simplify(&expr), num(1.0));
    let expr = Expr::Pow(Box::new(var("x")), Box::new(num(0.0)));
    assert_eq!(run_simplify(&expr), num(1.0));
}

#[test]
fn simplify_pow_one_exponent_gives_base() {
    let expr = Expr::Pow(Box::new(var("x")), Box::new(num(1.0)));
    assert_eq!(run_simplify(&expr), var("x"));
}

#[test]
fn simplify_pow_folds_literals() {
    let expr = Expr::Pow(Box::new(num(2.0)), Box::new(num(3.0)));
    assert_eq!(run_simplify(&expr), num(8.0));
}

#[test]
fn simplify_is_idempotent_on_samples() {
    let samples = vec![
        Expr::Add(
            Box::new(Expr::Mul(Box::new(num(2.0)), Box::new(num(3.0)))),
            Box::new(Expr::Pow(Box::new(var("x")), Box::new(num(0.0)))),
        ),
        Expr::Sub(Box::new(num(0.0)), Box::new(var("x"))),
        Expr::Mul(Box::new(var("x")), Box::new(var("y"))),
        Expr::Func("sin".to_string(), vec![var("x")]),
        Expr::Func("max".to_string(), vec![num(1.0), num(5.0), num(3.0)]),
    ];
    for e in samples {
        let once = run_simplify(&e);
        let twice = run_simplify(&once);
        assert_eq!(twice, once);
    }
}

#[test]
fn simplify_folds_known_unary_calls() {
    let expr = Expr::Func("sin".to_string(), vec![num(0.0)]);
    assert_eq!(run_simplify(&expr), num(0.0));
    let expr = Expr::Func("log10".to_string(), vec![num(100.0)]);
    assert_eq!(run_simplify(&expr), num(2.0));
    let expr = Expr::Func("sqrt".to_string(), vec![num(9.0)]);
    assert_eq!(run_simplify(&expr), num(3.0));
}

#[test]
fn simplify_declines_to_fold_unknown_or_symbolic_calls() {
    let expr = Expr::Func(
        "foo".to_string(),
        vec![Expr::Add(Box::new(num(2.0)), Box::new(num(3.0)))],
    );
    assert_eq!(run_simplify(&expr), Expr::Func("foo".to_string(), vec![num(5.0)]));

    let expr = Expr::Func("sin".to_string(), vec![var("x")]);
    assert_eq!(run_simplify(&expr), Expr::Func("sin".to_string(), vec![var("x")]));

    let expr = Expr::Func("sin".to_string(), vec![var("x"), var("y")]);
    assert_eq!(
        run_simplify(&expr),
        Expr::Func("sin".to_string(), vec![var("x"), var("y")])
    );
}

#[test]
fn simplify_folds_extrema_of_literals() {
    let expr = Expr::Func("max".to_string(), vec![num(1.0), num(5.0), num(3.0)]);
    assert_eq!(run_simplify(&expr), num(5.0));
    let expr = Expr::Func("min".to_string(), vec![num(4.0), num(2.0), num(9.0)]);
    assert_eq!(run_simplify(&expr), num(2.0));
    let expr = Expr::Func("max".to_string(), vec![num(1.0), var("x")]);
    assert_eq!(
        run_simplify(&expr),
        Expr::Func("max".to_string(), vec![num(1.0), var("x")])
    );
    let expr = Expr::Func("max".to_string(), vec![]);
    assert_eq!(run_simplify(&expr), num(f64::NEG_INFINITY));
}

#[test]
fn derivative_of_quotient_has_textbook_shape() {
    let expr = Expr::Div(Box::new(var("x")), Box::new(var("y")));
    let d = run_differentiate(&expr, "x");
    assert_eq!(
        d,
        Expr::Div(
            Box::new(Expr::Sub(
                Box::new(Expr::Mul(Box::new(num(1.0)), Box::new(var("y")))),
                Box::new(Expr::Mul(Box::new(var("x")), Box::new(num(0.0)))),
            )),
            Box::new(Expr::Pow(Box::new(var("y")), Box::new(num(2.0)))),
        )
    );
}

#[test]
fn derivative_of_general_power_uses_logarithmic_form() {
    let expr = Expr::Pow(Box::new(var("x")), Box::new(var("y")));
    let d = run_differentiate(&expr, "x");
    assert_eq!(
        d,
        Expr::Mul(
            Box::new(Expr::Pow(Box::new(var("x")), Box::new(var("y")))),
            Box::new(Expr::Add(
                Box::new(Expr::Mul(
                    Box::new(num(0.0)),
                    Box::new(Expr::Func("ln".to_string(), vec![var("x")])),
                )),
                Box::new(Expr::Mul(
                    Box::new(var("y")),
                    Box::new(Expr::Div(Box::new(num(1.0)), Box::new(var("x")))),
                )),
            )),
        )
    );
}

#[test]
fn derivative_of_tangent_and_square_root() {
    let d = run_differentiate(&Expr::Func("tan".to_string(), vec![var("x")]), "x");
    assert_eq!(
        d,
        Expr::Mul(
            Box::new(Expr::Div(
                Box::new(num(1.0)),
                Box::new(Expr::Pow(
                    Box::new(Expr::Func("cos".to_string(), vec![var("x")])),
                    Box::new(num(2.0)),
                )),
            )),
            Box::new(num(1.0)),
        )
    );
    let d = run_differentiate(&Expr::Func("sqrt".to_string(), vec![var("x")]), "x");
    assert_eq!(
        d,
        Expr::Div(
            Box::new(num(1.0)),
            Box::new(Expr::Mul(
                Box::new(num(2.0)),
                Box::new(Expr::Func("sqrt".to_string(), vec![var("x")])),
            )),
        )
    );
}

#[test]
fn derivative_of_cosine_has_negated_sine() {
    let d = run_differentiate(&Expr::Func("cos".to_string(), vec![var("x")]), "x");
    assert_eq!(
        d,
        Expr::Mul(
            Box::new(Expr::Mul(
                Box::new(num(-1.0)),
                Box::new(Expr::Func("sin".to_string(), vec![var("x")])),
            )),
            Box::new(num(1.0)),
        )
    );
}

#[test]
fn differentiate_refuses_unknown_function() {
    let expr = Expr::Func("foo".to_string(), vec![var("x")]);
    let refused = try_differentiate(&expr, "x");
    assert!(matches!(refused, Err(DiffError::UnsupportedFunction(_))));
}

#[test]
fn differentiate_refuses_wrong_arity() {
    let expr = Expr::Func("sin".to_string(), vec![var("x"), var("y")]);
    let refused = try_differentiate(&expr, "x");
    assert!(matches!(refused, Err(DiffError::UnsupportedArity(_))));
}

#[test]
fn evaluate_refuses_unknown_function() {
    let expr = Expr::Func("foo".to_string(), vec![num(1.0)]);
    let vars = Bindings::new();
    let refused = try_evaluate(&expr, &vars);
    assert!(matches!(refused, Err(EvalError::UnknownFunction(_))));
}

#[test]
fn evaluate_refuses_wrong_arity() {
    let expr = Expr::Func("sin".to_string(), vec![num(1.0), num(2.0)]);
    let vars = Bindings::new();
    let refused = try_evaluate(&expr, &vars);
    assert!(matches!(refused, Err(EvalError::WrongArity(_))));
}

#[test]
fn evaluate_unbound_variable_is_soft_nan() {
    let expr = var("q");
    let vars = Bindings::new();
    let (value, warnings) = try_evaluate(&expr, &vars).expect("soft outcome expected");
    assert!(value.is_nan());
    assert_eq!(warnings, vec!["q".to_string()]);
}

#[test]
fn evaluate_extrema_are_variadic() {
    let vars = Bindings::new();
    let expr = Expr::Func("max".to_string(), vec![num(5.0), num(7.0)]);
    assert_eq!(run_evaluate(&expr, &vars), 7.0);
    let expr = Expr::Func("min".to_string(), vec![num(1.0), num(2.0), num(3.0)]);
    assert_eq!(run_evaluate(&expr, &vars), 1.0);
    let expr = Expr::Func("max".to_string(), vec![]);
    assert_eq!(run_evaluate(&expr, &vars), f64::NEG_INFINITY);
}

#[test]
fn latest_binding_wins() {
    let mut vars = Bindings::new();
    vars.set("x".to_string(), (1.0f64).to_bits());
    vars.set("x".to_string(), (2.0f64).to_bits());
    assert_eq!(run_evaluate(&var("x"), &vars), 2.0);
}

#[test]
fn derivative_of_square_evaluates_to_six_at_three() {
    let expr = Expr::Pow(Box::new(var("x")), Box::new(num(2.0)));
    let d = run_differentiate(&expr, "x");
    let s = run_simplify(&d);
    let mut vars = Bindings::new();
    vars.set("x".to_string(), (3.0f64).to_bits());
    assert_eq!(run_evaluate(&s, &vars), 6.0);
}

#[test]
fn derivative_of_logarithm_evaluates_to_half_at_two() {
    let expr = Expr::Func("ln".to_string(), vec![var("x")]);
    let d = run_differentiate(&expr, "x");
    let mut vars = Bindings::new();
    vars.set("x".to_string(), (2.0f64).to_bits());
    assert_eq!(run_evaluate(&d, &vars), 0.5);
}

#[test]
fn integrate_constant_and_linear_term() {
    let got = try_integrate(&num(5.0), "x").expect("supported");
    assert_eq!(got, Expr::Mul(Box::new(num(5.0)), Box::new(var("x"))));
    let got = try_integrate(&var("x"), "x").expect("supported");
    assert_eq!(
        got,
        Expr::Div(
            Box::new(Expr::Pow(Box::new(var("x")), Box::new(num(2.0)))),
            Box::new(num(2.0)),
        )
    );
}

#[test]
fn integrate_is_linear_over_sums_and_constant_multiples() {
    let expr = Expr::Add(Box::new(var("x")), Box::new(num(1.0)));
    let got = try_integrate(&expr, "x").expect("supported");
    assert_eq!(
        got,
        Expr::Add(
            Box::new(Expr::Div(
                Box::new(Expr::Pow(Box::new(var("x")), Box::new(num(2.0)))),
                Box::new(num(2.0)),
            )),
            Box::new(Expr::Mul(Box::new(num(1.0)), Box::new(var("x")))),
        )
    );
    let expr = Expr::Mul(Box::new(num(3.0)), Box::new(var("x")));
    let got = try_integrate(&expr, "x").expect("supported");
    assert_eq!(
        got,
        Expr::Mul(
            Box::new(num(3.0)),
            Box::new(Expr::Div(
                Box::new(Expr::Pow(Box::new(var("x")), Box::new(num(2.0)))),
                Box::new(num(2.0)),
            )),
        )
    );
}

#[test]
fn integrate_power_rule_and_reciprocal() {
    let expr = Expr::Pow(Box::new(var("x")), Box::new(num(2.0)));
    let got = try_integrate(&expr, "x").expect("supported");
    assert_eq!(
        got,
        Expr::Div(
            Box::new(Expr::Pow(Box::new(var("x")), Box::new(num(3.0)))),
            Box::new(num(3.0)),
        )
    );
    let expr = Expr::Pow(Box::new(var("x")), Box::new(num(-1.0)));
    let got = try_integrate(&expr, "x").expect("supported");
    assert_eq!(got, Expr::Func("ln".to_string(), vec![var("x")]));
}

#[test]
fn integrate_sine_and_cosine() {
    let got = try_integrate(&Expr::Func("sin".to_string(), vec![var("x")]), "x").expect(
        "supported",
    );
    assert_eq!(
        got,
        Expr::Mul(
            Box::new(num(-1.0)),
            Box::new(Expr::Func("cos".to_string(), vec![var("x")])),
        )
    );
    let got = try_integrate(&Expr::Func("cos".to_string(), vec![var("x")]), "x").expect(
        "supported",
    );
    assert_eq!(got, Expr::Func("sin".to_string(), vec![var("x")]));
}

#[test]
fn integrate_declines_unsupported_shapes() {
    let product = Expr::Mul(Box::new(var("x")), Box::new(var("y")));
    assert!(matches!(
        try_integrate(&product, "x"),
        Err(IntegrateError::ByParts(_))
    ));
    let power = Expr::Pow(Box::new(var("x")), Box::new(var("y")));
    assert!(matches!(
        try_integrate(&power, "x"),
        Err(IntegrateError::NonNumericExponent(_))
    ));
    let quotient = Expr::Div(Box::new(var("x")), Box::new(var("y")));
    assert!(matches!(
        try_integrate(&quotient, "x"),
        Err(IntegrateError::NotSupported(_))
    ));
    let other_variable = var("y");
    assert!(matches!(
        try_integrate(&other_variable, "x"),
        Err(IntegrateError::NotSupported(_))
    ));
}

#[test]
fn render_is_fully_parenthesized_infix() {
    let expr = Expr::Add(Box::new(var("x")), Box::new(num(2.0)));
    assert_eq!(run_render(&expr), "(x + 2)");
    let expr = Expr::Pow(
        Box::new(Expr::Mul(Box::new(var("x")), Box::new(num(2.0)))),
        Box::new(num(3.0)),
    );
    assert_eq!(run_render(&expr), "((x * 2) ^ 3)");
    let expr = Expr::Div(
        Box::new(Expr::Sub(Box::new(var("a")), Box::new(var("b")))),
        Box::new(num(1.5)),
    );
    assert_eq!(run_render(&expr), "((a - b) / 1.5)");
}

#[test]
fn render_calls_with_comma_separated_arguments() {
    let expr = Expr::Func("max".to_string(), vec![num(1.0), var("x"), num(3.0)]);
    assert_eq!(run_render(&expr), "max(1, x, 3)");
    let expr = Expr::Func("rand".to_string(), vec![]);
    assert_eq!(run_render(&expr), "rand()");
}

use proton_lite::expr::Expr;
use proton_lite::numeric::{NumTable, NumOp, BinKind, FuncKind};
use proton_lite::differentiate::{differentiate, DiffStep};
use proton_lite::eval::{evaluate, EvalStep, Bindings};

fn num(x: f64) -> Expr {
    Expr::Number(x.to_bits())
}

fn answer(op: NumOp) -> u64 {
    match op {
        NumOp::Bin(k, a, b) => {
            let x = f64::from_bits(a);
            let y = f64::from_bits(b);
            let v = match k {
                BinKind::Add => x + y,
                BinKind::Sub => x - y,
                BinKind::Mul => x * y,
                BinKind::Div => x / y,
                BinKind::Pow => x.powf(y),
                BinKind::Max => x.max(y),
                BinKind::Min => x.min(y),
            };
            v.to_bits()
        }
        NumOp::Apply(k, a) => {
            let x = f64::from_bits(a);
            let v = match k {
                FuncKind::Sin => x.sin(),
                FuncKind::Cos => x.cos(),
                FuncKind::Tan => x.tan(),
                FuncKind::Ln => x.ln(),
                FuncKind::Log10 => x.log10(),
                FuncKind::Sqrt => x.sqrt(),
            };
            v.to_bits()
        }
    }
}

fn run_evaluate(expr: &Expr, vars: &Bindings) -> f64 {
    let mut nums = NumTable::new();
    loop {
        match evaluate(expr, vars, &nums) {
            EvalStep::Done(bits, _) => return f64::from_bits(bits),
            EvalStep::Fail(e) => panic!("evaluation refused: {:?}", e),
            EvalStep::Need(op) => {
                let v = answer(op);
                nums.record_op(op, v);
            }
        }
    }
}

#[allow(dead_code)]
fn run_differentiate(expr: &Expr, var: &str) -> Expr {
    let mut nums = NumTable::new();
    loop {
        match differentiate(expr, var, &nums) {
            DiffStep::Done(d) => return d,
            DiffStep::Fail(e) => panic!("differentiation refused: {:?}", e),
            DiffStep::Need(op) => {
                let v = answer(op);
                nums.record_op(op, v);
            }
        }
    }
}

#[test]
fn test_test_addition() {
    let expr = Expr::Add(
        Box::new(num(2.0)),
        Box::new(num(3.0)),
    );

    let vars = Bindings::new();
    let mut result: f64 = run_evaluate(&expr, &vars);

    assert_eq!(result, 5.0);

    let expr = Expr::Add(
        Box::new(num(-2.0)),
        Box::new(num(3.0)),
    );

    result = run_evaluate(&expr, &vars);

    assert_eq!(result, 1.0);
}

#[test]
fn test_test_subtraction() {
    let expr: Expr = Expr::Sub(
        Box::new(num(10.0)),
        Box::new(num(5.0)),
    );

    let vars = Bindings::new();
    let result = run_evaluate(&expr, &vars);

    assert_eq!(result, 5.0);
}

#[test]
fn test_test_multiplication() {
    let expr: Expr = Expr::Mul(
        Box::new(num(10.0)),
        Box::new(num(5.0)),
    );

    let vars = Bindings::new();
    let result = run_evaluate(&expr, &vars);

    assert_eq!(result, 50.0);
}

#[test]
fn test_test_division() {
    let expr: Expr = Expr::Div(
        Box::new(num(10.0)),
        Box::new(num(5.0)),
    );

    let vars = Bindings::new();
    let result = run_evaluate(&expr, &vars);

    assert_eq!(result, 2.0);
}

#[test]
fn test_test_exponents() {
    let expr: Expr = Expr::Pow(
        Box::new(num(2.0)),
        Box::new(num(2.0)),
    );

    let vars = Bindings::new();
    let result: f64 = run_evaluate(&expr, &vars);

    assert_eq!(result, 4.0);
}

#[test]
fn test_test_sin() {
    let expr: Expr = Expr::Func(
        "sin".to_string(),
        vec![
            num(std::f64::consts::FRAC_PI_2)
        ],
    );

    let vars = Bindings::new();
    let result: f64 = run_evaluate(&expr, &vars);

    assert_eq!(result, 1.0);
}

#[test]
fn test_test_variable() {
    let expr = Expr::Variable("x".to_string());
    let mut vars = Bindings::new();
    vars.set("x".to_string(), (7.0f64).to_bits());
    let result = run_evaluate(&expr, &vars);
    assert_eq!(result, 7.0);
}

#[test]
fn test_test_nested_expression() {
    let expr = Expr::Add(
        Box::new(Expr::Mul(
            Box::new(num(2.0)),
            Box::new(num(3.0)),
        )),
        Box::new(num(4.0)),
    );
    let vars = Bindings::new();
    let result = run_evaluate(&expr, &vars);
    assert_eq!(result, 10.0);
}

#[test]
fn test_test_cos() {
    let expr = Expr::Func(
        "cos".to_string(),
        vec![num(0.0)],
    );
    let vars = Bindings::new();
    let result = run_evaluate(&expr, &vars);
    assert_eq!(result, 1.0);
}

#[test]
fn test_test_multiple_variables() {
    let expr = Expr::Add(
        Box::new(Expr::Variable("a".to_string())),
        Box::new(Expr::Variable("b".to_string())),
    );
    let mut vars = Bindings::new();
    vars.set("a".to_string(), (2.0f64).to_bits());
    vars.set("b".to_string(), (3.0f64).to_bits());
    let result = run_evaluate(&expr, &vars);
    assert_eq!(result, 5.0);
}

#[test]
fn test_test_func_with_variable() {
    let expr = Expr::Func(
        "sin".to_string(),
        vec![Expr::Variable("theta".to_string())],
    );
    let mut vars = Bindings::new();
    vars.set("theta".to_string(), std::f64::consts::FRAC_PI_2.to_bits());
    let result = run_evaluate(&expr, &vars);
    assert_eq!(result, 1.0);
}

#[test]
fn test_test_zero_division() {
    let expr = Expr::Div(
        Box::new(num(1.0)),
        Box::new(num(0.0)),
    );
    let vars = Bindings::new();
    let result = run_evaluate(&expr, &vars);
    assert!(result.is_infinite());
}

#[test]
fn test_test_pow_zero_exponent() {
    let expr = Expr::Pow(
        Box::new(num(5.0)),
        Box::new(num(0.0)),
    );
    let vars = Bindings::new();
    let result = run_evaluate(&expr, &vars);
    assert_eq!(result, 1.0);
}

#[test]
fn test_constant_derivative() {
    let expr = num(5.0);
    let d = run_differentiate(&expr, "x");
    assert_eq!(d, num(0.0));
}

#[test]
fn test_variable_derivative() {
    let expr = Expr::Variable("x".to_string());
    let d = run_differentiate(&expr, "x");
    assert_eq!(d, num(1.0));
    let expr = Expr::Variable("y".to_string());
    let d = run_differentiate(&expr, "x");
    assert_eq!(d, num(0.0));
}

#[test]
fn test_addition_derivative() {
    let expr = Expr::Add(
        Box::new(Expr::Variable("x".to_string())),
        Box::new(num(2.0)),
    );
    let d = run_differentiate(&expr, "x");
    assert_eq!(d, Expr::Add(Box::new(num(1.0)), Box::new(num(0.0))));
}

#[test]
fn test_multiplication_derivative() {
    let expr = Expr::Mul(
        Box::new(Expr::Variable("x".to_string())),
        Box::new(Expr::Variable("x".to_string())),
    );
    let d = run_differentiate(&expr, "x");
    // (x * x)' = x' * x + x * x' = 1*x + x*1 = x + x
    assert_eq!(d, Expr::Add(
        Box::new(Expr::Mul(Box::new(num(1.0)), Box::new(Expr::Variable("x".to_string())))),
        Box::new(Expr::Mul(Box::new(Expr::Variable("x".to_string())), Box::new(num(1.0))))
    ));
}

#[test]
fn test_power_derivative_simple() {
    let expr = Expr::Pow(
        Box::new(Expr::Variable("x".to_string())),
        Box::new(num(2.0)),
    );
    let d = run_differentiate(&expr, "x");
    // (x^2)' = 2 * x^(2-1) * 1 = 2 * x^1 * 1
    assert_eq!(d, Expr::Mul(
        Box::new(Expr::Mul(
            Box::new(num(2.0)),
            Box::new(Expr::Pow(
                Box::new(Expr::Variable("x".to_string())),
                Box::new(num(1.0)),
            ))
        )),
        Box::new(num(1.0))
    ));
}

#[test]
fn test_sin_derivative() {
    let expr = Expr::Func(
        "sin".to_string(),
        vec![Expr::Variable("x".to_string())],
    );
    let d = run_differentiate(&expr, "x");
    // (sin(x))' = cos(x) * 1
    assert_eq!(d, Expr::Mul(
        Box::new(Expr::Func("cos".to_string(), vec![Expr::Variable("x".to_string())])),
        Box::new(num(1.0))
    ));
}

#[test]
fn test_ln_derivative() {
    let expr = Expr::Func(
        "ln".to_string(),
        vec![Expr::Variable("x".to_string())],
    );
    let d = run_differentiate(&expr, "x");
    // (ln(x))' = 1 / x
    assert_eq!(d, Expr::Div(
        Box::new(num(1.0)),
        Box::new(Expr::Variable("x".to_string()))
    ));
}

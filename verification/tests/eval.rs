//! Expression-tree evaluation, driven the way a host drives it: the library
//! decides, the test supplies each IEEE 754 single-precision result it asks
//! for.

use hermes::{EvalError, EvalStep, Expr, Op, OpTable, SimpleContext};

fn apply_op(op: Op, a: u32, b: u32) -> u32 {
    let x = f32::from_bits(a);
    let y = f32::from_bits(b);
    match op {
        Op::Add => (x + y).to_bits(),
        Op::Sub => (x - y).to_bits(),
        Op::Mul => (x * y).to_bits(),
        Op::Div => (x / y).to_bits(),
        Op::Neg => (-x).to_bits(),
    }
}

fn eval_f32(e: &Expr, ctx: &SimpleContext) -> Result<f32, EvalError> {
    let mut tab = OpTable::new();
    loop {
        match e.eval(ctx, &tab) {
            EvalStep::Done(r) => return r.map(f32::from_bits),
            EvalStep::Need(op, a, b) => {
                let r = apply_op(op, a, b);
                tab.record(op, a, b, r);
            }
        }
    }
}

fn constant(v: f32) -> Expr {
    Expr::Constant(v.to_bits())
}

fn variable(name: &str) -> Expr {
    Expr::Variable(String::from(name))
}

#[test]
fn test_basic_arithmetic() {
    let expr = Expr::Add(Box::new(constant(10.0)), Box::new(constant(20.0)));
    let ctx = SimpleContext::new();
    assert_eq!(eval_f32(&expr, &ctx), Ok(30.0));
}

#[test]
fn test_variable() {
    let expr = Expr::Mul(Box::new(variable("x")), Box::new(constant(2.0)));
    let mut ctx = SimpleContext::new();
    ctx.set("x", 5.0f32.to_bits());
    assert_eq!(eval_f32(&expr, &ctx), Ok(10.0));
}

#[test]
fn missing_variable_reports_its_name() {
    let expr = variable("missing");
    let ctx = SimpleContext::new();
    assert_eq!(
        eval_f32(&expr, &ctx),
        Err(EvalError::VariableNotFound(String::from("missing")))
    );
}

#[test]
fn division_by_literal_zero() {
    let expr = Expr::Div(Box::new(constant(1.0)), Box::new(constant(0.0)));
    let ctx = SimpleContext::new();
    assert_eq!(eval_f32(&expr, &ctx), Err(EvalError::DivisionByZero));
}

#[test]
fn zero_divisor_wins_over_faulty_dividend() {
    // The dividend would fail with VariableNotFound, but the divisor is
    // checked first and the dividend never evaluated.
    let expr = Expr::Div(Box::new(variable("absent")), Box::new(constant(0.0)));
    let ctx = SimpleContext::new();
    assert_eq!(eval_f32(&expr, &ctx), Err(EvalError::DivisionByZero));
}

#[test]
fn negative_zero_divisor_is_zero() {
    let expr = Expr::Div(Box::new(constant(1.0)), Box::new(constant(-0.0)));
    let ctx = SimpleContext::new();
    assert_eq!(eval_f32(&expr, &ctx), Err(EvalError::DivisionByZero));
}

#[test]
fn nan_divisor_is_not_zero() {
    let expr = Expr::Div(Box::new(constant(1.0)), Box::new(constant(f32::NAN)));
    let ctx = SimpleContext::new();
    match eval_f32(&expr, &ctx) {
        Ok(v) => assert!(v.is_nan()),
        Err(e) => panic!("expected a NaN quotient, got {:?}", e),
    }
}

#[test]
fn computed_nonzero_divisor_divides() {
    let expr = Expr::Div(
        Box::new(constant(9.0)),
        Box::new(Expr::Add(Box::new(constant(1.0)), Box::new(constant(2.0)))),
    );
    let ctx = SimpleContext::new();
    assert_eq!(eval_f32(&expr, &ctx), Ok(3.0));
}

#[test]
fn subtraction_and_negation() {
    let expr = Expr::Sub(
        Box::new(constant(1.5)),
        Box::new(Expr::Neg(Box::new(constant(2.5)))),
    );
    let ctx = SimpleContext::new();
    assert_eq!(eval_f32(&expr, &ctx), Ok(4.0));
}

#[test]
fn first_error_in_traversal_propagates() {
    // Left operand is evaluated before the right one, so its error wins.
    let expr = Expr::Add(Box::new(variable("first")), Box::new(variable("second")));
    let ctx = SimpleContext::new();
    assert_eq!(
        eval_f32(&expr, &ctx),
        Err(EvalError::VariableNotFound(String::from("first")))
    );
}

#[test]
fn closed_tree_evaluates_deterministically() {
    // No variables, no zero divisors: evaluation succeeds against any
    // context and repeated runs give bit-identical results.
    let expr = Expr::Sub(
        Box::new(Expr::Mul(Box::new(constant(1.5)), Box::new(constant(2.5)))),
        Box::new(Expr::Div(Box::new(constant(0.5)), Box::new(constant(4.0)))),
    );
    let empty = SimpleContext::new();
    let mut full = SimpleContext::new();
    full.set("x", 7.0f32.to_bits());
    let first = eval_f32(&expr, &empty).expect("closed tree must evaluate");
    let second = eval_f32(&expr, &empty).expect("closed tree must evaluate");
    let third = eval_f32(&expr, &full).expect("closed tree must evaluate");
    assert_eq!(first.to_bits(), second.to_bits());
    assert_eq!(first.to_bits(), third.to_bits());
    assert_eq!(first, 3.625);
}

#[test]
fn set_overwrites_existing_binding() {
    let mut ctx = SimpleContext::new();
    ctx.set("x", 1.0f32.to_bits());
    ctx.set("y", 3.0f32.to_bits());
    ctx.set("x", 2.0f32.to_bits());
    let expr = Expr::Add(Box::new(variable("x")), Box::new(variable("y")));
    assert_eq!(eval_f32(&expr, &ctx), Ok(5.0));
}

#[test]
fn deep_tree_evaluates() {
    // ((1 + 2) * (10 - 4)) / neg(-3) = 18 / 3 = 6
    let expr = Expr::Div(
        Box::new(Expr::Mul(
            Box::new(Expr::Add(Box::new(constant(1.0)), Box::new(constant(2.0)))),
            Box::new(Expr::Sub(Box::new(constant(10.0)), Box::new(constant(4.0)))),
        )),
        Box::new(Expr::Neg(Box::new(constant(-3.0)))),
    );
    let ctx = SimpleContext::new();
    assert_eq!(eval_f32(&expr, &ctx), Ok(6.0));
}

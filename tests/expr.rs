use rustc_codegen_c_ast::expr::{CExpr, CExprKind, CValue};
use rustc_codegen_c_ast::pretty::PrinterCtx;
use rustc_codegen_c_ast::ty::IntTy;
use rustc_codegen_c_ast::{ModuleArena, ModuleCtx};

fn new_ctx() -> ModuleCtx {
    ModuleCtx(ModuleArena::new("// blessed test"))
}

fn render(ctx: &ModuleCtx, e: CExpr) -> String {
    let mut pp = PrinterCtx::new();
    e.print_to(&ctx.0.arena, &mut pp);
    pp.finish()
}

fn render_value(v: &CValue) -> String {
    let mut pp = PrinterCtx::new();
    v.print_to(&mut pp);
    pp.finish()
}

#[test]
fn test_value_scalar() {
    assert_eq!(render_value(&CValue::Scalar(42)), "42");
}

#[test]
fn test_value_local() {
    assert_eq!(render_value(&CValue::Local(42)), "_42");
}

#[test]
fn test_value_func() {
    assert_eq!(render_value(&CValue::Func("foo".to_string())), "foo");
}

#[test]
fn value_negative_and_extreme_scalars() {
    assert_eq!(render_value(&CValue::Scalar(-5)), "-5");
    assert_eq!(render_value(&CValue::Scalar(0)), "0");
    assert_eq!(render_value(&CValue::Scalar(i128::MIN)), i128::MIN.to_string());
    assert_eq!(render_value(&CValue::Scalar(i128::MAX)), i128::MAX.to_string());
    assert_eq!(render_value(&CValue::Local(usize::MAX)), format!("_{}", usize::MAX));
}

#[test]
fn test_expr_raw() {
    let mut ctx = new_ctx();
    let e = ctx.raw("42");
    assert_eq!(render(&ctx, e), "42");
}

#[test]
fn test_expr_binary() {
    let mut ctx = new_ctx();
    let lhs = ctx.value(CValue::Scalar(1));
    let rhs = ctx.value(CValue::Scalar(2));
    let e = ctx.binary(lhs, rhs, "+");
    assert_eq!(render(&ctx, e), "(1 + 2)");
}

#[test]
fn test_expr_cast() {
    let mut ctx = new_ctx();
    let ty = ctx.get_int_type(IntTy::I32);
    let expr = ctx.value(CValue::Scalar(42));
    let e = ctx.cast(ty, expr);
    assert_eq!(render(&ctx, e), "(int32_t) 42");
}

#[test]
fn test_expr_call() {
    let mut ctx = new_ctx();
    let callee = ctx.value(CValue::Func("foo".to_string()));
    let args = vec![ctx.value(CValue::Scalar(1)), ctx.value(CValue::Scalar(2))];
    let e = ctx.call(callee, args);
    assert_eq!(render(&ctx, e), "foo(1, 2)");
}

#[test]
fn test_expr_member() {
    let mut ctx = new_ctx();
    let expr = ctx.value(CValue::Local(42));
    let e = ctx.member(expr, "foo");
    assert_eq!(render(&ctx, e), "_42.foo");
}

#[test]
fn test_expr_complex() {
    let mut ctx = new_ctx();
    let lhs = ctx.value(CValue::Scalar(1));
    let rhs = ctx.value(CValue::Scalar(2));
    let expr = ctx.binary(lhs, rhs, "+");

    let ty = ctx.get_int_type(IntTy::I32);
    let cast = ctx.cast(ty, expr);

    let callee = ctx.value(CValue::Func("foo".to_string()));
    let args = vec![ctx.value(CValue::Scalar(1)), cast];
    let call = ctx.call(callee, args);

    let member = ctx.member(call, "bar");
    assert_eq!(render(&ctx, member), "foo(1, (int32_t) (1 + 2)).bar");
}

#[test]
fn expr_arrow_member_and_empty_call() {
    let mut ctx = new_ctx();
    let base = ctx.value(CValue::Local(1));
    let e = ctx.expr(CExprKind::Member { expr: base, arrow: true, field: "next".to_string() });
    assert_eq!(render(&ctx, e), "_1->next");
    let callee = ctx.value(CValue::Func("abort".to_string()));
    let call = ctx.call(callee, vec![]);
    assert_eq!(render(&ctx, call), "abort()");
}

#[test]
fn long_call_wraps_its_arguments() {
    let mut ctx = new_ctx();
    let callee = ctx.value(CValue::Func("some_function_with_a_long_name".to_string()));
    let mut args = vec![];
    for i in 0..12 {
        args.push(ctx.value(CValue::Local(1000 + i)));
    }
    let call = ctx.call(callee, args);
    let out = render(&ctx, call);
    assert_eq!(
        out,
        "some_function_with_a_long_name(\n    _1000,\n    _1001,\n    _1002,\n    _1003,\n    _1004,\n    _1005,\n    _1006,\n    _1007,\n    _1008,\n    _1009,\n    _1010,\n    _1011\n  )"
    );
    for line in out.lines() {
        assert!(line.len() <= 78);
    }
}

#[test]
fn default_printer_starts_empty() {
    let pp = PrinterCtx::default();
    assert_eq!(pp.finish(), "");
    let mut pp = PrinterCtx::default();
    CValue::Local(9).print_to(&mut pp);
    assert_eq!(pp.finish(), "_9");
}

use rustc_codegen_c_ast::expr::CValue;
use rustc_codegen_c_ast::pretty::PrinterCtx;
use rustc_codegen_c_ast::stmt::CStmt;
use rustc_codegen_c_ast::ty::IntTy;
use rustc_codegen_c_ast::{ModuleArena, ModuleCtx};

fn new_ctx() -> ModuleCtx {
    ModuleCtx(ModuleArena::new("// blessed test"))
}

fn render(ctx: &ModuleCtx, s: CStmt) -> String {
    let mut pp = PrinterCtx::new();
    s.print_to(&ctx.0.arena, &mut pp);
    pp.finish()
}

#[test]
fn test_stmt_expr() {
    let mut ctx = new_ctx();
    let callee = ctx.value(CValue::Func("foo".to_string()));
    let args = vec![ctx.value(CValue::Scalar(1)), ctx.value(CValue::Scalar(2))];
    let expr = ctx.call(callee, args);
    let s = ctx.expr_stmt(expr);
    assert_eq!(render(&ctx, s), "foo(1, 2);");
}

#[test]
fn test_stmt_decl() {
    let mut ctx = new_ctx();
    let ty = ctx.get_int_type(IntTy::I32);
    let name = CValue::Local(42);
    let value = ctx.value(CValue::Scalar(42));
    let decl = ctx.var(name, ty, Some(value));
    let s = ctx.decl_stmt(decl);
    assert_eq!(render(&ctx, s), "int32_t _42 = 42;");
}

#[test]
fn test_stmt_block() {
    let mut ctx = new_ctx();
    let callee = ctx.value(CValue::Func("foo".to_string()));
    let args = vec![ctx.value(CValue::Scalar(1)), ctx.value(CValue::Scalar(2))];
    let expr = ctx.call(callee, args);
    let stmt = ctx.expr_stmt(expr);
    let s = ctx.compound(vec![stmt]);
    assert_eq!(render(&ctx, s), "{ foo(1, 2); }");
}

#[test]
fn test_stmt_ret() {
    let mut ctx = new_ctx();
    let callee = ctx.value(CValue::Func("foo".to_string()));
    let args = vec![ctx.value(CValue::Scalar(1)), ctx.value(CValue::Scalar(2))];
    let expr = ctx.call(callee, args);
    let s = ctx.ret(Some(expr));
    assert_eq!(render(&ctx, s), "return foo(1, 2);");
}

#[test]
fn block_of_two_statements_keeps_their_order() {
    let mut ctx = new_ctx();
    let a = ctx.raw("first()");
    let s1 = ctx.expr_stmt(a);
    let b = ctx.raw("second()");
    let s2 = ctx.expr_stmt(b);
    let block = ctx.compound(vec![s1, s2]);
    assert_eq!(render(&ctx, block), "{\n  first();\n  second();\n}");
    let reversed = ctx.compound(vec![s2, s1]);
    assert_eq!(render(&ctx, reversed), "{\n  second();\n  first();\n}");
    let repeated = ctx.compound(vec![s1, s1]);
    assert_eq!(render(&ctx, repeated), "{\n  first();\n  first();\n}");
}

#[test]
fn empty_block_and_bare_return() {
    let mut ctx = new_ctx();
    let empty = ctx.compound(vec![]);
    assert_eq!(render(&ctx, empty), "{  }");
    let r = ctx.ret(None);
    assert_eq!(render(&ctx, r), "return;");
}

#[test]
fn nested_blocks_indent() {
    let mut ctx = new_ctx();
    let a = ctx.raw("a");
    let s1 = ctx.expr_stmt(a);
    let b = ctx.raw("b");
    let s2 = ctx.expr_stmt(b);
    let inner = ctx.compound(vec![s1, s2]);
    let outer = ctx.compound(vec![inner]);
    assert_eq!(render(&ctx, outer), "{\n  {\n    a;\n    b;\n  }\n}");
}

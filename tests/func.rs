use rustc_codegen_c_ast::expr::CValue;
use rustc_codegen_c_ast::func::CFuncKind;
use rustc_codegen_c_ast::pretty::PrinterCtx;
use rustc_codegen_c_ast::ty::IntTy;
use rustc_codegen_c_ast::{ModuleArena, ModuleCtx};

#[test]
fn test_function() {
    let mut ctx = ModuleCtx(ModuleArena::new("// blessed test"));
    let i32_ty = ctx.get_int_type(IntTy::I32);
    let mut f = CFuncKind::new("foo", i32_ty, vec![i32_ty]);
    let x = f.next_local_var();
    let d = ctx.var(x.clone(), i32_ty, None);
    let s = ctx.decl_stmt(d);
    f.push_stmt(s);
    let lhs = ctx.value(x.clone());
    let one = ctx.value(CValue::Scalar(1));
    let assign = ctx.binary(lhs, one, "=");
    let s = ctx.expr_stmt(assign);
    f.push_stmt(s);
    let v = ctx.value(x);
    let s = ctx.ret(Some(v));
    f.push_stmt(s);
    let func = ctx.func(f);
    let mut pp = PrinterCtx::new();
    func.print_to(&ctx.0.arena, &mut pp);
    assert_eq!(
        pp.finish(),
        "int32_t foo(int32_t _0)\n{\n  int32_t _1;\n  (_1 = 1);\n  return _1;\n}"
    );
}

#[test]
fn fresh_locals_follow_the_parameters() {
    let i32_ty = rustc_codegen_c_ast::ty::CTy::Int(rustc_codegen_c_ast::ty::CIntTy::I32);
    let mut f = CFuncKind::new("bar", i32_ty, vec![i32_ty, i32_ty, i32_ty]);
    assert_eq!(f.params.len(), 3);
    assert_eq!(f.params[2].1, CValue::Local(2));
    assert_eq!(f.next_local_var(), CValue::Local(3));
    assert_eq!(f.next_local_var(), CValue::Local(4));
    assert_eq!(f.next_local_var(), CValue::Local(5));
    let mut g = CFuncKind::new("baz", i32_ty, vec![]);
    assert_eq!(g.next_local_var(), CValue::Local(0));
}

#[test]
fn function_with_one_statement_fits_on_a_line() {
    let mut ctx = ModuleCtx(ModuleArena::new(""));
    let void = rustc_codegen_c_ast::ty::CTy::Void;
    let mut f = CFuncKind::new("noop", void, vec![]);
    let s = ctx.ret(None);
    f.push_stmt(s);
    let func = ctx.func(f);
    let mut pp = PrinterCtx::new();
    func.print_to(&ctx.0.arena, &mut pp);
    assert_eq!(pp.finish(), "void noop() { return; }");
}

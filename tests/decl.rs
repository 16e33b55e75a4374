use rustc_codegen_c_ast::expr::CValue;
use rustc_codegen_c_ast::pretty::PrinterCtx;
use rustc_codegen_c_ast::ty::IntTy;
use rustc_codegen_c_ast::{ModuleArena, ModuleCtx};

#[test]
fn test_decl_var() {
    let mut ctx = ModuleCtx(ModuleArena::new("// blessed test"));
    let ty = ctx.get_int_type(IntTy::I32);
    let name = CValue::Local(42);
    let value = ctx.value(CValue::Scalar(42));
    let decl = ctx.var(name, ty, Some(value));
    let mut pp = PrinterCtx::new();
    decl.print_to(&ctx.0.arena, &mut pp);
    assert_eq!(pp.finish(), "int32_t _42 = 42;");
}

#[test]
fn decl_without_initializer() {
    let mut ctx = ModuleCtx(ModuleArena::new("// blessed test"));
    let ty = ctx.get_uint_type(rustc_codegen_c_ast::ty::UintTy::U64);
    let decl = ctx.var(CValue::Local(3), ty, None);
    let mut pp = PrinterCtx::new();
    decl.print_to(&ctx.0.arena, &mut pp);
    assert_eq!(pp.finish(), "uint64_t _3;");
}

use rustc_codegen_c_ast::expr::CValue;
use rustc_codegen_c_ast::func::{CFunc, CFuncKind};
use rustc_codegen_c_ast::pretty::PrinterCtx;
use rustc_codegen_c_ast::ty::IntTy;
use rustc_codegen_c_ast::{ModuleArena, ModuleCtx};

fn build_foo(ctx: &mut ModuleCtx, name: &str) -> CFunc {
    let i32_ty = ctx.get_int_type(IntTy::I32);
    let mut f = CFuncKind::new(name, i32_ty, vec![i32_ty]);
    let x = f.next_local_var();
    let d = ctx.var(x.clone(), i32_ty, None);
    let s = ctx.decl_stmt(d);
    f.push_stmt(s);
    let lhs = ctx.value(x.clone());
    let one = ctx.value(CValue::Scalar(1));
    let assign = ctx.binary(lhs, one, "=");
    let s = ctx.expr_stmt(assign);
    f.push_stmt(s);
    let v = ctx.value(x);
    let s = ctx.ret(Some(v));
    f.push_stmt(s);
    ctx.func(f)
}

#[test]
fn test_module() {
    let mut ctx = ModuleCtx(ModuleArena::new("// blessed test"));
    ctx.0.module.push_include("stdio.h");
    let i32_ty = ctx.get_int_type(IntTy::I32);
    let d = ctx.var(CValue::Local(42), i32_ty, None);
    ctx.0.module.push_decl(d);
    let func = build_foo(&mut ctx, "foo");
    ctx.0.module.push_func(func);
    let mut pp = PrinterCtx::new();
    let module = ctx.module().clone();
    module.print_to(&ctx.0.arena, &mut pp);
    assert_eq!(
        pp.finish(),
        "#include <stdio.h>\n\n// blessed test\n\nint32_t _42;\nint32_t foo(int32_t _0);\n\nint32_t foo(int32_t _0)\n{\n  int32_t _1;\n  (_1 = 1);\n  return _1;\n}\n"
    );
}

#[test]
fn module_emission_is_repeatable_and_orders_prototypes_first() {
    let mut ctx = ModuleCtx(ModuleArena::new("/* helper */"));
    ctx.0.module.push_include("stdint.h");
    ctx.0.module.push_include("stdio.h");
    let second = build_foo(&mut ctx, "second");
    let first = build_foo(&mut ctx, "first");
    ctx.0.module.push_func(second);
    ctx.0.module.push_func(first);
    let a = ctx.to_string();
    let b = ctx.to_string();
    assert_eq!(a, b);
    let body = "(int32_t _0)\n{\n  int32_t _1;\n  (_1 = 1);\n  return _1;\n}";
    let expected = format!(
        "#include <stdint.h>\n#include <stdio.h>\n\n/* helper */\nint32_t second(int32_t _0);\nint32_t first(int32_t _0);\n\nint32_t second{body}\n\nint32_t first{body}\n"
    );
    assert_eq!(a, expected);
}

#[test]
fn empty_module_prints_helper_only() {
    let ctx = ModuleCtx(ModuleArena::new("#define X 1"));
    assert_eq!(ctx.to_string(), "\n#define X 1\n");
    assert_eq!(ctx.alloc_str("name"), "name");
    assert_eq!(ctx.arena().exprs.len(), 0);
}

#[test]
fn end_to_end_increment_function() {
    let mut ctx = ModuleCtx(ModuleArena::new(""));
    let i32_ty = ctx.get_int_type(IntTy::I32);
    let mut f = CFuncKind::new("foo", i32_ty, vec![i32_ty]);
    let param = f.params[0].1.clone();
    let x = f.next_local_var();
    let d = ctx.var(x.clone(), i32_ty, None);
    let s = ctx.decl_stmt(d);
    f.push_stmt(s);
    let p = ctx.value(param);
    let one = ctx.value(CValue::Scalar(1));
    let sum = ctx.binary(p, one, "+");
    let target = ctx.value(x.clone());
    let assign = ctx.binary(target, sum, "=");
    let s = ctx.expr_stmt(assign);
    f.push_stmt(s);
    let v = ctx.value(x);
    let s = ctx.ret(Some(v));
    f.push_stmt(s);
    let func = ctx.func(f);
    ctx.0.module.push_func(func);
    assert_eq!(
        ctx.to_string(),
        "\n\nint32_t foo(int32_t _0);\n\nint32_t foo(int32_t _0)\n{\n  int32_t _1;\n  (_1 = (_0 + 1));\n  return _1;\n}\n"
    );
}

use rustc_codegen_c_ast::expr::CValue;
use rustc_codegen_c_ast::pretty::PrinterCtx;
use rustc_codegen_c_ast::ty::{print_declarator, CIntTy, CTy, CTyKind, CUintTy};
use rustc_codegen_c_ast::{ModuleArena, ModuleCtx};

fn new_ctx() -> ModuleCtx {
    ModuleCtx(ModuleArena::new("// blessed test"))
}

fn declarator(ctx: &ModuleCtx, ty: CTy, val: Option<&CValue>) -> String {
    let mut pp = PrinterCtx::new();
    print_declarator(ty, val, &ctx.0.arena.tys, &mut pp);
    pp.finish()
}

#[test]
fn test_print_declarator_primitive() {
    let ctx = new_ctx();
    assert_eq!(declarator(&ctx, CTy::Void, None), "void");
    let val = CValue::Local(0);
    assert_eq!(declarator(&ctx, CTy::Int(CIntTy::I32), Some(&val)), "int32_t _0");
}

#[test]
fn test_print_declarator_pointer() {
    let mut ctx = new_ctx();
    let ptr_type = ctx.ty(CTyKind::Pointer(CTy::Int(CIntTy::I32)));
    assert_eq!(declarator(&ctx, ptr_type, None), "int32_t *");
    assert_eq!(declarator(&ctx, ptr_type, Some(&CValue::Local(1))), "int32_t *_1");

    let ptr2_type = ctx.ty(CTyKind::Pointer(ptr_type));
    assert_eq!(declarator(&ctx, ptr2_type, None), "int32_t **");
    assert_eq!(declarator(&ctx, ptr2_type, Some(&CValue::Local(2))), "int32_t **_2");
}

#[test]
fn test_print_declarator_array() {
    let mut ctx = new_ctx();
    let array_type = ctx.ty(CTyKind::Array(CTy::Int(CIntTy::I32), 10));
    assert_eq!(declarator(&ctx, array_type, None), "int32_t [10]");
    assert_eq!(declarator(&ctx, array_type, Some(&CValue::Local(2))), "int32_t _2[10]");
}

#[test]
fn test_print_declarator_complex() {
    let mut ctx = new_ctx();
    let array_type = ctx.ty(CTyKind::Array(CTy::Int(CIntTy::I32), 10));
    let ptr_type = ctx.ty(CTyKind::Pointer(array_type));
    assert_eq!(declarator(&ctx, ptr_type, Some(&CValue::Local(3))), "int32_t (*_3)[10]");

    let inner_array_type = ctx.ty(CTyKind::Array(CTy::Int(CIntTy::I32), 5));
    let ptr_to_array_type = ctx.ty(CTyKind::Pointer(inner_array_type));
    let array_of_ptrs_type = ctx.ty(CTyKind::Array(ptr_to_array_type, 3));
    assert_eq!(
        declarator(&ctx, array_of_ptrs_type, Some(&CValue::Local(4))),
        "int32_t (*_4[3])[5]"
    );
}

#[test]
fn declarator_array_of_pointers_has_no_parentheses() {
    let mut ctx = new_ctx();
    let ptr = ctx.ty(CTyKind::Pointer(CTy::Char));
    let arr = ctx.ty(CTyKind::Array(ptr, 4));
    assert_eq!(declarator(&ctx, arr, Some(&CValue::Local(7))), "char *_7[4]");
    assert_eq!(declarator(&ctx, arr, None), "char *[4]");
}

#[test]
fn declarator_pointer_to_array_without_name() {
    let mut ctx = new_ctx();
    let arr = ctx.ty(CTyKind::Array(CTy::Bool, 2));
    let ptr = ctx.ty(CTyKind::Pointer(arr));
    assert_eq!(declarator(&ctx, ptr, None), "_Bool (*)[2]");
}

#[test]
fn declarator_of_function_name() {
    let ctx = new_ctx();
    let name = CValue::Func("main".to_string());
    assert_eq!(declarator(&ctx, CTy::UInt(CUintTy::U8), Some(&name)), "uint8_t main");
}

#[test]
fn interning_returns_the_same_handle_for_equal_types() {
    let mut ctx = new_ctx();
    let a = ctx.ty(CTyKind::Pointer(CTy::Int(CIntTy::I32)));
    let b = ctx.ty(CTyKind::Pointer(CTy::Int(CIntTy::I32)));
    assert_eq!(a, b);
    let c = ctx.ty(CTyKind::Pointer(CTy::Int(CIntTy::I64)));
    assert_ne!(a, c);
    assert_eq!(ctx.0.arena.tys.len(), 2);
}

#[test]
fn interning_distinguishes_array_lengths() {
    let mut ctx = new_ctx();
    let a = ctx.ty(CTyKind::Array(CTy::Char, 3));
    let b = ctx.ty(CTyKind::Array(CTy::Char, 4));
    let c = ctx.ty(CTyKind::Array(CTy::Char, 3));
    assert_ne!(a, b);
    assert_eq!(a, c);
}

#[test]
fn integer_type_names_and_limits() {
    let signed = [
        (CIntTy::Isize, "size_t", "SIZE_MAX"),
        (CIntTy::I8, "int8_t", "INT8_MAX"),
        (CIntTy::I16, "int16_t", "INT16_MAX"),
        (CIntTy::I32, "int32_t", "INT32_MAX"),
        (CIntTy::I64, "int64_t", "INT64_MAX"),
    ];
    for (t, name, max) in signed {
        assert_eq!(t.to_str(), name);
        assert_eq!(t.max_value(), max);
        assert_eq!(CTy::Int(t).to_str(), name);
        assert_eq!(CTy::Int(t).max_value(), max);
    }
    let unsigned = [
        (CUintTy::Usize, "size_t", "SIZE_MAX"),
        (CUintTy::U8, "uint8_t", "UINT8_MAX"),
        (CUintTy::U16, "uint16_t", "UINT16_MAX"),
        (CUintTy::U32, "uint32_t", "UINT32_MAX"),
        (CUintTy::U64, "uint64_t", "UINT64_MAX"),
    ];
    for (t, name, max) in unsigned {
        assert_eq!(t.to_str(), name);
        assert_eq!(t.max_value(), max);
        assert_eq!(CTy::UInt(t).to_str(), name);
        assert_eq!(CTy::UInt(t).max_value(), max);
    }
}

#[test]
fn primitive_types_and_signedness() {
    assert_eq!(CTy::Void.to_str(), "void");
    assert_eq!(CTy::Bool.to_str(), "_Bool");
    assert_eq!(CTy::Char.to_str(), "char");
    assert!(CTy::Int(CIntTy::I8).is_signed());
    assert!(!CTy::UInt(CUintTy::U8).is_signed());
    assert!(!CTy::Char.is_signed());
    assert_eq!(CTy::Int(CIntTy::I16).to_unsigned(), CTy::UInt(CUintTy::U16));
    assert_eq!(CTy::Int(CIntTy::Isize).to_unsigned(), CTy::UInt(CUintTy::Usize));
    assert_eq!(CIntTy::I64.to_unsigned(), CUintTy::U64);
    assert!(CTy::Void.is_primitive());
}

#[test]
fn compound_type_queries() {
    let mut ctx = new_ctx();
    let arr = ctx.ty(CTyKind::Array(CTy::Char, 3));
    let ptr = ctx.ty(CTyKind::Pointer(CTy::Char));
    assert!(!arr.is_primitive());
    assert!(arr.is_array(&ctx.0.arena.tys));
    assert!(!ptr.is_array(&ctx.0.arena.tys));
    assert!(!CTy::Char.is_array(&ctx.0.arena.tys));
}

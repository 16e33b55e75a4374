//! A subset of the C abstract syntax tree, with an arena that owns its nodes
//! and a box-layout printer that renders it as C source text.
pub mod arena;
pub mod decl;
pub mod expr;
pub mod func;
pub mod module;
pub mod pretty;
pub mod stmt;
pub mod ty;

use vstd::prelude::*;
use vstd::string::*;

use crate::arena::Arena;
use crate::decl::{decl_wf, CDecl, CDeclKind};
use crate::expr::{expr_wf, CExpr, CExprKind, CValue};
use crate::func::{func_wf, CFunc, CFuncKind};
use crate::module::{module_doc, module_wf, Module};
use crate::pretty::{layout, PrinterCtx};
use crate::stmt::{stmt_wf, CStmt, CStmtKind};
use crate::ty::{kind_inner, ty_below, CIntTy, CTy, CTyKind, CUintTy, IntTy, UintTy};

verus! {

/// A module under construction, with the arena that owns its nodes.
pub struct ModuleArena {
    /// The memory arena for the module.
    pub arena: Arena,
    /// The module's AST node.
    pub module: Module,
}

impl ModuleArena {
    /// An empty module with the given helper code, and an empty arena.
    pub fn new(helper: &str) -> (r: Self)
        ensures
            r.arena.wf(),
            r.arena.tys@.len() == 0,
            r.arena.exprs@.len() == 0,
            r.arena.stmts@.len() == 0,
            r.arena.decls@.len() == 0,
            r.arena.funcs@.len() == 0,
            r.module.includes@.len() == 0,
            r.module.helper@ == helper@,
            r.module.decls@.len() == 0,
            r.module.funcs@.len() == 0,
    {
        ModuleArena { arena: Arena::new(), module: Module::new(helper) }
    }
}

/// The builder of one C file: creates AST nodes in the arena.
pub struct ModuleCtx(pub ModuleArena);

/// `new` differs from `old` only by the expression appended at `r`.
pub open spec fn added_expr(old: ModuleCtx, new: ModuleCtx, r: CExpr) -> bool {
    &&& r.0 == old.0.arena.exprs@.len()
    &&& new.0.arena.exprs@.len() == old.0.arena.exprs@.len() + 1
    &&& new.0.arena.exprs@.drop_last() == old.0.arena.exprs@
    &&& new.0.arena.tys == old.0.arena.tys
    &&& new.0.arena.stmts == old.0.arena.stmts
    &&& new.0.arena.decls == old.0.arena.decls
    &&& new.0.arena.funcs == old.0.arena.funcs
    &&& new.0.module == old.0.module
}

/// `new` differs from `old` only by the statement appended at `r`.
pub open spec fn added_stmt(old: ModuleCtx, new: ModuleCtx, r: CStmt) -> bool {
    &&& r.0 == old.0.arena.stmts@.len()
    &&& new.0.arena.stmts@.len() == old.0.arena.stmts@.len() + 1
    &&& new.0.arena.stmts@.drop_last() == old.0.arena.stmts@
    &&& new.0.arena.tys == old.0.arena.tys
    &&& new.0.arena.exprs == old.0.arena.exprs
    &&& new.0.arena.decls == old.0.arena.decls
    &&& new.0.arena.funcs == old.0.arena.funcs
    &&& new.0.module == old.0.module
}

/// `new` differs from `old` only by the declaration appended at `r`.
pub open spec fn added_decl(old: ModuleCtx, new: ModuleCtx, r: CDecl) -> bool {
    &&& r.0 == old.0.arena.decls@.len()
    &&& new.0.arena.decls@.len() == old.0.arena.decls@.len() + 1
    &&& new.0.arena.decls@.drop_last() == old.0.arena.decls@
    &&& new.0.arena.tys == old.0.arena.tys
    &&& new.0.arena.exprs == old.0.arena.exprs
    &&& new.0.arena.stmts == old.0.arena.stmts
    &&& new.0.arena.funcs == old.0.arena.funcs
    &&& new.0.module == old.0.module
}

/// `r` is the interned handle of `kind` in `new`: the one `old` already had
/// for it, or else a new last entry; nothing else changed.
pub open spec fn interned(old: ModuleCtx, new: ModuleCtx, kind: CTyKind, r: CTy) -> bool {
    let before = old.0.arena.tys@;
    let after = new.0.arena.tys@;
    &&& r is Ref
    &&& r->Ref_0 < after.len()
    &&& after[r->Ref_0 as int] == kind
    &&& (exists|i: int| 0 <= i < before.len() && before[i] == kind) ==> after == before
    &&& !(exists|i: int| 0 <= i < before.len() && before[i] == kind) ==> after == before.push(kind)
    &&& new.0.arena.exprs == old.0.arena.exprs
    &&& new.0.arena.stmts == old.0.arena.stmts
    &&& new.0.arena.decls == old.0.arena.decls
    &&& new.0.arena.funcs == old.0.arena.funcs
    &&& new.0.module == old.0.module
}

/// Interning identity: two successive internings give the same handle exactly
/// when they were given equal types.
pub proof fn lemma_interning_identity(
    c0: ModuleCtx,
    c1: ModuleCtx,
    c2: ModuleCtx,
    k1: CTyKind,
    k2: CTyKind,
    r1: CTy,
    r2: CTy,
)
    requires
        c0.wf(),
        c1.wf(),
        c2.wf(),
        interned(c0, c1, k1, r1),
        interned(c1, c2, k2, r2),
    ensures
        (r1 == r2) <==> (k1 == k2),
{
    let a = r1->Ref_0 as int;
    let b = r2->Ref_0 as int;
    let t1 = c1.0.arena.tys@;
    let t2 = c2.0.arena.tys@;
    assert(t2[a] == k1) by {
        if !(exists|i: int| 0 <= i < t1.len() && t1[i] == k2) {
            assert(t2 == t1.push(k2));
        }
    }
    if k1 == k2 {
        assert(t1[a] == k2);
        assert(t2 == t1);
        if a != b {
            if a < b {
                assert(t2[a] != t2[b]);
            } else {
                assert(t2[b] != t2[a]);
            }
        }
    }
}

/// Emission depends only on the module and its arena: emitting twice with no
/// change in between gives the same text.
pub proof fn lemma_emission_repeatable(c: ModuleCtx, first: String, second: String)
    requires
        first@ == layout(module_doc(c.0.arena, c.0.module)),
        second@ == layout(module_doc(c.0.arena, c.0.module)),
    ensures
        first@ == second@,
{
}

impl ModuleCtx {
    /// Every node refers to existing nodes, and the module to nodes of the
    /// arena.
    pub open spec fn wf(&self) -> bool {
        self.0.arena.wf() && module_wf(self.0.module, self.0.arena)
    }

    /// The memory arena of the context.
    pub fn arena(&self) -> (r: &Arena)
        ensures
            *r == self.0.arena,
    {
        &self.0.arena
    }

    /// The AST node of the module.
    pub fn module(&self) -> (r: &Module)
        ensures
            *r == self.0.module,
    {
        &self.0.module
    }

    /// A copy of `s` for use in nodes of this module.
    pub fn alloc_str(&self, s: &str) -> (r: String)
        ensures
            r@ == s@,
    {
        String::from_str(s)
    }

    /// Interns a compound type: the handle of an equal type if one was
    /// interned before, else of a new entry.
    pub fn ty(&mut self, kind: CTyKind) -> (r: CTy)
        requires
            old(self).wf(),
            ty_below(kind_inner(kind), old(self).0.arena.tys@.len() as int),
        ensures
            final(self).wf(),
            interned(*old(self), *final(self), kind, r),
    {
        let mut i: usize = 0;
        while i < self.0.arena.tys.len()
            invariant
                *self == *old(self),
                self.wf(),
                i <= self.0.arena.tys@.len(),
                forall|j: int| 0 <= j < i ==> self.0.arena.tys@[j] != kind,
            decreases self.0.arena.tys@.len() - i,
        {
            if self.0.arena.tys[i] == kind {
                return CTy::Ref(i);
            }
            i = i + 1;
        }
        let id = self.0.arena.tys.len();
        self.0.arena.tys.push(kind);
        let ghost a = self.0.arena;
        assert(forall|i: int|
            0 <= i < a.exprs@.len() ==> expr_wf(#[trigger] a.exprs@[i], i, a.tys@.len() as int));
        assert(forall|i: int|
            0 <= i < a.decls@.len() ==> decl_wf(
                #[trigger] a.decls@[i],
                a.exprs@.len() as int,
                a.tys@.len() as int,
            ));
        assert(forall|i: int|
            0 <= i < a.funcs@.len() ==> func_wf(
                #[trigger] a.funcs@[i],
                a.stmts@.len() as int,
                a.tys@.len() as int,
            ));
        CTy::Ref(id)
    }

    /// Adds an expression.
    pub fn expr(&mut self, expr: CExprKind) -> (r: CExpr)
        requires
            old(self).wf(),
            expr_wf(
                expr,
                old(self).0.arena.exprs@.len() as int,
                old(self).0.arena.tys@.len() as int,
            ),
        ensures
            final(self).wf(),
            added_expr(*old(self), *final(self), r),
            final(self).0.arena.exprs@.last() == expr,
    {
        let id = self.0.arena.exprs.len();
        self.0.arena.exprs.push(expr);
        let ghost a = self.0.arena;
        assert(forall|i: int|
            0 <= i < a.exprs@.len() ==> expr_wf(#[trigger] a.exprs@[i], i, a.tys@.len() as int));
        assert(forall|i: int|
            0 <= i < a.stmts@.len() ==> stmt_wf(
                #[trigger] a.stmts@[i],
                i,
                a.decls@.len() as int,
                a.exprs@.len() as int,
            ));
        assert(forall|i: int|
            0 <= i < a.decls@.len() ==> decl_wf(
                #[trigger] a.decls@[i],
                a.exprs@.len() as int,
                a.tys@.len() as int,
            ));
        assert(self.0.arena.exprs@.drop_last() =~= old(self).0.arena.exprs@);
        CExpr(id)
    }

    /// Adds a raw expression, printed as it is.
    pub fn raw(&mut self, raw: &str) -> (r: CExpr)
        requires
            old(self).wf(),
        ensures
            final(self).wf(),
            added_expr(*old(self), *final(self), r),
            final(self).0.arena.exprs@.last() is Raw,
            final(self).0.arena.exprs@.last()->Raw_0@ == raw@,
    {
        self.expr(CExprKind::Raw(String::from_str(raw)))
    }

    /// Adds a value expression.
    pub fn value(&mut self, value: CValue) -> (r: CExpr)
        requires
            old(self).wf(),
        ensures
            final(self).wf(),
            added_expr(*old(self), *final(self), r),
            final(self).0.arena.exprs@.last() == CExprKind::Value(value),
    {
        self.expr(CExprKind::Value(value))
    }

    /// Adds a binary expression `(lhs op rhs)`.
    pub fn binary(&mut self, lhs: CExpr, rhs: CExpr, op: &str) -> (r: CExpr)
        requires
            old(self).wf(),
            lhs.0 < old(self).0.arena.exprs@.len(),
            rhs.0 < old(self).0.arena.exprs@.len(),
        ensures
            final(self).wf(),
            added_expr(*old(self), *final(self), r),
            final(self).0.arena.exprs@.last() is Binary,
            final(self).0.arena.exprs@.last()->lhs == lhs,
            final(self).0.arena.exprs@.last()->rhs == rhs,
            final(self).0.arena.exprs@.last()->op@ == op@,
    {
        self.expr(CExprKind::Binary { lhs, rhs, op: String::from_str(op) })
    }

    /// Adds a cast of `expr` to `ty`.
    pub fn cast(&mut self, ty: CTy, expr: CExpr) -> (r: CExpr)
        requires
            old(self).wf(),
            ty_below(ty, old(self).0.arena.tys@.len() as int),
            expr.0 < old(self).0.arena.exprs@.len(),
        ensures
            final(self).wf(),
            added_expr(*old(self), *final(self), r),
            final(self).0.arena.exprs@.last() == (CExprKind::Cast { ty, expr }),
    {
        self.expr(CExprKind::Cast { ty, expr })
    }

    /// Adds a call of `callee` with `args`.
    pub fn call(&mut self, callee: CExpr, args: Vec<CExpr>) -> (r: CExpr)
        requires
            old(self).wf(),
            callee.0 < old(self).0.arena.exprs@.len(),
            forall|j: int| 0 <= j < args@.len() ==> (#[trigger] args@[j]).0 < old(self).0.arena.exprs@.len(),
        ensures
            final(self).wf(),
            added_expr(*old(self), *final(self), r),
            final(self).0.arena.exprs@.last() == (CExprKind::Call { callee, args }),
    {
        self.expr(CExprKind::Call { callee, args })
    }

    /// Adds a member access `expr.field`.
    pub fn member(&mut self, expr: CExpr, field: &str) -> (r: CExpr)
        requires
            old(self).wf(),
            expr.0 < old(self).0.arena.exprs@.len(),
        ensures
            final(self).wf(),
            added_expr(*old(self), *final(self), r),
            final(self).0.arena.exprs@.last() is Member,
            final(self).0.arena.exprs@.last()->Member_expr == expr,
            !final(self).0.arena.exprs@.last()->arrow,
            final(self).0.arena.exprs@.last()->field@ == field@,
    {
        self.expr(CExprKind::Member { expr, arrow: false, field: String::from_str(field) })
    }

    /// Adds a declaration.
    pub fn decl(&mut self, decl: CDeclKind) -> (r: CDecl)
        requires
            old(self).wf(),
            decl_wf(
                decl,
                old(self).0.arena.exprs@.len() as int,
                old(self).0.arena.tys@.len() as int,
            ),
        ensures
            final(self).wf(),
            added_decl(*old(self), *final(self), r),
            final(self).0.arena.decls@.last() == decl,
    {
        let id = self.0.arena.decls.len();
        self.0.arena.decls.push(decl);
        let ghost a = self.0.arena;
        assert(forall|i: int|
            0 <= i < a.stmts@.len() ==> stmt_wf(
                #[trigger] a.stmts@[i],
                i,
                a.decls@.len() as int,
                a.exprs@.len() as int,
            ));
        assert(forall|i: int|
            0 <= i < a.decls@.len() ==> decl_wf(
                #[trigger] a.decls@[i],
                a.exprs@.len() as int,
                a.tys@.len() as int,
            ));
        assert(self.0.arena.decls@.drop_last() =~= old(self).0.arena.decls@);
        CDecl(id)
    }

    /// Adds a variable declaration.
    pub fn var(&mut self, name: CValue, ty: CTy, init: Option<CExpr>) -> (r: CDecl)
        requires
            old(self).wf(),
            ty_below(ty, old(self).0.arena.tys@.len() as int),
            init is Some ==> init->Some_0.0 < old(self).0.arena.exprs@.len(),
        ensures
            final(self).wf(),
            added_decl(*old(self), *final(self), r),
            final(self).0.arena.decls@.last() == (CDeclKind::Var { name, ty, init }),
    {
        self.decl(CDeclKind::Var { name, ty, init })
    }

    /// Adds a statement.
    pub fn stmt(&mut self, stmt: CStmtKind) -> (r: CStmt)
        requires
            old(self).wf(),
            stmt_wf(
                stmt,
                old(self).0.arena.stmts@.len() as int,
                old(self).0.arena.decls@.len() as int,
                old(self).0.arena.exprs@.len() as int,
            ),
        ensures
            final(self).wf(),
            added_stmt(*old(self), *final(self), r),
            final(self).0.arena.stmts@.last() == stmt,
    {
        let id = self.0.arena.stmts.len();
        self.0.arena.stmts.push(stmt);
        let ghost a = self.0.arena;
        assert(forall|i: int|
            0 <= i < a.stmts@.len() ==> stmt_wf(
                #[trigger] a.stmts@[i],
                i,
                a.decls@.len() as int,
                a.exprs@.len() as int,
            ));
        assert(forall|i: int|
            0 <= i < a.funcs@.len() ==> func_wf(
                #[trigger] a.funcs@[i],
                a.stmts@.len() as int,
                a.tys@.len() as int,
            ));
        assert(self.0.arena.stmts@.drop_last() =~= old(self).0.arena.stmts@);
        CStmt(id)
    }

    /// Adds a compound statement.
    pub fn compound(&mut self, stmts: Vec<CStmt>) -> (r: CStmt)
        requires
            old(self).wf(),
            forall|j: int| 0 <= j < stmts@.len() ==> (#[trigger] stmts@[j]).0 < old(self).0.arena.stmts@.len(),
        ensures
            final(self).wf(),
            added_stmt(*old(self), *final(self), r),
            final(self).0.arena.stmts@.last() == CStmtKind::Compound(stmts),
    {
        self.stmt(CStmtKind::Compound(stmts))
    }

    /// Adds a return statement.
    pub fn ret(&mut self, expr: Option<CExpr>) -> (r: CStmt)
        requires
            old(self).wf(),
            expr is Some ==> expr->Some_0.0 < old(self).0.arena.exprs@.len(),
        ensures
            final(self).wf(),
            added_stmt(*old(self), *final(self), r),
            final(self).0.arena.stmts@.last() == CStmtKind::Return(expr),
    {
        self.stmt(CStmtKind::Return(expr))
    }

    /// Adds a declaration statement.
    pub fn decl_stmt(&mut self, decl: CDecl) -> (r: CStmt)
        requires
            old(self).wf(),
            decl.0 < old(self).0.arena.decls@.len(),
        ensures
            final(self).wf(),
            added_stmt(*old(self), *final(self), r),
            final(self).0.arena.stmts@.last() == CStmtKind::Decl(decl),
    {
        self.stmt(CStmtKind::Decl(decl))
    }

    /// Adds an expression statement.
    pub fn expr_stmt(&mut self, expr: CExpr) -> (r: CStmt)
        requires
            old(self).wf(),
            expr.0 < old(self).0.arena.exprs@.len(),
        ensures
            final(self).wf(),
            added_stmt(*old(self), *final(self), r),
            final(self).0.arena.stmts@.last() == CStmtKind::Expr(expr),
    {
        self.stmt(CStmtKind::Expr(expr))
    }

    /// Adds a function definition.
    pub fn func(&mut self, func: CFuncKind) -> (r: CFunc)
        requires
            old(self).wf(),
            func_wf(
                func,
                old(self).0.arena.stmts@.len() as int,
                old(self).0.arena.tys@.len() as int,
            ),
        ensures
            final(self).wf(),
            r.0 == old(self).0.arena.funcs@.len(),
            final(self).0.arena.funcs@ == old(self).0.arena.funcs@.push(func),
            final(self).0.arena.tys == old(self).0.arena.tys,
            final(self).0.arena.exprs == old(self).0.arena.exprs,
            final(self).0.arena.stmts == old(self).0.arena.stmts,
            final(self).0.arena.decls == old(self).0.arena.decls,
            final(self).0.module == old(self).0.module,
    {
        let id = self.0.arena.funcs.len();
        self.0.arena.funcs.push(func);
        CFunc(id)
    }

    /// The module's C source text.
    pub fn to_string(&self) -> (r: String)
        requires
            self.wf(),
        ensures
            r@ == layout(module_doc(self.0.arena, self.0.module)),
    {
        let mut printer = PrinterCtx::new();
        self.0.module.print_to(&self.0.arena, &mut printer);
        assert(printer@ =~= module_doc(self.0.arena, self.0.module));
        printer.finish()
    }

    /// The C type of a signed integer type.
    pub fn get_int_type(&self, int_ty: IntTy) -> (r: CTy)
        requires
            int_ty != IntTy::I128,
        ensures
            r == CTy::Int(
                match int_ty {
                    IntTy::Isize => CIntTy::Isize,
                    IntTy::I8 => CIntTy::I8,
                    IntTy::I16 => CIntTy::I16,
                    IntTy::I32 => CIntTy::I32,
                    _ => CIntTy::I64,
                },
            ),
    {
        match int_ty {
            IntTy::Isize => CTy::Int(CIntTy::Isize),
            IntTy::I8 => CTy::Int(CIntTy::I8),
            IntTy::I16 => CTy::Int(CIntTy::I16),
            IntTy::I32 => CTy::Int(CIntTy::I32),
            _ => CTy::Int(CIntTy::I64),
        }
    }

    /// The C type of an unsigned integer type.
    pub fn get_uint_type(&self, uint_ty: UintTy) -> (r: CTy)
        requires
            uint_ty != UintTy::U128,
        ensures
            r == CTy::UInt(
                match uint_ty {
                    UintTy::Usize => CUintTy::Usize,
                    UintTy::U8 => CUintTy::U8,
                    UintTy::U16 => CUintTy::U16,
                    UintTy::U32 => CUintTy::U32,
                    _ => CUintTy::U64,
                },
            ),
    {
        match uint_ty {
            UintTy::Usize => CTy::UInt(CUintTy::Usize),
            UintTy::U8 => CTy::UInt(CUintTy::U8),
            UintTy::U16 => CTy::UInt(CUintTy::U16),
            UintTy::U32 => CTy::UInt(CUintTy::U32),
            _ => CTy::UInt(CUintTy::U64),
        }
    }
}

} // verus!

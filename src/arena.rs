//! The arena that owns every node of one module. Nodes refer to each other by
//! index and are never removed; compound types are interned.
use vstd::prelude::*;

use crate::decl::{decl_wf, CDeclKind};
use crate::expr::{expr_wf, CExprKind};
use crate::func::{func_wf, CFuncKind};
use crate::stmt::{stmt_wf, CStmtKind};
use crate::ty::{tys_wf, CTyKind};

verus! {

/// Memory arena for C AST nodes.
pub struct Arena {
    /// Interned compound types.
    pub tys: Vec<CTyKind>,
    pub exprs: Vec<CExprKind>,
    pub stmts: Vec<CStmtKind>,
    pub decls: Vec<CDeclKind>,
    pub funcs: Vec<CFuncKind>,
}

impl Arena {
    /// Every node refers only to nodes that exist, and expressions and
    /// statements only to nodes created before them.
    pub open spec fn wf(&self) -> bool {
        let n_tys = self.tys@.len() as int;
        &&& tys_wf(self.tys@)
        &&& forall|i: int|
            0 <= i < self.exprs@.len() ==> expr_wf(#[trigger] self.exprs@[i], i, n_tys)
        &&& forall|i: int|
            0 <= i < self.stmts@.len() ==> stmt_wf(
                #[trigger] self.stmts@[i],
                i,
                self.decls@.len() as int,
                self.exprs@.len() as int,
            )
        &&& forall|i: int|
            0 <= i < self.decls@.len() ==> decl_wf(
                #[trigger] self.decls@[i],
                self.exprs@.len() as int,
                n_tys,
            )
        &&& forall|i: int|
            0 <= i < self.funcs@.len() ==> func_wf(
                #[trigger] self.funcs@[i],
                self.stmts@.len() as int,
                n_tys,
            )
    }

    pub fn new() -> (r: Self)
        ensures
            r.wf(),
            r.tys@.len() == 0,
            r.exprs@.len() == 0,
            r.stmts@.len() == 0,
            r.decls@.len() == 0,
            r.funcs@.len() == 0,
    {
        Arena {
            tys: Vec::new(),
            exprs: Vec::new(),
            stmts: Vec::new(),
            decls: Vec::new(),
            funcs: Vec::new(),
        }
    }
}

} // verus!

//! C declarations.
use vstd::prelude::*;

use crate::arena::Arena;
use crate::expr::{expr_doc, CExpr, CValue};
use crate::pretty::{ibox, softbreak, text, PrinterCtx, Tok, INDENT};
use crate::ty::{declarator_doc, print_declarator, ty_below, CTy};

verus! {

/// A declaration, by its index in the arena.
#[derive(Clone, Copy, Debug, PartialEq, Eq, Hash, Structural)]
pub struct CDecl(pub usize);

/// C declarations.
#[derive(Clone, Debug)]
pub enum CDeclKind {
    /// A variable declaration: name, type and optional initializer.
    Var { name: CValue, ty: CTy, init: Option<CExpr> },
}

/// A declaration refers only to existing expressions and types.
pub open spec fn decl_wf(k: CDeclKind, n_exprs: int, n_tys: int) -> bool {
    match k {
        CDeclKind::Var { ty, init, .. } => ty_below(ty, n_tys) && match init {
            Some(e) => e.0 < n_exprs,
            None => true,
        },
    }
}

/// The tokens that print the declaration at index `d`: its declarator, the
/// initializer if any, and a semicolon.
pub open spec fn decl_doc(a: Arena, d: int) -> Seq<Tok> {
    if 0 <= d < a.decls@.len() {
        match a.decls@[d] {
            CDeclKind::Var { name, ty, init } => seq![ibox(INDENT)] + declarator_doc(
                a.tys@,
                ty,
                Some(name),
            ) + match init {
                Some(e) => seq![text(" ="@), softbreak()] + expr_doc(a.exprs@, a.tys@, e.0 as int),
                None => Seq::empty(),
            } + seq![text(";"@), Tok::End],
        }
    } else {
        Seq::empty()
    }
}

impl CDecl {
    /// Prints the declaration.
    pub fn print_to(self, arena: &Arena, ctx: &mut PrinterCtx)
        requires
            arena.wf(),
            self.0 < arena.decls@.len(),
        ensures
            final(ctx)@ == old(ctx)@ + decl_doc(*arena, self.0 as int),
    {
        assert(decl_wf(arena.decls@[self.0 as int], arena.exprs@.len() as int, arena.tys@.len() as int));
        match &arena.decls[self.0] {
            CDeclKind::Var { name, ty, init } => {
                ctx.ibox(INDENT);
                print_declarator(*ty, Some(name), &arena.tys, ctx);
                match init {
                    Some(e) => {
                        ctx.word(" =");
                        ctx.softbreak();
                        e.print_to(arena, ctx);
                    },
                    None => {},
                }
                ctx.word(";");
                ctx.end();
            },
        }
        assert(ctx@ =~= old(ctx)@ + decl_doc(*arena, self.0 as int));
    }
}

} // verus!

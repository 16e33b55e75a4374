//! C statements.
use vstd::prelude::*;

use crate::arena::Arena;
use crate::decl::{decl_doc, CDecl};
use crate::expr::{expr_doc, CExpr};
use crate::pretty::{cbox, ibox, softbreak, text, PrinterCtx, Tok, INDENT};

verus! {

/// A statement, by its index in the arena.
#[derive(Clone, Copy, Debug, PartialEq, Eq, Hash, Structural)]
pub struct CStmt(pub usize);

/// C statements.
#[derive(Clone, Debug)]
pub enum CStmtKind {
    /// A sequence of statements in braces.
    Compound(Vec<CStmt>),
    /// A return statement.
    Return(Option<CExpr>),
    /// A declaration statement, e.g. `int32_t _1 = 42;`.
    Decl(CDecl),
    /// An expression statement, e.g. `foo(_1);`.
    Expr(CExpr),
}

/// The statement at index `i` refers only to statements before it and to
/// existing declarations and expressions.
pub open spec fn stmt_wf(k: CStmtKind, i: int, n_decls: int, n_exprs: int) -> bool {
    match k {
        CStmtKind::Compound(list) => forall|j: int|
            0 <= j < list@.len() ==> (#[trigger] list@[j]).0 < i,
        CStmtKind::Return(ret) => match ret {
            Some(e) => e.0 < n_exprs,
            None => true,
        },
        CStmtKind::Decl(d) => d.0 < n_decls,
        CStmtKind::Expr(e) => e.0 < n_exprs,
    }
}

pub open spec fn open_brace() -> Seq<Tok> {
    seq![cbox(INDENT), text("{"@), Tok::Break { blank: 1, offset: 0 }]
}

pub open spec fn close_brace() -> Seq<Tok> {
    seq![Tok::Break { blank: 1, offset: (-INDENT) as isize }, text("}"@), Tok::End]
}

/// The tokens that print the statement at index `s`.
pub open spec fn stmt_doc(a: Arena, s: int) -> Seq<Tok>
    decreases s, 1int, 0int,
{
    if 0 <= s < a.stmts@.len() {
        match a.stmts@[s] {
            CStmtKind::Compound(list) => open_brace() + stmts_doc(a, list@, list@.len() as int, s)
                + close_brace(),
            CStmtKind::Return(ret) => seq![ibox(INDENT), text("return"@)] + match ret {
                Some(e) => seq![softbreak()] + expr_doc(a.exprs@, a.tys@, e.0 as int),
                None => Seq::empty(),
            } + seq![text(";"@), Tok::End],
            CStmtKind::Decl(d) => decl_doc(a, d.0 as int),
            CStmtKind::Expr(e) => expr_doc(a.exprs@, a.tys@, e.0 as int) + seq![text(";"@)],
        }
    } else {
        Seq::empty()
    }
}

/// The first `n` statements of `list`, each on a line of its own.
pub open spec fn stmts_doc(a: Arena, list: Seq<CStmt>, n: int, bound: int) -> Seq<Tok>
    decreases bound, 0int, n,
{
    if n <= 0 || n > list.len() {
        Seq::empty()
    } else {
        let x = list[n - 1].0 as int;
        let item = if 0 <= x < bound {
            stmt_doc(a, x)
        } else {
            Seq::empty()
        };
        if n == 1 {
            item
        } else {
            stmts_doc(a, list, n - 1, bound) + seq![Tok::Hard] + item
        }
    }
}

/// A block of statements in braces.
pub open spec fn compound_doc(a: Arena, list: Seq<CStmt>, bound: int) -> Seq<Tok> {
    open_brace() + stmts_doc(a, list, list.len() as int, bound) + close_brace()
}

/// Block emission: a compound statement of `[s1, s2]` prints `s1`, a hard
/// break, then `s2`, between the braces, in that order.
pub proof fn lemma_block_of_two(a: Arena, s: int, s1: CStmt, s2: CStmt)
    requires
        a.wf(),
        0 <= s < a.stmts@.len(),
        a.stmts@[s] is Compound,
        a.stmts@[s]->Compound_0@ == seq![s1, s2],
    ensures
        stmt_doc(a, s) == open_brace() + stmt_doc(a, s1.0 as int) + seq![Tok::Hard] + stmt_doc(
            a,
            s2.0 as int,
        ) + close_brace(),
{
    let list = a.stmts@[s]->Compound_0@;
    assert(stmt_wf(a.stmts@[s], s, a.decls@.len() as int, a.exprs@.len() as int));
    assert(list[0] == s1 && list[1] == s2);
    assert(s1.0 < s && s2.0 < s);
    assert(stmts_doc(a, list, 1, s) == stmt_doc(a, s1.0 as int));
    assert(stmts_doc(a, list, 2, s) == stmt_doc(a, s1.0 as int) + seq![Tok::Hard] + stmt_doc(
        a,
        s2.0 as int,
    ));
    assert(stmt_doc(a, s) =~= open_brace() + stmt_doc(a, s1.0 as int) + seq![Tok::Hard]
        + stmt_doc(a, s2.0 as int) + close_brace());
}

impl CStmt {
    /// Prints the statement.
    pub fn print_to(self, arena: &Arena, ctx: &mut PrinterCtx)
        requires
            arena.wf(),
            self.0 < arena.stmts@.len(),
        ensures
            final(ctx)@ == old(ctx)@ + stmt_doc(*arena, self.0 as int),
        decreases self.0, 1int,
    {
        let ghost s = self.0 as int;
        assert(stmt_wf(
            arena.stmts@[s],
            s,
            arena.decls@.len() as int,
            arena.exprs@.len() as int,
        ));
        match &arena.stmts[self.0] {
            CStmtKind::Compound(list) => {
                print_compound(list, arena, Ghost(s), ctx);
            },
            CStmtKind::Return(ret) => {
                ctx.ibox(INDENT);
                ctx.word("return");
                match ret {
                    Some(e) => {
                        ctx.softbreak();
                        e.print_to(arena, ctx);
                    },
                    None => {},
                }
                ctx.word(";");
                ctx.end();
            },
            CStmtKind::Decl(d) => {
                d.print_to(arena, ctx);
            },
            CStmtKind::Expr(e) => {
                e.print_to(arena, ctx);
                ctx.word(";");
            },
        }
        assert(ctx@ =~= old(ctx)@ + stmt_doc(*arena, s));
    }
}

/// Prints a block of statements in braces; the statements lie below `bound`.
pub(crate) fn print_compound(
    list: &Vec<CStmt>,
    arena: &Arena,
    bound: Ghost<int>,
    ctx: &mut PrinterCtx,
)
    requires
        arena.wf(),
        0 <= bound@ <= arena.stmts@.len(),
        forall|j: int| 0 <= j < list@.len() ==> (#[trigger] list@[j]).0 < bound@,
    ensures
        final(ctx)@ == old(ctx)@ + compound_doc(*arena, list@, bound@),
    decreases bound@, 0int,
{
    ctx.cbox(INDENT);
    ctx.word("{");
    ctx.break_offset(1, 0);
    let ghost pre = ctx@;
    let mut k: usize = 0;
    assert(ctx@ =~= pre + stmts_doc(*arena, list@, 0, bound@));
    while k < list.len()
        invariant
            arena.wf(),
            0 <= bound@ <= arena.stmts@.len(),
            forall|j: int| 0 <= j < list@.len() ==> (#[trigger] list@[j]).0 < bound@,
            k <= list@.len(),
            ctx@ == pre + stmts_doc(*arena, list@, k as int, bound@),
        decreases list@.len() - k,
    {
        if k > 0 {
            ctx.hardbreak();
        }
        list[k].print_to(arena, ctx);
        assert(list@[k as int].0 < bound@);
        assert(ctx@ =~= pre + stmts_doc(*arena, list@, k + 1, bound@));
        k = k + 1;
    }
    ctx.break_offset(1, -INDENT);
    ctx.word("}");
    ctx.end();
    assert(ctx@ =~= old(ctx)@ + compound_doc(*arena, list@, bound@));
}

} // verus!

//! C expressions and the values they are built from.
use vstd::prelude::*;
use vstd::string::*;

use crate::pretty::{cbox, ibox, softbreak, text, zerobreak, PrinterCtx, Tok, INDENT};
use crate::arena::Arena;
use crate::ty::{declarator_doc, print_declarator, ty_below, CTy, CTyKind};

verus! {

/// A value: a constant, a local variable, or a function name.
#[derive(Clone, Debug, PartialEq, Eq, Hash)]
pub enum CValue {
    /// A constant scalar.
    Scalar(i128),
    /// A local variable indexed by a number, printed as `_0`, `_1`, ...
    Local(usize),
    /// A function name.
    Func(String),
}

pub open spec fn digit(d: nat) -> Seq<char> {
    if d == 0 {
        "0"@
    } else if d == 1 {
        "1"@
    } else if d == 2 {
        "2"@
    } else if d == 3 {
        "3"@
    } else if d == 4 {
        "4"@
    } else if d == 5 {
        "5"@
    } else if d == 6 {
        "6"@
    } else if d == 7 {
        "7"@
    } else if d == 8 {
        "8"@
    } else {
        "9"@
    }
}

/// Decimal digits of `n`, without leading zeros.
pub open spec fn decimal(n: nat) -> Seq<char>
    decreases n,
{
    if n < 10 {
        digit(n)
    } else {
        decimal(n / 10) + digit(n % 10)
    }
}

/// Decimal form of `i`, with a leading `-` when it is negative.
pub open spec fn signed_decimal(i: int) -> Seq<char> {
    if i < 0 {
        "-"@ + decimal((-i) as nat)
    } else {
        decimal(i as nat)
    }
}

/// The C text of a value.
pub open spec fn value_text(v: CValue) -> Seq<char> {
    match v {
        CValue::Scalar(i) => signed_decimal(i as int),
        CValue::Local(n) => "_"@ + decimal(n as nat),
        CValue::Func(name) => name@,
    }
}

fn digit_str(d: u128) -> (r: &'static str)
    requires
        d < 10,
    ensures
        r@ == digit(d as nat),
{
    if d == 0 {
        "0"
    } else if d == 1 {
        "1"
    } else if d == 2 {
        "2"
    } else if d == 3 {
        "3"
    } else if d == 4 {
        "4"
    } else if d == 5 {
        "5"
    } else if d == 6 {
        "6"
    } else if d == 7 {
        "7"
    } else if d == 8 {
        "8"
    } else {
        "9"
    }
}

pub(crate) fn push_decimal(s: &mut String, n: u128)
    ensures
        final(s)@ == old(s)@ + decimal(n as nat),
    decreases n,
{
    if n >= 10 {
        push_decimal(s, n / 10);
    }
    s.append(digit_str(n % 10));
    assert(s@ =~= old(s)@ + decimal(n as nat));
}

/// The C text of a value, as a string.
pub fn value_string(v: &CValue) -> (r: String)
    ensures
        r@ == value_text(*v),
{
    let mut s = String::new();
    match v {
        CValue::Scalar(i) => {
            if *i < 0 {
                s.append("-");
                let magnitude: u128 = (-(*i + 1)) as u128 + 1;
                push_decimal(&mut s, magnitude);
            } else {
                push_decimal(&mut s, *i as u128);
            }
        },
        CValue::Local(n) => {
            s.append("_");
            push_decimal(&mut s, *n as u128);
        },
        CValue::Func(name) => {
            s.append(name.as_str());
        },
    }
    assert(s@ =~= value_text(*v));
    s
}

/// An expression, by its index in the arena.
#[derive(Clone, Copy, Debug, PartialEq, Eq, Hash, Structural)]
pub struct CExpr(pub usize);

/// C expressions.
#[derive(Clone, Debug)]
pub enum CExprKind {
    /// C code printed as it is.
    Raw(String),
    /// A value: a constant, a variable or a function name.
    Value(CValue),
    /// A binary operation, e.g. `lhs + rhs`, printed in parentheses.
    Binary { lhs: CExpr, rhs: CExpr, op: String },
    /// A type cast, e.g. `(int32_t) x`.
    Cast { ty: CTy, expr: CExpr },
    /// A function call, e.g. `foo(x, y)`.
    Call { callee: CExpr, args: Vec<CExpr> },
    /// A member access, `foo.bar`, or `foo->bar` when `arrow` is set.
    Member { expr: CExpr, arrow: bool, field: String },
}

/// The expression at index `i` refers only to expressions before it and to
/// types interned among the first `n_tys`.
pub open spec fn expr_wf(k: CExprKind, i: int, n_tys: int) -> bool {
    match k {
        CExprKind::Binary { lhs, rhs, .. } => lhs.0 < i && rhs.0 < i,
        CExprKind::Cast { ty, expr } => expr.0 < i && ty_below(ty, n_tys),
        CExprKind::Call { callee, args } => callee.0 < i && forall|j: int|
            0 <= j < args@.len() ==> (#[trigger] args@[j]).0 < i,
        CExprKind::Member { expr, .. } => expr.0 < i,
        _ => true,
    }
}

pub open spec fn member_op(arrow: bool) -> Seq<char> {
    if arrow {
        "->"@
    } else {
        "."@
    }
}

/// The tokens that print the expression at index `e`.
pub open spec fn expr_doc(exprs: Seq<CExprKind>, tys: Seq<CTyKind>, e: int) -> Seq<Tok>
    decreases e, 1int, 0int,
{
    if 0 <= e < exprs.len() {
        match exprs[e] {
            CExprKind::Raw(s) => seq![text(s@)],
            CExprKind::Value(v) => seq![text(value_text(v))],
            CExprKind::Binary { lhs, rhs, op } => if lhs.0 < e && rhs.0 < e {
                seq![ibox(INDENT), text("("@), zerobreak(), ibox((-INDENT) as isize)] + expr_doc(
                    exprs,
                    tys,
                    lhs.0 as int,
                ) + seq![Tok::End, softbreak(), text(op@), text(" "@)] + expr_doc(
                    exprs,
                    tys,
                    rhs.0 as int,
                ) + seq![text(")"@), Tok::End]
            } else {
                Seq::empty()
            },
            CExprKind::Cast { ty, expr } => if expr.0 < e {
                seq![ibox(INDENT), text("("@)] + declarator_doc(tys, ty, None) + seq![
                    text(")"@),
                    text(" "@),
                ] + expr_doc(exprs, tys, expr.0 as int) + seq![Tok::End]
            } else {
                Seq::empty()
            },
            CExprKind::Call { callee, args } => if callee.0 < e {
                seq![ibox(INDENT)] + expr_doc(exprs, tys, callee.0 as int) + seq![
                    cbox(INDENT),
                    text("("@),
                    zerobreak(),
                ] + args_doc(exprs, tys, args@, args@.len() as int, e) + seq![
                    Tok::Break { blank: 0, offset: (-INDENT) as isize },
                    text(")"@),
                    Tok::End,
                    Tok::End,
                ]
            } else {
                Seq::empty()
            },
            CExprKind::Member { expr, arrow, field } => if expr.0 < e {
                seq![cbox(INDENT)] + expr_doc(exprs, tys, expr.0 as int) + seq![
                    zerobreak(),
                    text(member_op(arrow)),
                    text(field@),
                    Tok::End,
                ]
            } else {
                Seq::empty()
            },
        }
    } else {
        Seq::empty()
    }
}

/// The first `n` arguments of a call, separated by `,` and a soft break.
pub open spec fn args_doc(
    exprs: Seq<CExprKind>,
    tys: Seq<CTyKind>,
    args: Seq<CExpr>,
    n: int,
    bound: int,
) -> Seq<Tok>
    decreases bound, 0int, n,
{
    if n <= 0 || n > args.len() {
        Seq::empty()
    } else {
        let a = args[n - 1].0 as int;
        let item = if 0 <= a < bound {
            expr_doc(exprs, tys, a)
        } else {
            Seq::empty()
        };
        if n == 1 {
            item
        } else {
            args_doc(exprs, tys, args, n - 1, bound) + seq![text(","@), softbreak()] + item
        }
    }
}

impl CValue {
    /// Prints the value as one word.
    pub fn print_to(&self, ctx: &mut PrinterCtx)
        ensures
            final(ctx)@ == old(ctx)@.push(text(value_text(*self))),
    {
        ctx.word_string(value_string(self));
    }
}

impl CExpr {
    /// Prints the expression.
    pub fn print_to(self, arena: &Arena, ctx: &mut PrinterCtx)
        requires
            arena.wf(),
            self.0 < arena.exprs@.len(),
        ensures
            final(ctx)@ == old(ctx)@ + expr_doc(arena.exprs@, arena.tys@, self.0 as int),
        decreases self.0,
    {
        let ghost e = self.0 as int;
        let ghost exprs = arena.exprs@;
        let ghost tys = arena.tys@;
        assert(expr_wf(exprs[e], e, tys.len() as int));
        match &arena.exprs[self.0] {
            CExprKind::Raw(s) => {
                ctx.word(s.as_str());
            },
            CExprKind::Value(v) => {
                v.print_to(ctx);
            },
            CExprKind::Binary { lhs, rhs, op } => {
                ctx.ibox(INDENT);
                ctx.word("(");
                ctx.zerobreak();
                ctx.ibox(-INDENT);
                lhs.print_to(arena, ctx);
                ctx.end();
                ctx.softbreak();
                ctx.word(op.as_str());
                ctx.nbsp();
                rhs.print_to(arena, ctx);
                ctx.word(")");
                ctx.end();
                assert(ctx@ =~= old(ctx)@ + expr_doc(exprs, tys, e));
            },
            CExprKind::Cast { ty, expr } => {
                ctx.ibox(INDENT);
                ctx.word("(");
                print_declarator(*ty, None, &arena.tys, ctx);
                ctx.word(")");
                ctx.nbsp();
                expr.print_to(arena, ctx);
                ctx.end();
                assert(ctx@ =~= old(ctx)@ + expr_doc(exprs, tys, e));
            },
            CExprKind::Call { callee, args } => {
                ctx.ibox(INDENT);
                callee.print_to(arena, ctx);
                ctx.cbox(INDENT);
                ctx.word("(");
                ctx.zerobreak();
                let ghost pre = ctx@;
                let mut k: usize = 0;
                assert(ctx@ =~= pre + args_doc(exprs, tys, args@, 0, e));
                while k < args.len()
                    invariant
                        arena.wf(),
                        exprs == arena.exprs@,
                        tys == arena.tys@,
                        0 <= e < exprs.len(),
                        e == self.0,
                        k <= args@.len(),
                        forall|j: int| 0 <= j < args@.len() ==> (#[trigger] args@[j]).0 < e,
                        ctx@ == pre + args_doc(exprs, tys, args@, k as int, e),
                    decreases args@.len() - k,
                {
                    if k > 0 {
                        ctx.word(",");
                        ctx.softbreak();
                    }
                    args[k].print_to(arena, ctx);
                    assert(args@[k as int].0 < e);
                    assert(ctx@ =~= pre + args_doc(exprs, tys, args@, k + 1, e));
                    k = k + 1;
                }
                ctx.break_offset(0, -INDENT);
                ctx.word(")");
                ctx.end();
                ctx.end();
                assert(ctx@ =~= old(ctx)@ + expr_doc(exprs, tys, e));
            },
            CExprKind::Member { expr, arrow, field } => {
                ctx.cbox(INDENT);
                expr.print_to(arena, ctx);
                ctx.zerobreak();
                if *arrow {
                    ctx.word("->");
                } else {
                    ctx.word(".");
                }
                ctx.word(field.as_str());
                ctx.end();
                assert(ctx@ =~= old(ctx)@ + expr_doc(exprs, tys, e));
            },
        }
    }
}

} // verus!

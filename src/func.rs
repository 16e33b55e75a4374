//! C function definitions.
use vstd::prelude::*;

use vstd::string::*;

use crate::arena::Arena;
use crate::expr::CValue;
use crate::pretty::{ibox, softbreak, text, PrinterCtx, Tok};
use crate::stmt::{compound_doc, print_compound, CStmt};
use crate::ty::{declarator_doc, print_declarator, ty_below, tys_wf, CTy, CTyKind};

verus! {

/// A function definition, by its index in the arena.
#[derive(Clone, Copy, Debug, PartialEq, Eq, Hash, Structural)]
pub struct CFunc(pub usize);

/// A C function definition.
#[derive(Clone, Debug)]
pub struct CFuncKind {
    /// Function name.
    pub name: String,
    /// Return type.
    pub ty: CTy,
    /// Parameters, each a type and the local variable that holds it.
    pub params: Vec<(CTy, CValue)>,
    /// Function body.
    pub body: Vec<CStmt>,
    /// The index of the next fresh local variable; it only grows, through
    /// `next_local_var`.
    pub local_var_counter: usize,
}

/// A function refers only to existing statements and types.
pub open spec fn func_wf(f: CFuncKind, n_stmts: int, n_tys: int) -> bool {
    &&& ty_below(f.ty, n_tys)
    &&& forall|j: int| 0 <= j < f.params@.len() ==> ty_below((#[trigger] f.params@[j]).0, n_tys)
    &&& forall|j: int| 0 <= j < f.body@.len() ==> (#[trigger] f.body@[j]).0 < n_stmts
}

/// `new` is `old` after one call of `next_local_var`, which returned `r`.
pub open spec fn next_local(old: CFuncKind, new: CFuncKind, r: CValue) -> bool {
    &&& old.local_var_counter < usize::MAX
    &&& r == CValue::Local(old.local_var_counter)
    &&& new.local_var_counter == old.local_var_counter + 1
    &&& new.name == old.name
    &&& new.ty == old.ty
    &&& new.params == old.params
    &&& new.body == old.body
}

proof fn lemma_counter_steps(states: Seq<CFuncKind>, vals: Seq<CValue>, i: int)
    requires
        states.len() == vals.len() + 1,
        forall|k: int| 0 <= k < vals.len() ==> next_local(states[k], states[k + 1], #[trigger] vals[k]),
        0 <= i < states.len(),
    ensures
        states[i].local_var_counter == states[0].local_var_counter + i,
        states[i].params == states[0].params,
    decreases i,
{
    if i > 0 {
        lemma_counter_steps(states, vals, i - 1);
        assert(next_local(states[i - 1], states[i], vals[i - 1]));
    }
}

/// Local-variable uniqueness: along successive calls of `next_local_var` on a
/// function that was just created with P parameters, the calls return the
/// locals P, P+1, ... in order, no two equal and none a parameter.
pub proof fn lemma_fresh_locals_unique(states: Seq<CFuncKind>, vals: Seq<CValue>)
    requires
        states.len() == vals.len() + 1,
        forall|k: int| 0 <= k < vals.len() ==> next_local(states[k], states[k + 1], #[trigger] vals[k]),
        states[0].local_var_counter == states[0].params@.len(),
        forall|j: int|
            0 <= j < states[0].params@.len() ==> (#[trigger] states[0].params@[j]).1
                == CValue::Local(j as usize),
    ensures
        forall|k: int|
            0 <= k < vals.len() ==> #[trigger] vals[k] == CValue::Local(
                (states[0].params@.len() + k) as usize,
            ),
        forall|k: int, l: int| 0 <= k < l < vals.len() ==> vals[k] != vals[l],
        forall|k: int, j: int|
            0 <= k < vals.len() && 0 <= j < states[0].params@.len() ==> #[trigger] vals[k]
                != #[trigger] states[0].params@[j].1,
{
    assert forall|k: int| 0 <= k < vals.len() implies #[trigger] vals[k] == CValue::Local(
        (states[0].params@.len() + k) as usize,
    ) by {
        lemma_counter_steps(states, vals, k);
        assert(next_local(states[k], states[k + 1], vals[k]));
    }
    assert forall|k: int, l: int| 0 <= k < l < vals.len() implies vals[k] != vals[l] by {
        assert(vals[k] == CValue::Local((states[0].params@.len() + k) as usize));
        assert(vals[l] == CValue::Local((states[0].params@.len() + l) as usize));
        lemma_counter_steps(states, vals, l);
        assert(next_local(states[l], states[l + 1], vals[l]));
    }
    assert forall|k: int, j: int|
        0 <= k < vals.len() && 0 <= j < states[0].params@.len() implies #[trigger] vals[k]
        != #[trigger] states[0].params@[j].1 by {
        assert(vals[k] == CValue::Local((states[0].params@.len() + k) as usize));
        lemma_counter_steps(states, vals, k);
        assert(next_local(states[k], states[k + 1], vals[k]));
    }
}

impl CFuncKind {
    /// A function with no statements yet, whose parameters are the local
    /// variables `_0`, `_1`, ... in order.
    pub fn new(name: &str, ty: CTy, params: Vec<CTy>) -> (r: Self)
        ensures
            r.name@ == name@,
            r.ty == ty,
            r.params@.len() == params@.len(),
            forall|i: int|
                0 <= i < params@.len() ==> #[trigger] r.params@[i] == (
                    params@[i],
                    CValue::Local(i as usize),
                ),
            r.body@.len() == 0,
            r.local_var_counter == params@.len(),
    {
        let mut ps: Vec<(CTy, CValue)> = Vec::new();
        let mut i: usize = 0;
        while i < params.len()
            invariant
                i <= params@.len(),
                ps@.len() == i,
                forall|j: int|
                    0 <= j < i ==> #[trigger] ps@[j] == (params@[j], CValue::Local(j as usize)),
            decreases params@.len() - i,
        {
            ps.push((params[i], CValue::Local(i)));
            i = i + 1;
        }
        CFuncKind {
            name: String::from_str(name),
            ty,
            params: ps,
            body: Vec::new(),
            local_var_counter: i,
        }
    }

    /// Appends a statement to the body.
    pub fn push_stmt(&mut self, stmt: CStmt)
        ensures
            final(self).body@ == old(self).body@.push(stmt),
            final(self).name == old(self).name,
            final(self).ty == old(self).ty,
            final(self).params == old(self).params,
            final(self).local_var_counter == old(self).local_var_counter,
    {
        self.body.push(stmt);
    }

    /// A local variable that no parameter and no earlier call has used.
    pub fn next_local_var(&mut self) -> (r: CValue)
        requires
            old(self).local_var_counter < usize::MAX,
        ensures
            next_local(*old(self), *final(self), r),
    {
        let val = CValue::Local(self.local_var_counter);
        self.local_var_counter = self.local_var_counter + 1;
        val
    }
}

/// The first `n` parameters, separated by `,` and a soft break.
pub open spec fn params_doc(tys: Seq<CTyKind>, params: Seq<(CTy, CValue)>, n: int) -> Seq<Tok>
    decreases n,
{
    if n <= 0 || n > params.len() {
        Seq::empty()
    } else {
        let item = seq![ibox(0)] + declarator_doc(tys, params[n - 1].0, Some(params[n - 1].1))
            + seq![Tok::End];
        if n == 1 {
            item
        } else {
            params_doc(tys, params, n - 1) + seq![text(","@), softbreak()] + item
        }
    }
}

/// The return type's declarator around the name, then the parameters in
/// parentheses, aligned under the opening one when they do not fit.
pub open spec fn signature_doc(a: Arena, f: CFuncKind) -> Seq<Tok> {
    seq![ibox(0)] + declarator_doc(a.tys@, f.ty, Some(CValue::Func(f.name))) + seq![
        Tok::Visual,
        text("("@),
    ] + params_doc(a.tys@, f.params@, f.params@.len() as int) + seq![
        text(")"@),
        Tok::End,
        Tok::End,
    ]
}

/// A prototype: the signature and a semicolon.
pub open spec fn proto_doc(a: Arena, f: CFuncKind) -> Seq<Tok> {
    signature_doc(a, f) + seq![text(";"@)]
}

/// A definition: the signature and the body.
pub open spec fn func_doc(a: Arena, f: CFuncKind) -> Seq<Tok> {
    seq![ibox(0)] + signature_doc(a, f) + seq![softbreak()] + compound_doc(
        a,
        f.body@,
        a.stmts@.len() as int,
    ) + seq![Tok::End]
}

fn print_signature(f: &CFuncKind, arena: &Arena, ctx: &mut PrinterCtx)
    requires
        arena.wf(),
        func_wf(*f, arena.stmts@.len() as int, arena.tys@.len() as int),
    ensures
        final(ctx)@ == old(ctx)@ + signature_doc(*arena, *f),
{
    let tys = &arena.tys;
    ctx.ibox(0);
    let fname = CValue::Func(f.name.clone());
    print_declarator(f.ty, Some(&fname), tys, ctx);
    ctx.valign();
    ctx.word("(");
    let ghost pre = ctx@;
    let ghost params = f.params@;
    let mut k: usize = 0;
    assert(ctx@ =~= pre + params_doc(tys@, params, 0));
    while k < f.params.len()
        invariant
            tys_wf(tys@),
            params == f.params@,
            forall|j: int| 0 <= j < params.len() ==> ty_below((#[trigger] params[j]).0, tys@.len() as int),
            k <= params.len(),
            ctx@ == pre + params_doc(tys@, params, k as int),
        decreases params.len() - k,
    {
        if k > 0 {
            ctx.word(",");
            ctx.softbreak();
        }
        ctx.ibox(0);
        assert(ty_below(params[k as int].0, tys@.len() as int));
        print_declarator(f.params[k].0, Some(&f.params[k].1), tys, ctx);
        ctx.end();
        assert(ctx@ =~= pre + params_doc(tys@, params, k + 1));
        k = k + 1;
    }
    ctx.word(")");
    ctx.end();
    ctx.end();
    assert(ctx@ =~= old(ctx)@ + signature_doc(*arena, *f));
}

/// Prints the function's prototype.
pub(crate) fn print_func_decl(f: &CFuncKind, arena: &Arena, ctx: &mut PrinterCtx)
    requires
        arena.wf(),
        func_wf(*f, arena.stmts@.len() as int, arena.tys@.len() as int),
    ensures
        final(ctx)@ == old(ctx)@ + proto_doc(*arena, *f),
{
    print_signature(f, arena, ctx);
    ctx.word(";");
    assert(ctx@ =~= old(ctx)@ + proto_doc(*arena, *f));
}

/// Prints the function's definition.
pub(crate) fn print_func(f: &CFuncKind, arena: &Arena, ctx: &mut PrinterCtx)
    requires
        arena.wf(),
        func_wf(*f, arena.stmts@.len() as int, arena.tys@.len() as int),
    ensures
        final(ctx)@ == old(ctx)@ + func_doc(*arena, *f),
{
    ctx.ibox(0);
    print_signature(f, arena, ctx);
    ctx.softbreak();
    print_compound(&f.body, arena, Ghost(arena.stmts@.len() as int), ctx);
    ctx.end();
    assert(ctx@ =~= old(ctx)@ + func_doc(*arena, *f));
}

impl CFunc {
    /// Prints the definition of the function at this index.
    pub fn print_to(self, arena: &Arena, ctx: &mut PrinterCtx)
        requires
            arena.wf(),
            self.0 < arena.funcs@.len(),
        ensures
            final(ctx)@ == old(ctx)@ + func_doc(*arena, arena.funcs@[self.0 as int]),
    {
        assert(func_wf(arena.funcs@[self.0 as int], arena.stmts@.len() as int, arena.tys@.len() as int));
        print_func(&arena.funcs[self.0], arena, ctx);
    }
}

} // verus!

//! The C module: includes, a helper preamble, declarations and functions.
use vstd::prelude::*;
use vstd::string::*;

use crate::arena::Arena;
use crate::decl::{decl_doc, CDecl};
use crate::func::{func_doc, func_wf, print_func, print_func_decl, proto_doc, CFunc};
use crate::pretty::{cbox, text, PrinterCtx, Tok};
use crate::ty::words_of;

verus! {

/// A C module. Its lists only grow, and are printed in insertion order.
#[derive(Clone, Debug)]
pub struct Module {
    /// Included headers, by file name without the angle brackets.
    pub includes: Vec<String>,
    /// Helper code printed near the beginning of the file.
    pub helper: String,
    /// Top-level declarations.
    pub decls: Vec<CDecl>,
    /// Function definitions.
    pub funcs: Vec<CFunc>,
}

/// The module refers only to declarations and functions of the arena.
pub open spec fn module_wf(m: Module, a: Arena) -> bool {
    &&& forall|j: int| 0 <= j < m.decls@.len() ==> (#[trigger] m.decls@[j]).0 < a.decls@.len()
    &&& forall|j: int| 0 <= j < m.funcs@.len() ==> (#[trigger] m.funcs@[j]).0 < a.funcs@.len()
}

/// One `#include <...>` line for each header.
pub open spec fn includes_doc(incs: Seq<Seq<char>>) -> Seq<Tok>
    decreases incs.len(),
{
    if incs.len() == 0 {
        Seq::empty()
    } else {
        includes_doc(incs.drop_last()) + seq![
            text("#include <"@),
            text(incs.last()),
            text(">"@),
            Tok::Hard,
        ]
    }
}

/// Each declaration after a blank line.
pub open spec fn decls_doc(a: Arena, ds: Seq<CDecl>) -> Seq<Tok>
    decreases ds.len(),
{
    if ds.len() == 0 {
        Seq::empty()
    } else {
        decls_doc(a, ds.drop_last()) + seq![Tok::Hard, Tok::Hard] + decl_doc(
            a,
            ds.last().0 as int,
        )
    }
}

pub open spec fn func_at(a: Arena, f: CFunc) -> Seq<Tok> {
    if f.0 < a.funcs@.len() {
        func_doc(a, a.funcs@[f.0 as int])
    } else {
        Seq::empty()
    }
}

pub open spec fn proto_at(a: Arena, f: CFunc) -> Seq<Tok> {
    if f.0 < a.funcs@.len() {
        proto_doc(a, a.funcs@[f.0 as int])
    } else {
        Seq::empty()
    }
}

/// The prototype of each function, one per line.
pub open spec fn protos_doc(a: Arena, fs: Seq<CFunc>) -> Seq<Tok>
    decreases fs.len(),
{
    if fs.len() == 0 {
        Seq::empty()
    } else {
        protos_doc(a, fs.drop_last()) + seq![Tok::Hard] + proto_at(a, fs.last())
    }
}

/// The definition of each function, after a blank line.
pub open spec fn bodies_doc(a: Arena, fs: Seq<CFunc>) -> Seq<Tok>
    decreases fs.len(),
{
    if fs.len() == 0 {
        Seq::empty()
    } else {
        bodies_doc(a, fs.drop_last()) + seq![Tok::Hard, Tok::Hard] + func_at(a, fs.last())
    }
}

/// The whole module: includes, a blank line, the helper code, the
/// declarations, all prototypes, then all definitions, and a final newline.
pub open spec fn module_doc(a: Arena, m: Module) -> Seq<Tok> {
    header_doc(a, m) + protos_doc(a, m.funcs@) + bodies_doc(a, m.funcs@) + seq![
        Tok::Hard,
        Tok::End,
    ]
}

/// Everything before the prototypes: includes, helper code and declarations.
pub open spec fn header_doc(a: Arena, m: Module) -> Seq<Tok> {
    seq![cbox(0)] + includes_doc(words_of(m.includes@)) + seq![Tok::Hard, text(m.helper@)]
        + decls_doc(a, m.decls@)
}

proof fn lemma_protos_split(a: Arena, fs1: Seq<CFunc>, fs2: Seq<CFunc>)
    ensures
        protos_doc(a, fs1 + fs2) == protos_doc(a, fs1) + protos_doc(a, fs2),
    decreases fs2.len(),
{
    if fs2.len() == 0 {
        assert(fs1 + fs2 =~= fs1);
        assert(protos_doc(a, fs1) + protos_doc(a, fs2) =~= protos_doc(a, fs1));
    } else {
        lemma_protos_split(a, fs1, fs2.drop_last());
        assert((fs1 + fs2).drop_last() =~= fs1 + fs2.drop_last());
        assert(protos_doc(a, fs1 + fs2) =~= protos_doc(a, fs1) + protos_doc(a, fs2));
    }
}

proof fn lemma_bodies_split(a: Arena, fs1: Seq<CFunc>, fs2: Seq<CFunc>)
    ensures
        bodies_doc(a, fs1 + fs2) == bodies_doc(a, fs1) + bodies_doc(a, fs2),
    decreases fs2.len(),
{
    if fs2.len() == 0 {
        assert(fs1 + fs2 =~= fs1);
        assert(bodies_doc(a, fs1) + bodies_doc(a, fs2) =~= bodies_doc(a, fs1));
    } else {
        lemma_bodies_split(a, fs1, fs2.drop_last());
        assert((fs1 + fs2).drop_last() =~= fs1 + fs2.drop_last());
        assert(bodies_doc(a, fs1 + fs2) =~= bodies_doc(a, fs1) + bodies_doc(a, fs2));
    }
}

/// Module ordering: for any split of the functions into those pushed before
/// and those pushed after, the module prints the prototypes of the first,
/// then those of the second, then the definitions of the first, then those
/// of the second.
pub proof fn lemma_module_order(a: Arena, m: Module, split: int)
    requires
        0 <= split <= m.funcs@.len(),
    ensures
        module_doc(a, m) == header_doc(a, m) + protos_doc(a, m.funcs@.take(split)) + protos_doc(
            a,
            m.funcs@.skip(split),
        ) + bodies_doc(a, m.funcs@.take(split)) + bodies_doc(a, m.funcs@.skip(split)) + seq![
            Tok::Hard,
            Tok::End,
        ],
{
    let fs = m.funcs@;
    assert(fs =~= fs.take(split) + fs.skip(split));
    lemma_protos_split(a, fs.take(split), fs.skip(split));
    lemma_bodies_split(a, fs.take(split), fs.skip(split));
    assert(module_doc(a, m) =~= header_doc(a, m) + protos_doc(a, fs.take(split)) + protos_doc(
        a,
        fs.skip(split),
    ) + bodies_doc(a, fs.take(split)) + bodies_doc(a, fs.skip(split)) + seq![Tok::Hard, Tok::End]);
}

impl Module {
    /// An empty module with the given helper code.
    pub fn new(helper: &str) -> (r: Self)
        ensures
            r.includes@.len() == 0,
            r.helper@ == helper@,
            r.decls@.len() == 0,
            r.funcs@.len() == 0,
    {
        Module {
            includes: Vec::new(),
            helper: String::from_str(helper),
            decls: Vec::new(),
            funcs: Vec::new(),
        }
    }

    /// Appends a header to the list of includes.
    pub fn push_include(&mut self, header: &str)
        ensures
            words_of(final(self).includes@) == words_of(old(self).includes@).push(header@),
            final(self).helper == old(self).helper,
            final(self).decls == old(self).decls,
            final(self).funcs == old(self).funcs,
    {
        self.includes.push(String::from_str(header));
        assert(words_of(self.includes@) =~= words_of(old(self).includes@).push(header@));
    }

    /// Appends a declaration.
    pub fn push_decl(&mut self, decl: CDecl)
        ensures
            final(self).decls@ == old(self).decls@.push(decl),
            final(self).includes == old(self).includes,
            final(self).helper == old(self).helper,
            final(self).funcs == old(self).funcs,
    {
        self.decls.push(decl);
    }

    /// Appends a function definition.
    pub fn push_func(&mut self, func: CFunc)
        ensures
            final(self).funcs@ == old(self).funcs@.push(func),
            final(self).includes == old(self).includes,
            final(self).helper == old(self).helper,
            final(self).decls == old(self).decls,
    {
        self.funcs.push(func);
    }

    /// Prints the module.
    pub fn print_to(&self, arena: &Arena, ctx: &mut PrinterCtx)
        requires
            arena.wf(),
            module_wf(*self, *arena),
        ensures
            final(ctx)@ == old(ctx)@ + module_doc(*arena, *self),
    {
        ctx.cbox(0);
        let ghost at_includes = ctx@;
        let ghost incs = words_of(self.includes@);
        let mut k: usize = 0;
        assert(incs.take(0) =~= Seq::<Seq<char>>::empty());
        assert(ctx@ =~= at_includes + includes_doc(incs.take(0)));
        while k < self.includes.len()
            invariant
                incs == words_of(self.includes@),
                k <= incs.len(),
                ctx@ == at_includes + includes_doc(incs.take(k as int)),
            decreases incs.len() - k,
        {
            ctx.word("#include <");
            ctx.word(self.includes[k].as_str());
            ctx.word(">");
            ctx.hardbreak();
            assert(incs.take(k + 1).drop_last() =~= incs.take(k as int));
            assert(ctx@ =~= at_includes + includes_doc(incs.take(k + 1)));
            k = k + 1;
        }
        assert(incs.take(k as int) =~= incs);
        ctx.hardbreak();
        ctx.word(self.helper.as_str());
        let ghost at_decls = ctx@;
        let ghost ds = self.decls@;
        let mut k: usize = 0;
        assert(ds.take(0) =~= Seq::<CDecl>::empty());
        assert(ctx@ =~= at_decls + decls_doc(*arena, ds.take(0)));
        while k < self.decls.len()
            invariant
                arena.wf(),
                module_wf(*self, *arena),
                ds == self.decls@,
                k <= ds.len(),
                ctx@ == at_decls + decls_doc(*arena, ds.take(k as int)),
            decreases ds.len() - k,
        {
            ctx.hardbreak();
            ctx.hardbreak();
            self.decls[k].print_to(arena, ctx);
            assert(ds.take(k + 1).drop_last() =~= ds.take(k as int));
            assert(ctx@ =~= at_decls + decls_doc(*arena, ds.take(k + 1)));
            k = k + 1;
        }
        assert(ds.take(k as int) =~= ds);
        let ghost at_protos = ctx@;
        let ghost fs = self.funcs@;
        let mut k: usize = 0;
        assert(fs.take(0) =~= Seq::<CFunc>::empty());
        assert(ctx@ =~= at_protos + protos_doc(*arena, fs.take(0)));
        while k < self.funcs.len()
            invariant
                arena.wf(),
                module_wf(*self, *arena),
                fs == self.funcs@,
                k <= fs.len(),
                ctx@ == at_protos + protos_doc(*arena, fs.take(k as int)),
            decreases fs.len() - k,
        {
            ctx.hardbreak();
            let f = self.funcs[k];
            assert(func_wf(
                arena.funcs@[f.0 as int],
                arena.stmts@.len() as int,
                arena.tys@.len() as int,
            ));
            print_func_decl(&arena.funcs[f.0], arena, ctx);
            assert(fs.take(k + 1).drop_last() =~= fs.take(k as int));
            assert(ctx@ =~= at_protos + protos_doc(*arena, fs.take(k + 1)));
            k = k + 1;
        }
        assert(fs.take(k as int) =~= fs);
        let ghost at_bodies = ctx@;
        let mut k: usize = 0;
        assert(ctx@ =~= at_bodies + bodies_doc(*arena, fs.take(0)));
        while k < self.funcs.len()
            invariant
                arena.wf(),
                module_wf(*self, *arena),
                fs == self.funcs@,
                k <= fs.len(),
                ctx@ == at_bodies + bodies_doc(*arena, fs.take(k as int)),
            decreases fs.len() - k,
        {
            ctx.hardbreak();
            ctx.hardbreak();
            let f = self.funcs[k];
            assert(func_wf(
                arena.funcs@[f.0 as int],
                arena.stmts@.len() as int,
                arena.tys@.len() as int,
            ));
            print_func(&arena.funcs[f.0], arena, ctx);
            assert(fs.take(k + 1).drop_last() =~= fs.take(k as int));
            assert(ctx@ =~= at_bodies + bodies_doc(*arena, fs.take(k + 1)));
            k = k + 1;
        }
        assert(fs.take(k as int) =~= fs);
        ctx.hardbreak();
        ctx.end();
        assert(ctx@ =~= old(ctx)@ + module_doc(*arena, *self));
    }
}

} // verus!

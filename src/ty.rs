//! C types: primitive types, and pointer and array types that are interned in
//! the module's arena.
use std::collections::VecDeque;

use vstd::prelude::*;
use vstd::string::*;

use crate::expr::{decimal, push_decimal, value_string, value_text, CValue};
use crate::pretty::{text, PrinterCtx, Tok};

verus! {

/// Signed integer types of the source language.
#[derive(Clone, Copy, Debug, PartialEq, Eq, Hash, Structural)]
pub enum IntTy {
    Isize,
    I8,
    I16,
    I32,
    I64,
    I128,
}

/// Unsigned integer types of the source language.
#[derive(Clone, Copy, Debug, PartialEq, Eq, Hash, Structural)]
pub enum UintTy {
    Usize,
    U8,
    U16,
    U32,
    U64,
    U128,
}

/// Signed integer types.
#[derive(Clone, Copy, Debug, PartialEq, Eq, Hash, Structural)]
pub enum CIntTy {
    Isize,
    I8,
    I16,
    I32,
    I64,
}

/// Unsigned integer types.
#[derive(Clone, Copy, Debug, PartialEq, Eq, Hash, Structural)]
pub enum CUintTy {
    Usize,
    U8,
    U16,
    U32,
    U64,
}

pub open spec fn unsigned_of(t: CIntTy) -> CUintTy {
    match t {
        CIntTy::Isize => CUintTy::Usize,
        CIntTy::I8 => CUintTy::U8,
        CIntTy::I16 => CUintTy::U16,
        CIntTy::I32 => CUintTy::U32,
        CIntTy::I64 => CUintTy::U64,
    }
}

pub open spec fn int_name(t: CIntTy) -> Seq<char> {
    match t {
        CIntTy::Isize => "size_t"@,
        CIntTy::I8 => "int8_t"@,
        CIntTy::I16 => "int16_t"@,
        CIntTy::I32 => "int32_t"@,
        CIntTy::I64 => "int64_t"@,
    }
}

pub open spec fn int_max_name(t: CIntTy) -> Seq<char> {
    match t {
        CIntTy::Isize => "SIZE_MAX"@,
        CIntTy::I8 => "INT8_MAX"@,
        CIntTy::I16 => "INT16_MAX"@,
        CIntTy::I32 => "INT32_MAX"@,
        CIntTy::I64 => "INT64_MAX"@,
    }
}

pub open spec fn uint_name(t: CUintTy) -> Seq<char> {
    match t {
        CUintTy::Usize => "size_t"@,
        CUintTy::U8 => "uint8_t"@,
        CUintTy::U16 => "uint16_t"@,
        CUintTy::U32 => "uint32_t"@,
        CUintTy::U64 => "uint64_t"@,
    }
}

pub open spec fn uint_max_name(t: CUintTy) -> Seq<char> {
    match t {
        CUintTy::Usize => "SIZE_MAX"@,
        CUintTy::U8 => "UINT8_MAX"@,
        CUintTy::U16 => "UINT16_MAX"@,
        CUintTy::U32 => "UINT32_MAX"@,
        CUintTy::U64 => "UINT64_MAX"@,
    }
}

impl CIntTy {
    /// The unsigned type of the same width.
    pub fn to_unsigned(self) -> (r: CUintTy)
        ensures
            r == unsigned_of(self),
    {
        match self {
            CIntTy::Isize => CUintTy::Usize,
            CIntTy::I8 => CUintTy::U8,
            CIntTy::I16 => CUintTy::U16,
            CIntTy::I32 => CUintTy::U32,
            CIntTy::I64 => CUintTy::U64,
        }
    }

    /// The C name of the type, from `<stdint.h>`.
    pub fn to_str(self) -> (r: &'static str)
        ensures
            r@ == int_name(self),
    {
        match self {
            CIntTy::Isize => "size_t",
            CIntTy::I8 => "int8_t",
            CIntTy::I16 => "int16_t",
            CIntTy::I32 => "int32_t",
            CIntTy::I64 => "int64_t",
        }
    }

    /// The name of the type's largest value, from `<stdint.h>`.
    pub fn max_value(self) -> (r: &'static str)
        ensures
            r@ == int_max_name(self),
    {
        match self {
            CIntTy::Isize => "SIZE_MAX",
            CIntTy::I8 => "INT8_MAX",
            CIntTy::I16 => "INT16_MAX",
            CIntTy::I32 => "INT32_MAX",
            CIntTy::I64 => "INT64_MAX",
        }
    }
}

impl CUintTy {
    /// The C name of the type, from `<stdint.h>`.
    pub fn to_str(self) -> (r: &'static str)
        ensures
            r@ == uint_name(self),
    {
        match self {
            CUintTy::Usize => "size_t",
            CUintTy::U8 => "uint8_t",
            CUintTy::U16 => "uint16_t",
            CUintTy::U32 => "uint32_t",
            CUintTy::U64 => "uint64_t",
        }
    }

    /// The name of the type's largest value, from `<stdint.h>`.
    pub fn max_value(self) -> (r: &'static str)
        ensures
            r@ == uint_max_name(self),
    {
        match self {
            CUintTy::Usize => "SIZE_MAX",
            CUintTy::U8 => "UINT8_MAX",
            CUintTy::U16 => "UINT16_MAX",
            CUintTy::U32 => "UINT32_MAX",
            CUintTy::U64 => "UINT64_MAX",
        }
    }
}

/// A C type: a primitive type, or a pointer or array type interned in the
/// module's arena and referred to by its index there.
#[derive(Clone, Copy, Debug, PartialEq, Eq, Hash, Structural)]
pub enum CTy {
    /// The C `void` type.
    Void,
    /// The C boolean type.
    Bool,
    /// The C `char` type.
    Char,
    /// A signed integer type.
    Int(CIntTy),
    /// An unsigned integer type.
    UInt(CUintTy),
    /// An interned compound type, by its index in the arena.
    Ref(usize),
}

/// Compound C types. Each structural value is stored once per arena.
#[derive(Clone, Copy, Debug, PartialEq, Eq, Hash, Structural)]
pub enum CTyKind {
    /// A pointer type.
    Pointer(CTy),
    /// An array type with element type and length.
    Array(CTy, usize),
}

pub open spec fn is_primitive(t: CTy) -> bool {
    !(t is Ref)
}

pub open spec fn is_integer(t: CTy) -> bool {
    t is Int || t is UInt
}

/// The C name of a primitive type.
pub open spec fn primitive_name(t: CTy) -> Seq<char> {
    match t {
        CTy::Void => "void"@,
        CTy::Bool => "_Bool"@,
        CTy::Char => "char"@,
        CTy::Int(i) => int_name(i),
        CTy::UInt(u) => uint_name(u),
        CTy::Ref(_) => Seq::empty(),
    }
}

pub open spec fn max_name(t: CTy) -> Seq<char> {
    match t {
        CTy::Int(i) => int_max_name(i),
        CTy::UInt(u) => uint_max_name(u),
        _ => Seq::empty(),
    }
}

/// The compound kind that `t` refers to, if it is a valid reference.
pub open spec fn kind_of(tys: Seq<CTyKind>, t: CTy) -> Option<CTyKind> {
    match t {
        CTy::Ref(id) => if id < tys.len() {
            Some(tys[id as int])
        } else {
            None
        },
        _ => None,
    }
}

pub open spec fn is_array_ty(tys: Seq<CTyKind>, t: CTy) -> bool {
    match kind_of(tys, t) {
        Some(CTyKind::Array(_, _)) => true,
        _ => false,
    }
}

/// Whether `t` is primitive or refers to an entry of `tys` below `bound`.
pub open spec fn ty_below(t: CTy, bound: int) -> bool {
    match t {
        CTy::Ref(id) => id < bound,
        _ => true,
    }
}

pub open spec fn kind_inner(k: CTyKind) -> CTy {
    match k {
        CTyKind::Pointer(t) => t,
        CTyKind::Array(t, _) => t,
    }
}

/// Interned types refer only to types interned before them, and no two
/// entries are equal.
pub open spec fn tys_wf(tys: Seq<CTyKind>) -> bool {
    &&& forall|i: int| 0 <= i < tys.len() ==> ty_below(kind_inner(#[trigger] tys[i]), i)
    &&& forall|i: int, j: int| 0 <= i < j < tys.len() ==> tys[i] != tys[j]
}

pub open spec fn ty_rank(t: CTy) -> nat {
    match t {
        CTy::Ref(id) => id as nat + 1,
        _ => 0,
    }
}

pub open spec fn array_dim(n: usize) -> Seq<char> {
    "["@ + decimal(n as nat) + "]"@
}

/// Unwraps the compound layers of `t` around the declarator `parts`: a pointer
/// puts `*` in front, parenthesized when it points to an array, and an array
/// puts its dimension behind. Returns the base type and the declarator.
pub open spec fn unwrap_declarator(tys: Seq<CTyKind>, t: CTy, parts: Seq<Seq<char>>) -> (
    CTy,
    Seq<Seq<char>>,
)
    decreases ty_rank(t),
{
    match kind_of(tys, t) {
        Some(CTyKind::Pointer(inner)) => if ty_rank(inner) < ty_rank(t) {
            let p = seq!["*"@] + parts;
            unwrap_declarator(
                tys,
                inner,
                if is_array_ty(tys, inner) {
                    seq!["("@] + p + seq![")"@]
                } else {
                    p
                },
            )
        } else {
            (t, parts)
        },
        Some(CTyKind::Array(inner, n)) => if ty_rank(inner) < ty_rank(t) {
            unwrap_declarator(tys, inner, parts.push(array_dim(n)))
        } else {
            (t, parts)
        },
        None => (t, parts),
    }
}

pub open spec fn seed(name: Option<CValue>) -> Seq<Seq<char>> {
    match name {
        Some(v) => seq![value_text(v)],
        None => Seq::empty(),
    }
}

/// The words of the declarator of `t` around an optional name: the base type's
/// name, a space if anything follows, then the declarator parts.
pub open spec fn declarator_words(tys: Seq<CTyKind>, t: CTy, name: Option<CValue>) -> Seq<
    Seq<char>,
> {
    let (base, parts) = unwrap_declarator(tys, t, seed(name));
    seq![primitive_name(base)] + if parts.len() > 0 {
        seq![" "@] + parts
    } else {
        Seq::empty()
    }
}

pub open spec fn texts(words: Seq<Seq<char>>) -> Seq<Tok> {
    words.map_values(|w: Seq<char>| text(w))
}

/// The tokens that print a declarator.
pub open spec fn declarator_doc(tys: Seq<CTyKind>, t: CTy, name: Option<CValue>) -> Seq<Tok> {
    texts(declarator_words(tys, t, name))
}

/// The declarator as one string.
pub open spec fn declarator_text(tys: Seq<CTyKind>, t: CTy, name: Option<CValue>) -> Seq<char> {
    declarator_words(tys, t, name).flatten()
}

impl CTy {
    /// Whether the type is a signed integer.
    pub fn is_signed(self) -> (r: bool)
        ensures
            r == (self is Int),
    {
        match self {
            CTy::Int(_) => true,
            _ => false,
        }
    }

    /// The unsigned version of a signed integer type.
    pub fn to_unsigned(self) -> (r: CTy)
        requires
            self is Int,
        ensures
            r == CTy::UInt(unsigned_of(self->Int_0)),
    {
        match self {
            CTy::Int(t) => CTy::UInt(t.to_unsigned()),
            _ => CTy::Void,
        }
    }

    /// The C name of a primitive type.
    pub fn to_str(self) -> (r: &'static str)
        requires
            is_primitive(self),
        ensures
            r@ == primitive_name(self),
    {
        match self {
            CTy::Void => "void",
            CTy::Bool => "_Bool",
            CTy::Char => "char",
            CTy::Int(t) => t.to_str(),
            CTy::UInt(t) => t.to_str(),
            CTy::Ref(_) => "",
        }
    }

    /// The name of an integer type's largest value, from `<stdint.h>`.
    pub fn max_value(self) -> (r: &'static str)
        requires
            is_integer(self),
        ensures
            r@ == max_name(self),
    {
        match self {
            CTy::Int(t) => t.max_value(),
            CTy::UInt(t) => t.max_value(),
            _ => "",
        }
    }

    pub fn is_primitive(&self) -> (r: bool)
        ensures
            r == is_primitive(*self),
    {
        match self {
            CTy::Ref(_) => false,
            _ => true,
        }
    }

    /// Whether the type is an array type interned in `tys`.
    pub fn is_array(&self, tys: &Vec<CTyKind>) -> (r: bool)
        ensures
            r == is_array_ty(tys@, *self),
    {
        match self {
            CTy::Ref(id) => {
                if *id < tys.len() {
                    match tys[*id] {
                        CTyKind::Array(_, _) => true,
                        _ => false,
                    }
                } else {
                    false
                }
            },
            _ => false,
        }
    }
}

/// Whether some pointer layer of `t` points directly to an array.
pub open spec fn wraps_array(tys: Seq<CTyKind>, t: CTy) -> bool
    decreases ty_rank(t),
{
    match kind_of(tys, t) {
        Some(CTyKind::Pointer(inner)) => if ty_rank(inner) < ty_rank(t) {
            is_array_ty(tys, inner) || wraps_array(tys, inner)
        } else {
            false
        },
        Some(CTyKind::Array(inner, _)) => if ty_rank(inner) < ty_rank(t) {
            wraps_array(tys, inner)
        } else {
            false
        },
        None => false,
    }
}

proof fn lemma_contains_concat(a: Seq<Seq<char>>, b: Seq<Seq<char>>, x: Seq<char>)
    ensures
        (a + b).contains(x) <==> (a.contains(x) || b.contains(x)),
{
    if (a + b).contains(x) {
        let i = choose|i: int| 0 <= i < (a + b).len() && (a + b)[i] == x;
        if i < a.len() {
            assert(a[i] == x);
        } else {
            assert(b[i - a.len()] == x);
        }
    }
    if a.contains(x) {
        let i = choose|i: int| 0 <= i < a.len() && a[i] == x;
        assert((a + b)[i] == x);
    }
    if b.contains(x) {
        let i = choose|i: int| 0 <= i < b.len() && b[i] == x;
        assert((a + b)[i + a.len()] == x);
    }
}

proof fn lemma_single_contains(w: Seq<char>, x: Seq<char>)
    ensures
        seq![w].contains(x) <==> w == x,
{
    if w == x {
        assert(seq![w][0] == x);
    }
}

proof fn lemma_unwrap_parenthesized(tys: Seq<CTyKind>, t: CTy, parts: Seq<Seq<char>>)
    ensures
        unwrap_declarator(tys, t, parts).1.contains("("@) <==> (parts.contains("("@)
            || wraps_array(tys, t)),
    decreases ty_rank(t),
{
    reveal_strlit("(");
    reveal_strlit(")");
    reveal_strlit("*");
    reveal_strlit("[");
    let lp = "("@;
    match kind_of(tys, t) {
        Some(CTyKind::Pointer(inner)) => {
            if ty_rank(inner) < ty_rank(t) {
                let p = seq!["*"@] + parts;
                lemma_contains_concat(seq!["*"@], parts, lp);
                lemma_single_contains("*"@, lp);
                assert("*"@[0] != lp[0]);
                if is_array_ty(tys, inner) {
                    let q = seq!["("@] + p + seq![")"@];
                    lemma_unwrap_parenthesized(tys, inner, q);
                    assert(q[0] == lp);
                } else {
                    lemma_unwrap_parenthesized(tys, inner, p);
                }
            }
        },
        Some(CTyKind::Array(inner, n)) => {
            if ty_rank(inner) < ty_rank(t) {
                let q = parts.push(array_dim(n));
                lemma_unwrap_parenthesized(tys, inner, q);
                assert(q =~= parts + seq![array_dim(n)]);
                lemma_contains_concat(parts, seq![array_dim(n)], lp);
                lemma_single_contains(array_dim(n), lp);
                assert(array_dim(n)[0] != lp[0]);
            }
        },
        None => {},
    }
}

/// Parenthesization: the declarator of `t` around `name` holds a parenthesis
/// exactly when some pointer layer of `t` points directly to an array (for a
/// name that is not itself a parenthesis).
pub proof fn lemma_declarator_parenthesized(tys: Seq<CTyKind>, t: CTy, name: Option<CValue>)
    requires
        name is Some ==> value_text(name->Some_0) != "("@,
    ensures
        unwrap_declarator(tys, t, seed(name)).1.contains("("@) <==> wraps_array(tys, t),
{
    lemma_unwrap_parenthesized(tys, t, seed(name));
    if let Some(v) = name {
        lemma_single_contains(value_text(v), "("@);
    }
}

pub open spec fn name_of(val: Option<&CValue>) -> Option<CValue> {
    match val {
        Some(v) => Some(*v),
        None => None,
    }
}

pub open spec fn words_of(parts: Seq<String>) -> Seq<Seq<char>> {
    parts.map_values(|s: String| s@)
}

fn dim_string(n: usize) -> (r: String)
    ensures
        r@ == array_dim(n),
{
    let mut s = String::from_str("[");
    push_decimal(&mut s, n as u128);
    s.append("]");
    s
}

/// Prints the declarator of `ty` around an optional name, e.g. `int32_t *_1`
/// or `int32_t (*_3)[10]`. Without a name this is an abstract declarator,
/// that is, a standalone type.
pub fn print_declarator(ty: CTy, val: Option<&CValue>, tys: &Vec<CTyKind>, ctx: &mut PrinterCtx)
    requires
        tys_wf(tys@),
        ty_below(ty, tys@.len() as int),
    ensures
        final(ctx)@ == old(ctx)@ + declarator_doc(tys@, ty, name_of(val)),
{
    let mut parts: VecDeque<String> = VecDeque::new();
    match val {
        Some(v) => {
            parts.push_back(value_string(v));
        },
        None => {},
    }
    assert(words_of(parts@) =~= seed(name_of(val)));
    let mut cur = ty;
    while !cur.is_primitive()
        invariant
            tys_wf(tys@),
            ty_below(cur, tys@.len() as int),
            unwrap_declarator(tys@, ty, seed(name_of(val))) == unwrap_declarator(
                tys@,
                cur,
                words_of(parts@),
            ),
        decreases ty_rank(cur),
    {
        let ghost before = words_of(parts@);
        let id = match cur {
            CTy::Ref(id) => id,
            _ => 0,
        };
        assert(ty_below(kind_inner(tys@[id as int]), id as int));
        match tys[id] {
            CTyKind::Pointer(inner) => {
                parts.push_front(String::from_str("*"));
                if inner.is_array(tys) {
                    parts.push_front(String::from_str("("));
                    parts.push_back(String::from_str(")"));
                    assert(words_of(parts@) =~= seq!["("@] + (seq!["*"@] + before) + seq![")"@]);
                } else {
                    assert(words_of(parts@) =~= seq!["*"@] + before);
                }
                cur = inner;
            },
            CTyKind::Array(inner, n) => {
                parts.push_back(dim_string(n));
                assert(words_of(parts@) =~= before.push(array_dim(n)));
                cur = inner;
            },
        }
    }
    let ghost words = words_of(parts@);
    assert(unwrap_declarator(tys@, ty, seed(name_of(val))) == (cur, words));
    ctx.word(cur.to_str());
    if parts.len() > 0 {
        ctx.nbsp();
    }
    let ghost lead = ctx@;
    let mut k: usize = 0;
    while k < parts.len()
        invariant
            k <= parts@.len(),
            words == words_of(parts@),
            ctx@ == lead + texts(words.take(k as int)),
        decreases parts@.len() - k,
    {
        ctx.word(parts[k].as_str());
        assert(words.take(k + 1) =~= words.take(k as int).push(words[k as int]));
        assert(texts(words.take(k + 1)) =~= texts(words.take(k as int)).push(text(words[k as int])));
        k = k + 1;
    }
    assert(words.take(k as int) =~= words);
    assert(declarator_words(tys@, ty, name_of(val)) =~= seq![primitive_name(cur)] + if words.len() > 0 {
        seq![" "@] + words
    } else {
        Seq::empty()
    });
    assert(ctx@ =~= old(ctx)@ + declarator_doc(tys@, ty, name_of(val)));
}

} // verus!

//! The leak table: the types of a trait's signatures that cannot be named
//! outside the trait's own context, each given a stable position, and the
//! rewriting of their occurrences through the repeater relation.
use crate::emit::{TraitDef, TraitItem};
use crate::model::GenericParam;
use crate::params::FnArg;
use crate::syntax::{Name, NameView, Text, Ty, TyList};
use vstd::prelude::*;
use vstd::string::*;

verus! {

/// Two types are the same: equal shapes with equal names and texts.
pub open spec fn ty_same(a: Ty, b: Ty) -> bool
    decreases a,
{
    match (a, b) {
        (Ty::SelfTy, Ty::SelfTy) => true,
        (Ty::Named { path: p1, args: a1 }, Ty::Named { path: p2, args: a2 }) => p1@ == p2@ && list_same(a1, a2),
        (Ty::SelfAssoc(x), Ty::SelfAssoc(y)) => x@ == y@,
        (Ty::Ref { lifetime: l1, mutable: m1, elem: e1 }, Ty::Ref { lifetime: l2, mutable: m2, elem: e2 }) => {
            opt_name_view(l1) == opt_name_view(l2) && m1 == m2 && ty_same(*e1, *e2)
        },
        (Ty::Tuple(x), Ty::Tuple(y)) => list_same(x, y),
        (Ty::Opaque(x), Ty::Opaque(y)) => text_same(x, y),
        (Ty::Lifetime(x), Ty::Lifetime(y)) => x@ == y@,
        (Ty::AssocEq { name: n1, ty: t1 }, Ty::AssocEq { name: n2, ty: t2 }) => n1@ == n2@ && ty_same(*t1, *t2),
        (Ty::Leaked { nonce: n1, index: i1 }, Ty::Leaked { nonce: n2, index: i2 }) => n1 == n2 && i1 == i2,
        _ => false,
    }
}

pub open spec fn text_same(a: Text, b: Text) -> bool
    decreases a,
{
    match (a, b) {
        (Text::Last(x), Text::Last(y)) => x@ == y@,
        (Text::Hole { before: b1, hole: h1, rest: r1 }, Text::Hole { before: b2, hole: h2, rest: r2 }) => b1@ == b2@
            && ty_same(*h1, *h2) && text_same(*r1, *r2),
        _ => false,
    }
}

pub open spec fn list_same(a: TyList, b: TyList) -> bool
    decreases a,
{
    match (a, b) {
        (TyList::Nil, TyList::Nil) => true,
        (TyList::Cons(h1, t1), TyList::Cons(h2, t2)) => ty_same(*h1, *h2) && list_same(*t1, *t2),
        _ => false,
    }
}

pub open spec fn opt_name_view(n: Option<Name>) -> Option<NameView> {
    match n {
        Some(x) => Some(x@),
        None => None,
    }
}

/// Whether two types are the same; see `ty_same`.
pub fn ty_eq(a: &Ty, b: &Ty) -> (r: bool)
    ensures
        r == ty_same(*a, *b),
    decreases a,
{
    match (a, b) {
        (Ty::SelfTy, Ty::SelfTy) => true,
        (Ty::Named { path: p1, args: a1 }, Ty::Named { path: p2, args: a2 }) => p1.same_as(p2) && list_eq(a1, a2),
        (Ty::SelfAssoc(x), Ty::SelfAssoc(y)) => *x == *y,
        (Ty::Ref { lifetime: l1, mutable: m1, elem: e1 }, Ty::Ref { lifetime: l2, mutable: m2, elem: e2 }) => {
            let same_lt = match (l1, l2) {
                (Some(x), Some(y)) => x.same_as(y),
                (None, None) => true,
                _ => false,
            };
            same_lt && *m1 == *m2 && ty_eq(e1, e2)
        },
        (Ty::Tuple(x), Ty::Tuple(y)) => list_eq(x, y),
        (Ty::Opaque(x), Ty::Opaque(y)) => text_eq(x, y),
        (Ty::Lifetime(x), Ty::Lifetime(y)) => x.same_as(y),
        (Ty::AssocEq { name: n1, ty: t1 }, Ty::AssocEq { name: n2, ty: t2 }) => *n1 == *n2 && ty_eq(t1, t2),
        (Ty::Leaked { nonce: n1, index: i1 }, Ty::Leaked { nonce: n2, index: i2 }) => *n1 == *n2 && *i1 == *i2,
        _ => false,
    }
}

fn text_eq(a: &Text, b: &Text) -> (r: bool)
    ensures
        r == text_same(*a, *b),
    decreases a,
{
    match (a, b) {
        (Text::Last(x), Text::Last(y)) => *x == *y,
        (Text::Hole { before: b1, hole: h1, rest: r1 }, Text::Hole { before: b2, hole: h2, rest: r2 }) => *b1 == *b2
            && ty_eq(h1, h2) && text_eq(r1, r2),
        _ => false,
    }
}

fn list_eq(a: &TyList, b: &TyList) -> (r: bool)
    ensures
        r == list_same(*a, *b),
    decreases a,
{
    match (a, b) {
        (TyList::Nil, TyList::Nil) => true,
        (TyList::Cons(h1, t1), TyList::Cons(h2, t2)) => ty_eq(h1, h2) && list_eq(t1, t2),
        _ => false,
    }
}

/// Names that resolve the same everywhere: the primitive types and the
/// types of the standard prelude.
pub open spec fn is_global_name(s: Seq<char>) -> bool {
    s == "i8"@ || s == "i16"@ || s == "i32"@ || s == "i64"@ || s == "i128"@ || s == "isize"@ || s == "u8"@
        || s == "u16"@ || s == "u32"@ || s == "u64"@ || s == "u128"@ || s == "usize"@ || s == "f32"@ || s
        == "f64"@ || s == "bool"@ || s == "char"@ || s == "str"@ || s == "String"@ || s == "Vec"@ || s
        == "Box"@ || s == "Option"@ || s == "Result"@
}

pub open spec fn is_absolute(s: Seq<char>) -> bool {
    s.len() >= 2 && s[0] == ':' && s[1] == ':'
}

/// The name is one of the trait's own generic parameters.
pub open spec fn is_trait_param(params: Seq<GenericParam>, n: NameView) -> bool {
    exists|j: int| 0 <= j < params.len() && (#[trigger] params[j]).ident@ == n
}

/// A type that has to be leaked: a path written by the user that is
/// neither absolute, nor a primitive or prelude type, nor a parameter of
/// the trait.
pub open spec fn is_leaked(t: Ty, params: Seq<GenericParam>) -> bool {
    match t {
        Ty::Named { path, args } => match path {
            Name::Given(s) => !is_absolute(s@) && !is_global_name(s@) && !is_trait_param(params, path@),
            Name::Fresh { .. } => false,
        },
        _ => false,
    }
}

/// The position of the first entry of the table that is the same as `t`.
pub open spec fn leak_index(table: Seq<Ty>, t: Ty) -> Option<int>
    decreases table.len(),
{
    if table.len() == 0 {
        None
    } else {
        match leak_index(table.drop_last(), t) {
            Some(i) => Some(i),
            None => if ty_same(table.last(), t) {
                Some(table.len() - 1)
            } else {
                None
            },
        }
    }
}

pub open spec fn add_leak(table: Seq<Ty>, t: Ty) -> Seq<Ty> {
    if leak_index(table, t) is Some {
        table
    } else {
        table.push(t)
    }
}

/// The table after visiting `t`: a leaked type is added whole, if not there
/// yet; other types are searched inside.
pub open spec fn leak_ty(table: Seq<Ty>, t: Ty, params: Seq<GenericParam>) -> Seq<Ty>
    decreases t,
{
    if is_leaked(t, params) {
        add_leak(table, t)
    } else {
        match t {
            Ty::Named { path, args } => leak_list(table, args, params),
            Ty::Ref { lifetime, mutable, elem } => leak_ty(table, *elem, params),
            Ty::Tuple(l) => leak_list(table, l, params),
            Ty::Opaque(x) => leak_text(table, x, params),
            Ty::AssocEq { name, ty } => leak_ty(table, *ty, params),
            _ => table,
        }
    }
}

pub open spec fn leak_text(table: Seq<Ty>, x: Text, params: Seq<GenericParam>) -> Seq<Ty>
    decreases x,
{
    match x {
        Text::Last(_) => table,
        Text::Hole { before, hole, rest } => leak_text(leak_ty(table, *hole, params), *rest, params),
    }
}

pub open spec fn leak_list(table: Seq<Ty>, l: TyList, params: Seq<GenericParam>) -> Seq<Ty>
    decreases l,
{
    match l {
        TyList::Nil => table,
        TyList::Cons(h, t) => leak_list(leak_ty(table, *h, params), *t, params),
    }
}

/// The table after visiting the parameter types of the first `n` inputs.
pub open spec fn leak_inputs(table: Seq<Ty>, inputs: Seq<FnArg>, n: int, params: Seq<GenericParam>) -> Seq<Ty>
    decreases n,
{
    if n <= 0 {
        table
    } else {
        let prev = leak_inputs(table, inputs, n - 1, params);
        match inputs[n - 1] {
            FnArg::Receiver { .. } => prev,
            FnArg::Typed { pat, ty } => leak_ty(prev, ty, params),
        }
    }
}

pub open spec fn leak_item(table: Seq<Ty>, item: TraitItem, params: Seq<GenericParam>) -> Seq<Ty> {
    match item {
        TraitItem::Fn(f) => {
            let scope = params + f.generics@;
            let after = leak_inputs(table, f.inputs@, f.inputs@.len() as int, scope);
            match f.output {
                Some(t) => leak_ty(after, t, scope),
                None => after,
            }
        },
        TraitItem::Const { ident, ty } => leak_ty(table, ty, params),
        _ => table,
    }
}

pub open spec fn leak_items(items: Seq<TraitItem>, n: int, params: Seq<GenericParam>) -> Seq<Ty>
    decreases n,
{
    if n <= 0 {
        Seq::empty()
    } else {
        leak_item(leak_items(items, n - 1, params), items[n - 1], params)
    }
}

/// The leak table of a trait: its leaked types in order of first occurrence,
/// each once.
pub open spec fn leak_table(tr: TraitDef) -> Seq<Ty> {
    leak_items(tr.items@, tr.items@.len() as int, tr.generics@)
}

fn find_leak(table: &Vec<Ty>, t: &Ty) -> (r: Option<usize>)
    ensures
        match r {
            Some(i) => leak_index(table@, *t) == Some(i as int),
            None => leak_index(table@, *t) is None,
        },
{
    let mut i: usize = 0;
    while i < table.len()
        invariant
            i <= table.len(),
            leak_index(table@.subrange(0, i as int), *t) is None,
        decreases table.len() - i,
    {
        proof {
            assert(table@.subrange(0, i as int + 1).drop_last() =~= table@.subrange(0, i as int));
        }
        if ty_eq(&table[i], t) {
            proof {
                lemma_index_prefix(table@, i as int + 1, *t);
            }
            return Some(i);
        }
        i = i + 1;
    }
    proof {
        assert(table@.subrange(0, table@.len() as int) =~= table@);
    }
    None
}

proof fn lemma_index_prefix(table: Seq<Ty>, m: int, t: Ty)
    requires
        0 <= m <= table.len(),
        leak_index(table.subrange(0, m), t) is Some,
    ensures
        leak_index(table, t) == leak_index(table.subrange(0, m), t),
    decreases table.len() - m,
{
    if m < table.len() {
        assert(table.subrange(0, m + 1).drop_last() =~= table.subrange(0, m));
        lemma_index_prefix(table, m + 1, t);
    } else {
        assert(table.subrange(0, m) =~= table);
    }
}

fn is_global(s: &String) -> (r: bool)
    ensures
        r == is_global_name(s@),
{
    let names = ["i8", "i16", "i32", "i64", "i128", "isize", "u8", "u16", "u32", "u64", "u128", "usize", "f32", "f64",
        "bool", "char", "str", "String", "Vec", "Box", "Option", "Result"];
    let mut found = false;
    let mut k: usize = 0;
    while k < 22
        invariant
            k <= 22,
            names@.len() == 22,
            found == exists|j: int| 0 <= j < k && s@ == (#[trigger] names@[j])@,
        decreases 22 - k,
    {
        let lit = String::from_str(names[k]);
        if *s == lit {
            found = true;
        }
        k = k + 1;
    }
    proof {
        assert(names@[0] == "i8");
    }
    assert(found == is_global_name(s@)) by {
        if found {
            let j = choose|j: int| 0 <= j < 22 && s@ == (#[trigger] names@[j])@;
            assert(0 <= j < 22);
        }
    }
    found
}

fn absolute(s: &String) -> (r: bool)
    ensures
        r == is_absolute(s@),
{
    let t = s.as_str();
    t.unicode_len() >= 2 && t.get_char(0) == ':' && t.get_char(1) == ':'
}

fn trait_param(params: &Vec<GenericParam>, n: &Name) -> (r: bool)
    ensures
        r == is_trait_param(params@, n@),
{
    let mut j: usize = 0;
    while j < params.len()
        invariant
            j <= params.len(),
            forall|k: int| 0 <= k < j ==> (#[trigger] params@[k]).ident@ != n@,
        decreases params.len() - j,
    {
        if params[j].ident.same_as(n) {
            return true;
        }
        j = j + 1;
    }
    false
}

/// Whether the type has to be leaked; see `is_leaked`.
pub fn check_leaked(t: &Ty, params: &Vec<GenericParam>) -> (r: bool)
    ensures
        r == is_leaked(*t, params@),
{
    match t {
        Ty::Named { path, .. } => match path {
            Name::Given(s) => !absolute(s) && !is_global(s) && !trait_param(params, path),
            Name::Fresh { .. } => false,
        },
        _ => false,
    }
}

fn visit_ty(table: &mut Vec<Ty>, t: &Ty, params: &Vec<GenericParam>)
    ensures
        final(table)@ == leak_ty(old(table)@, *t, params@),
    decreases t,
{
    if check_leaked(t, params) {
        if find_leak(table, t).is_none() {
            table.push(t.copy());
        }
        return;
    }
    match t {
        Ty::Named { args, .. } => visit_list(table, args, params),
        Ty::Ref { elem, .. } => visit_ty(table, elem, params),
        Ty::Tuple(l) => visit_list(table, l, params),
        Ty::Opaque(x) => visit_text(table, x, params),
        Ty::AssocEq { ty, .. } => visit_ty(table, ty, params),
        _ => {},
    }
}

fn visit_text(table: &mut Vec<Ty>, x: &Text, params: &Vec<GenericParam>)
    ensures
        final(table)@ == leak_text(old(table)@, *x, params@),
    decreases x,
{
    match x {
        Text::Last(_) => {},
        Text::Hole { hole, rest, .. } => {
            visit_ty(table, hole, params);
            visit_text(table, rest, params);
        },
    }
}

fn visit_list(table: &mut Vec<Ty>, l: &TyList, params: &Vec<GenericParam>)
    ensures
        final(table)@ == leak_list(old(table)@, *l, params@),
    decreases l,
{
    match l {
        TyList::Nil => {},
        TyList::Cons(h, t) => {
            visit_ty(table, h, params);
            visit_list(table, t, params);
        },
    }
}

/// The generic parameters in scope in a method: the trait's, then the
/// method's own.
pub fn fn_scope(trait_params: &Vec<GenericParam>, fn_params: &Vec<GenericParam>) -> (r: Vec<GenericParam>)
    ensures
        r@ == trait_params@ + fn_params@,
{
    let mut out = crate::emit::copy_params(trait_params);
    let mut i: usize = 0;
    while i < fn_params.len()
        invariant
            i <= fn_params.len(),
            out@ == trait_params@ + fn_params@.subrange(0, i as int),
        decreases fn_params.len() - i,
    {
        out.push(fn_params[i].copy());
        i = i + 1;
        proof {
            assert(out@ =~= trait_params@ + fn_params@.subrange(0, i as int));
        }
    }
    proof {
        assert(fn_params@.subrange(0, fn_params@.len() as int) =~= fn_params@);
    }
    out
}

/// Collects the leak table of a trait; see `leak_table`.
pub fn collect_leaks(tr: &TraitDef) -> (r: Vec<Ty>)
    ensures
        r@ == leak_table(*tr),
{
    let mut table: Vec<Ty> = Vec::new();
    let mut i: usize = 0;
    while i < tr.items.len()
        invariant
            i <= tr.items.len(),
            table@ == leak_items(tr.items@, i as int, tr.generics@),
        decreases tr.items.len() - i,
    {
        match &tr.items[i] {
            TraitItem::Fn(f) => {
                let scope = fn_scope(&tr.generics, &f.generics);
                let mut k: usize = 0;
                let ghost start = table@;
                while k < f.inputs.len()
                    invariant
                        k <= f.inputs.len(),
                        scope@ == tr.generics@ + f.generics@,
                        table@ == leak_inputs(start, f.inputs@, k as int, scope@),
                    decreases f.inputs.len() - k,
                {
                    match &f.inputs[k] {
                        FnArg::Receiver { .. } => {},
                        FnArg::Typed { ty, .. } => visit_ty(&mut table, ty, &scope),
                    }
                    k = k + 1;
                }
                match &f.output {
                    Some(t) => visit_ty(&mut table, t, &scope),
                    None => {},
                }
            },
            TraitItem::Const { ty, .. } => visit_ty(&mut table, ty, &tr.generics),
            _ => {},
        }
        i = i + 1;
    }
    table
}

/// The type with each leaked type that the table holds replaced by the
/// repeater's type for its position, under the registration `nonce`.
pub open spec fn routed_ty(t: Ty, table: Seq<Ty>, params: Seq<GenericParam>, nonce: u64) -> Ty
    decreases t,
{
    if is_leaked(t, params) {
        match leak_index(table, t) {
            Some(i) => Ty::Leaked { nonce, index: i as usize },
            None => t,
        }
    } else {
        match t {
            Ty::Named { path, args } => Ty::Named { path, args: routed_list(args, table, params, nonce) },
            Ty::Ref { lifetime, mutable, elem } => Ty::Ref {
                lifetime,
                mutable,
                elem: Box::new(routed_ty(*elem, table, params, nonce)),
            },
            Ty::Tuple(l) => Ty::Tuple(routed_list(l, table, params, nonce)),
            Ty::Opaque(x) => Ty::Opaque(routed_text(x, table, params, nonce)),
            Ty::AssocEq { name, ty } => Ty::AssocEq { name, ty: Box::new(routed_ty(*ty, table, params, nonce)) },
            _ => t,
        }
    }
}

pub open spec fn routed_text(x: Text, table: Seq<Ty>, params: Seq<GenericParam>, nonce: u64) -> Text
    decreases x,
{
    match x {
        Text::Last(_) => x,
        Text::Hole { before, hole, rest } => Text::Hole {
            before,
            hole: Box::new(routed_ty(*hole, table, params, nonce)),
            rest: Box::new(routed_text(*rest, table, params, nonce)),
        },
    }
}

pub open spec fn routed_list(l: TyList, table: Seq<Ty>, params: Seq<GenericParam>, nonce: u64) -> TyList
    decreases l,
{
    match l {
        TyList::Nil => TyList::Nil,
        TyList::Cons(h, t) => TyList::Cons(
            Box::new(routed_ty(*h, table, params, nonce)),
            Box::new(routed_list(*t, table, params, nonce)),
        ),
    }
}

/// Rewrites the leaked types in `t`; see `routed_ty`.
pub fn route_ty(t: &Ty, table: &Vec<Ty>, params: &Vec<GenericParam>, nonce: u64) -> (r: Ty)
    ensures
        r == routed_ty(*t, table@, params@, nonce),
    decreases t,
{
    if check_leaked(t, params) {
        return match find_leak(table, t) {
            Some(i) => Ty::Leaked { nonce, index: i },
            None => t.copy(),
        };
    }
    match t {
        Ty::Named { path, args } => Ty::Named { path: path.copy(), args: route_list(args, table, params, nonce) },
        Ty::Ref { lifetime, mutable, elem } => Ty::Ref {
            lifetime: crate::syntax::copy_opt_name(lifetime),
            mutable: *mutable,
            elem: Box::new(route_ty(elem, table, params, nonce)),
        },
        Ty::Tuple(l) => Ty::Tuple(route_list(l, table, params, nonce)),
        Ty::Opaque(x) => Ty::Opaque(route_text(x, table, params, nonce)),
        Ty::AssocEq { name, ty } => Ty::AssocEq { name: name.clone(), ty: Box::new(route_ty(ty, table, params, nonce)) },
        _ => t.copy(),
    }
}

fn route_text(x: &Text, table: &Vec<Ty>, params: &Vec<GenericParam>, nonce: u64) -> (r: Text)
    ensures
        r == routed_text(*x, table@, params@, nonce),
    decreases x,
{
    match x {
        Text::Last(_) => x.copy(),
        Text::Hole { before, hole, rest } => Text::Hole {
            before: before.clone(),
            hole: Box::new(route_ty(hole, table, params, nonce)),
            rest: Box::new(route_text(rest, table, params, nonce)),
        },
    }
}

fn route_list(l: &TyList, table: &Vec<Ty>, params: &Vec<GenericParam>, nonce: u64) -> (r: TyList)
    ensures
        r == routed_list(*l, table@, params@, nonce),
    decreases l,
{
    match l {
        TyList::Nil => TyList::Nil,
        TyList::Cons(h, t) => TyList::Cons(
            Box::new(route_ty(h, table, params, nonce)),
            Box::new(route_list(t, table, params, nonce)),
        ),
    }
}

/// One implementation of the repeater relation: under the registration
/// `nonce`, position `index` stands for `ty`.
#[derive(Debug, PartialEq, Eq)]
pub struct RepeaterImpl {
    pub nonce: u64,
    pub index: usize,
    pub ty: Ty,
}

pub open spec fn repeater_at(table: Seq<Ty>, nonce: u64, i: int) -> RepeaterImpl {
    RepeaterImpl { nonce, index: i as usize, ty: table[i] }
}

/// The repeater implementations of a registration: one per entry of the
/// leak table, at the entry's position.
pub fn emit_repeater_impl(table: &Vec<Ty>, nonce: u64) -> (r: Vec<RepeaterImpl>)
    ensures
        r@.len() == table@.len(),
        forall|i: int| 0 <= i < table@.len() ==> #[trigger] r@[i] == repeater_at(table@, nonce, i),
{
    let mut out: Vec<RepeaterImpl> = Vec::new();
    let mut i: usize = 0;
    while i < table.len()
        invariant
            i <= table.len(),
            out@.len() == i,
            forall|j: int| 0 <= j < i ==> #[trigger] out@[j] == repeater_at(table@, nonce, j),
        decreases table.len() - i,
    {
        out.push(RepeaterImpl { nonce, index: i, ty: table[i].copy() });
        i = i + 1;
    }
    out
}

proof fn lemma_index_is_same(table: Seq<Ty>, t: Ty)
    requires
        leak_index(table, t) is Some,
    ensures
        0 <= leak_index(table, t)->Some_0 < table.len(),
        ty_same(table[leak_index(table, t)->Some_0], t),
    decreases table.len(),
{
    if leak_index(table.drop_last(), t) is Some {
        lemma_index_is_same(table.drop_last(), t);
    }
}

/// Leak positions are invisible in behaviour: two registrations of the same
/// trait text, with any two nonces, build the same leak table; a leaked type
/// of the trait is routed to the same position under both, and the repeater
/// implementation at that position stands for that same type under both.
pub proof fn lemma_leak_resolution_stable(tr: TraitDef, t: Ty, n1: u64, n2: u64)
    requires
        is_leaked(t, tr.generics@),
        leak_index(leak_table(tr), t) is Some,
        leak_table(tr).len() <= usize::MAX,
    ensures
        ({
            let table = leak_table(tr);
            let i = leak_index(table, t)->Some_0;
            &&& routed_ty(t, table, tr.generics@, n1) == Ty::Leaked { nonce: n1, index: i as usize }
            &&& routed_ty(t, table, tr.generics@, n2) == Ty::Leaked { nonce: n2, index: i as usize }
            &&& repeater_at(table, n1, i).ty == repeater_at(table, n2, i).ty
            &&& ty_same(repeater_at(table, n1, i).ty, t)
        }),
{
    lemma_index_is_same(leak_table(tr), t);
}

} // verus!

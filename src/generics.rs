//! Merging generic parameter lists, renaming parameters apart, and
//! substituting parameters by their arguments.
use crate::model::{GenericArg, GenericParam, ParamKind};
use crate::syntax::{FreshKind, Name, NameView, Text, Ty, TyList};
use vstd::prelude::*;

verus! {

/// The parameters of kind `k`, in their order.
pub open spec fn of_kind(s: Seq<GenericParam>, k: ParamKind) -> Seq<GenericParam>
    decreases s.len(),
{
    if s.len() == 0 {
        Seq::empty()
    } else if s.last().kind == k {
        of_kind(s.drop_last(), k).push(s.last())
    } else {
        of_kind(s.drop_last(), k)
    }
}

/// The merged list: lifetimes, then consts, then types; within each kind
/// the container's parameters come before the specification's.
pub open spec fn merged(a: Seq<GenericParam>, b: Seq<GenericParam>) -> Seq<GenericParam> {
    of_kind(a, ParamKind::Lifetime) + of_kind(b, ParamKind::Lifetime) + of_kind(a, ParamKind::Const)
        + of_kind(b, ParamKind::Const) + of_kind(a, ParamKind::Type) + of_kind(b, ParamKind::Type)
}

pub open spec fn kind_rank(k: ParamKind) -> int {
    match k {
        ParamKind::Lifetime => 0,
        ParamKind::Const => 1,
        ParamKind::Type => 2,
    }
}

fn append_of_kind(out: &mut Vec<GenericParam>, src: &Vec<GenericParam>, k: ParamKind)
    ensures
        final(out)@ == old(out)@ + of_kind(src@, k),
{
    let mut i: usize = 0;
    while i < src.len()
        invariant
            i <= src.len(),
            out@ == old(out)@ + of_kind(src@.subrange(0, i as int), k),
        decreases src.len() - i,
    {
        proof {
            assert(src@.subrange(0, i as int + 1).drop_last() =~= src@.subrange(0, i as int));
        }
        if src[i].kind == k {
            out.push(src[i].copy());
        }
        i = i + 1;
        proof {
            assert(out@ =~= old(out)@ + of_kind(src@.subrange(0, i as int), k));
        }
    }
    proof {
        assert(src@.subrange(0, src@.len() as int) =~= src@);
    }
}

/// Merges the container's generic parameters `a` with the specification's
/// `b` in the order that the language requires.
pub fn merge_generic_params(a: &Vec<GenericParam>, b: &Vec<GenericParam>) -> (r: Vec<GenericParam>)
    ensures
        r@ == merged(a@, b@),
{
    let mut out: Vec<GenericParam> = Vec::new();
    append_of_kind(&mut out, a, ParamKind::Lifetime);
    append_of_kind(&mut out, b, ParamKind::Lifetime);
    append_of_kind(&mut out, a, ParamKind::Const);
    append_of_kind(&mut out, b, ParamKind::Const);
    append_of_kind(&mut out, a, ParamKind::Type);
    append_of_kind(&mut out, b, ParamKind::Type);
    proof {
        assert(out@ =~= merged(a@, b@));
    }
    out
}

proof fn lemma_of_kind(s: Seq<GenericParam>, k: ParamKind)
    ensures
        forall|i: int| 0 <= i < of_kind(s, k).len() ==> (#[trigger] of_kind(s, k)[i]).kind == k,
        of_kind(s, k).len() <= s.len(),
    decreases s.len(),
{
    if s.len() > 0 {
        lemma_of_kind(s.drop_last(), k);
    }
}

/// In a merged list every lifetime precedes every const, and every const
/// precedes every type, and nothing is lost or added.
pub proof fn lemma_merged_is_ordered(a: Seq<GenericParam>, b: Seq<GenericParam>)
    ensures
        forall|i: int, j: int|
            0 <= i < j < merged(a, b).len() ==> kind_rank(merged(a, b)[i].kind) <= kind_rank(
                merged(a, b)[j].kind,
            ),
        merged(a, b).len() == a.len() + b.len(),
{
    lemma_of_kind(a, ParamKind::Lifetime);
    lemma_of_kind(b, ParamKind::Lifetime);
    lemma_of_kind(a, ParamKind::Const);
    lemma_of_kind(b, ParamKind::Const);
    lemma_of_kind(a, ParamKind::Type);
    lemma_of_kind(b, ParamKind::Type);
    lemma_kinds_partition(a);
    lemma_kinds_partition(b);
    let la = of_kind(a, ParamKind::Lifetime);
    let lb = of_kind(b, ParamKind::Lifetime);
    let ca = of_kind(a, ParamKind::Const);
    let cb = of_kind(b, ParamKind::Const);
    let ta = of_kind(a, ParamKind::Type);
    let tb = of_kind(b, ParamKind::Type);
    let m = merged(a, b);
    assert forall|i: int| 0 <= i < m.len() implies kind_rank(#[trigger] m[i].kind) == (if i < la.len()
        + lb.len() {
        0int
    } else if i < la.len() + lb.len() + ca.len() + cb.len() {
        1int
    } else {
        2int
    }) by {
        if i < la.len() {
            assert(m[i] == la[i]);
        } else if i < la.len() + lb.len() {
            assert(m[i] == lb[i - la.len()]);
        } else if i < la.len() + lb.len() + ca.len() {
            assert(m[i] == ca[i - la.len() - lb.len()]);
        } else if i < la.len() + lb.len() + ca.len() + cb.len() {
            assert(m[i] == cb[i - la.len() - lb.len() - ca.len()]);
        } else if i < la.len() + lb.len() + ca.len() + cb.len() + ta.len() {
            assert(m[i] == ta[i - la.len() - lb.len() - ca.len() - cb.len()]);
        } else {
            assert(m[i] == tb[i - la.len() - lb.len() - ca.len() - cb.len() - ta.len()]);
        }
    }
}

proof fn lemma_kinds_partition(s: Seq<GenericParam>)
    ensures
        of_kind(s, ParamKind::Lifetime).len() + of_kind(s, ParamKind::Const).len() + of_kind(
            s,
            ParamKind::Type,
        ).len() == s.len(),
    decreases s.len(),
{
    if s.len() > 0 {
        lemma_kinds_partition(s.drop_last());
    }
}

/// One entry of a substitution: occurrences of the parameter `from` of kind
/// `kind` are replaced by `to`.
#[derive(Debug, PartialEq, Eq)]
pub struct Subst {
    pub kind: ParamKind,
    pub from: Name,
    pub to: GenericArg,
}

impl Subst {
    pub fn copy(&self) -> (r: Subst)
        ensures
            r == *self,
    {
        Subst { kind: self.kind, from: self.from.copy(), to: self.to.copy() }
    }
}

/// The generated name that replaces a container's or a specification's
/// parameter.
pub open spec fn fresh_name(p: GenericParam, nonce: u64) -> Name {
    Name::Fresh {
        kind: if p.kind == ParamKind::Lifetime {
            FreshKind::Lifetime
        } else {
            FreshKind::TypeParam
        },
        base: match p.ident {
            Name::Given(s) => Some(s),
            Name::Fresh { .. } => None,
        },
        nonce,
        n: 0,
    }
}

pub open spec fn name_arg(k: ParamKind, n: Name) -> GenericArg {
    match k {
        ParamKind::Lifetime => GenericArg::Lifetime(n),
        ParamKind::Const => GenericArg::Const(Ty::Named { path: n, args: TyList::Nil }),
        ParamKind::Type => GenericArg::Type(Ty::Named { path: n, args: TyList::Nil }),
    }
}

/// The parameter under the generated name, with the renaming `map` of its
/// whole list applied to its bounds and default.
pub open spec fn renamed_param(p: GenericParam, nonce: u64, map: Seq<Subst>) -> GenericParam {
    GenericParam {
        kind: p.kind,
        ident: fresh_name(p, nonce),
        bounds: subst_list(p.bounds, map),
        default: subst_opt(p.default, map),
    }
}

/// The parameter with the substitution applied to its bounds and default.
pub open spec fn subst_param(p: GenericParam, map: Seq<Subst>) -> GenericParam {
    GenericParam { kind: p.kind, ident: p.ident, bounds: subst_list(p.bounds, map), default: subst_opt(p.default, map) }
}

pub open spec fn subst_opt(t: Option<Ty>, map: Seq<Subst>) -> Option<Ty> {
    match t {
        Some(x) => Some(subst_ty(x, map)),
        None => None,
    }
}

pub open spec fn subst_params(ps: Seq<GenericParam>, map: Seq<Subst>) -> Seq<GenericParam> {
    ps.map_values(|p: GenericParam| subst_param(p, map))
}

pub open spec fn rename_entry(p: GenericParam, nonce: u64) -> Subst {
    Subst { kind: p.kind, from: p.ident, to: name_arg(p.kind, fresh_name(p, nonce)) }
}

fn make_fresh(p: &GenericParam, nonce: u64) -> (r: Name)
    ensures
        r == fresh_name(*p, nonce),
{
    Name::Fresh {
        kind: if p.kind == ParamKind::Lifetime {
            FreshKind::Lifetime
        } else {
            FreshKind::TypeParam
        },
        base: match &p.ident {
            Name::Given(s) => Some(s.clone()),
            Name::Fresh { .. } => None,
        },
        nonce,
        n: 0,
    }
}

fn make_name_arg(k: ParamKind, n: Name) -> (r: GenericArg)
    ensures
        r == name_arg(k, n),
{
    match k {
        ParamKind::Lifetime => GenericArg::Lifetime(n),
        ParamKind::Const => GenericArg::Const(Ty::Named { path: n, args: TyList::Nil }),
        ParamKind::Type => GenericArg::Type(Ty::Named { path: n, args: TyList::Nil }),
    }
}

/// Renames every parameter to a generated name tied to `nonce`, so that it
/// cannot capture or be captured by a name of the trait; returns the renamed
/// parameters (their bounds and defaults renamed too) and the substitution
/// that carries old names to new ones.
pub fn rename_params(params: &Vec<GenericParam>, nonce: u64) -> (r: (Vec<GenericParam>, Vec<Subst>))
    ensures
        r.1@ == params@.map_values(|p: GenericParam| rename_entry(p, nonce)),
        r.0@ == params@.map_values(|p: GenericParam| renamed_param(p, nonce, r.1@)),
{
    let mut map: Vec<Subst> = Vec::new();
    let mut i: usize = 0;
    while i < params.len()
        invariant
            i <= params.len(),
            map@ == params@.subrange(0, i as int).map_values(|p: GenericParam| rename_entry(p, nonce)),
        decreases params.len() - i,
    {
        let p = &params[i];
        map.push(Subst { kind: p.kind, from: p.ident.copy(), to: make_name_arg(p.kind, make_fresh(p, nonce)) });
        i = i + 1;
        proof {
            assert(map@ =~= params@.subrange(0, i as int).map_values(|p: GenericParam| rename_entry(p, nonce)));
        }
    }
    proof {
        assert(params@.subrange(0, params@.len() as int) =~= params@);
    }
    let mut ps: Vec<GenericParam> = Vec::new();
    let mut i: usize = 0;
    while i < params.len()
        invariant
            i <= params.len(),
            ps@ == params@.subrange(0, i as int).map_values(|p: GenericParam| renamed_param(p, nonce, map@)),
        decreases params.len() - i,
    {
        let p = &params[i];
        ps.push(
            GenericParam {
                kind: p.kind,
                ident: make_fresh(p, nonce),
                bounds: substitute_list(&p.bounds, &map),
                default: substitute_opt(&p.default, &map),
            },
        );
        i = i + 1;
        proof {
            assert(ps@ =~= params@.subrange(0, i as int).map_values(|p: GenericParam| renamed_param(p, nonce, map@)));
        }
    }
    (ps, map)
}

pub fn substitute_opt(t: &Option<Ty>, map: &Vec<Subst>) -> (r: Option<Ty>)
    ensures
        r == subst_opt(*t, map@),
{
    match t {
        Some(x) => Some(substitute_ty(x, map)),
        None => None,
    }
}

/// Applies the substitution to the bounds and defaults of each parameter.
pub fn substitute_params(ps: &Vec<GenericParam>, map: &Vec<Subst>) -> (r: Vec<GenericParam>)
    ensures
        r@ == subst_params(ps@, map@),
{
    let mut out: Vec<GenericParam> = Vec::new();
    let mut i: usize = 0;
    while i < ps.len()
        invariant
            i <= ps.len(),
            out@ == ps@.subrange(0, i as int).map_values(|p: GenericParam| subst_param(p, map@)),
        decreases ps.len() - i,
    {
        let p = &ps[i];
        out.push(
            GenericParam {
                kind: p.kind,
                ident: p.ident.copy(),
                bounds: substitute_list(&p.bounds, map),
                default: substitute_opt(&p.default, map),
            },
        );
        i = i + 1;
        proof {
            assert(out@ =~= ps@.subrange(0, i as int).map_values(|p: GenericParam| subst_param(p, map@)));
        }
    }
    proof {
        assert(ps@.subrange(0, ps@.len() as int) =~= ps@);
    }
    out
}

/// The first replacement for a lifetime named `n`.
pub open spec fn lookup_lifetime(map: Seq<Subst>, n: NameView) -> Option<Name>
    decreases map.len(),
{
    if map.len() == 0 {
        None
    } else if map[0].kind == ParamKind::Lifetime && map[0].from@ == n && (map[0].to is Lifetime) {
        Some(map[0].to->Lifetime_0)
    } else {
        lookup_lifetime(map.drop_first(), n)
    }
}

/// The first replacement for a type or const parameter named `n`.
pub open spec fn lookup_term(map: Seq<Subst>, n: NameView) -> Option<Ty>
    decreases map.len(),
{
    if map.len() == 0 {
        None
    } else if map[0].kind != ParamKind::Lifetime && map[0].from@ == n && !(map[0].to is Lifetime) {
        Some(
            match map[0].to {
                GenericArg::Type(t) => t,
                GenericArg::Const(t) => t,
                GenericArg::Lifetime(_) => Ty::SelfTy,
            },
        )
    } else {
        lookup_term(map.drop_first(), n)
    }
}

/// The type with every parameter of `map` replaced, wherever it stands: a
/// path that is a single identifier, a lifetime (of a reference, or as an
/// argument), and each hole of a form kept as text.
pub open spec fn subst_ty(t: Ty, map: Seq<Subst>) -> Ty
    decreases t,
{
    match t {
        Ty::Named { path, args } => match args {
            TyList::Nil => match lookup_term(map, path@) {
                Some(r) => r,
                None => t,
            },
            TyList::Cons(_, _) => Ty::Named { path, args: subst_list(args, map) },
        },
        Ty::Ref { lifetime, mutable, elem } => Ty::Ref {
            lifetime: subst_lifetime(lifetime, map),
            mutable,
            elem: Box::new(subst_ty(*elem, map)),
        },
        Ty::Tuple(l) => Ty::Tuple(subst_list(l, map)),
        Ty::Opaque(x) => Ty::Opaque(subst_text(x, map)),
        Ty::Lifetime(n) => Ty::Lifetime(
            match lookup_lifetime(map, n@) {
                Some(m) => m,
                None => n,
            },
        ),
        Ty::AssocEq { name, ty } => Ty::AssocEq { name, ty: Box::new(subst_ty(*ty, map)) },
        _ => t,
    }
}

pub open spec fn subst_text(x: Text, map: Seq<Subst>) -> Text
    decreases x,
{
    match x {
        Text::Last(_) => x,
        Text::Hole { before, hole, rest } => Text::Hole {
            before,
            hole: Box::new(subst_ty(*hole, map)),
            rest: Box::new(subst_text(*rest, map)),
        },
    }
}

pub open spec fn subst_list(l: TyList, map: Seq<Subst>) -> TyList
    decreases l,
{
    match l {
        TyList::Nil => TyList::Nil,
        TyList::Cons(h, t) => TyList::Cons(Box::new(subst_ty(*h, map)), Box::new(subst_list(*t, map))),
    }
}

pub open spec fn subst_lifetime(l: Option<Name>, map: Seq<Subst>) -> Option<Name> {
    match l {
        None => None,
        Some(n) => match lookup_lifetime(map, n@) {
            Some(m) => Some(m),
            None => Some(n),
        },
    }
}

fn find_lifetime(map: &Vec<Subst>, n: &Name) -> (r: Option<Name>)
    ensures
        r == lookup_lifetime(map@, n@),
{
    let mut i: usize = 0;
    proof {
        assert(map@.subrange(0, map@.len() as int) =~= map@);
    }
    while i < map.len()
        invariant
            i <= map.len(),
            lookup_lifetime(map@, n@) == lookup_lifetime(map@.subrange(i as int, map@.len() as int), n@),
        decreases map.len() - i,
    {
        let ghost rest = map@.subrange(i as int, map@.len() as int);
        proof {
            assert(rest[0] == map@[i as int]);
            assert(rest.drop_first() =~= map@.subrange(i as int + 1, map@.len() as int));
        }
        let e = &map[i];
        if e.kind == ParamKind::Lifetime && e.from.same_as(n) {
            match &e.to {
                GenericArg::Lifetime(m) => {
                    return Some(m.copy());
                },
                _ => {},
            }
        }
        i = i + 1;
    }
    None
}

fn find_term(map: &Vec<Subst>, n: &Name) -> (r: Option<Ty>)
    ensures
        r == lookup_term(map@, n@),
{
    let mut i: usize = 0;
    proof {
        assert(map@.subrange(0, map@.len() as int) =~= map@);
    }
    while i < map.len()
        invariant
            i <= map.len(),
            lookup_term(map@, n@) == lookup_term(map@.subrange(i as int, map@.len() as int), n@),
        decreases map.len() - i,
    {
        let ghost rest = map@.subrange(i as int, map@.len() as int);
        proof {
            assert(rest[0] == map@[i as int]);
            assert(rest.drop_first() =~= map@.subrange(i as int + 1, map@.len() as int));
        }
        let e = &map[i];
        if e.kind != ParamKind::Lifetime && e.from.same_as(n) {
            match &e.to {
                GenericArg::Type(t) => {
                    return Some(t.copy());
                },
                GenericArg::Const(t) => {
                    return Some(t.copy());
                },
                _ => {},
            }
        }
        i = i + 1;
    }
    None
}

/// Applies the substitution to a type.
pub fn substitute_ty(t: &Ty, map: &Vec<Subst>) -> (r: Ty)
    ensures
        r == subst_ty(*t, map@),
    decreases t,
{
    match t {
        Ty::Named { path, args } => match args {
            TyList::Nil => match find_term(map, path) {
                Some(r) => r,
                None => t.copy(),
            },
            TyList::Cons(_, _) => Ty::Named { path: path.copy(), args: substitute_list(args, map) },
        },
        Ty::Ref { lifetime, mutable, elem } => {
            let lt = match lifetime {
                None => None,
                Some(n) => match find_lifetime(map, n) {
                    Some(m) => Some(m),
                    None => Some(n.copy()),
                },
            };
            Ty::Ref { lifetime: lt, mutable: *mutable, elem: Box::new(substitute_ty(elem, map)) }
        },
        Ty::Tuple(l) => Ty::Tuple(substitute_list(l, map)),
        Ty::Opaque(x) => Ty::Opaque(substitute_text(x, map)),
        Ty::Lifetime(n) => Ty::Lifetime(
            match find_lifetime(map, n) {
                Some(m) => m,
                None => n.copy(),
            },
        ),
        Ty::AssocEq { name, ty } => Ty::AssocEq { name: name.clone(), ty: Box::new(substitute_ty(ty, map)) },
        _ => t.copy(),
    }
}

fn substitute_text(x: &Text, map: &Vec<Subst>) -> (r: Text)
    ensures
        r == subst_text(*x, map@),
    decreases x,
{
    match x {
        Text::Last(_) => x.copy(),
        Text::Hole { before, hole, rest } => Text::Hole {
            before: before.clone(),
            hole: Box::new(substitute_ty(hole, map)),
            rest: Box::new(substitute_text(rest, map)),
        },
    }
}

pub fn substitute_list(l: &TyList, map: &Vec<Subst>) -> (r: TyList)
    ensures
        r == subst_list(*l, map@),
    decreases l,
{
    match l {
        TyList::Nil => TyList::Nil,
        TyList::Cons(h, t) => TyList::Cons(Box::new(substitute_ty(h, map)), Box::new(substitute_list(t, map))),
    }
}

/// The entry is hidden by one of `params`, which declares the same name
/// again (a lifetime hides a lifetime; a type or const hides either).
pub open spec fn shadowed(e: Subst, params: Seq<GenericParam>) -> bool {
    exists|j: int|
        0 <= j < params.len() && (#[trigger] params[j]).ident@ == e.from@ && ((params[j].kind
            == ParamKind::Lifetime) == (e.kind == ParamKind::Lifetime))
}

/// The entries of `map` that `params` does not hide, in order.
pub open spec fn visible(map: Seq<Subst>, params: Seq<GenericParam>) -> Seq<Subst>
    decreases map.len(),
{
    if map.len() == 0 {
        Seq::empty()
    } else if shadowed(map.last(), params) {
        visible(map.drop_last(), params)
    } else {
        visible(map.drop_last(), params).push(map.last())
    }
}

fn is_shadowed(e: &Subst, params: &Vec<GenericParam>) -> (r: bool)
    ensures
        r == shadowed(*e, params@),
{
    let mut j: usize = 0;
    while j < params.len()
        invariant
            j <= params.len(),
            forall|k: int|
                0 <= k < j ==> !((#[trigger] params@[k]).ident@ == e.from@ && ((params@[k].kind
                    == ParamKind::Lifetime) == (e.kind == ParamKind::Lifetime))),
        decreases params.len() - j,
    {
        if params[j].ident.same_as(&e.from) && ((params[j].kind == ParamKind::Lifetime) == (e.kind
            == ParamKind::Lifetime)) {
            return true;
        }
        j = j + 1;
    }
    false
}

/// The substitution to use inside an item that declares `params` itself:
/// the entries for names that the item declares again are dropped.
pub fn filter_generics(map: &Vec<Subst>, params: &Vec<GenericParam>) -> (r: Vec<Subst>)
    ensures
        r@ == visible(map@, params@),
{
    let mut out: Vec<Subst> = Vec::new();
    let mut i: usize = 0;
    while i < map.len()
        invariant
            i <= map.len(),
            out@ == visible(map@.subrange(0, i as int), params@),
        decreases map.len() - i,
    {
        proof {
            assert(map@.subrange(0, i as int + 1).drop_last() =~= map@.subrange(0, i as int));
        }
        if !is_shadowed(&map[i], params) {
            out.push(map[i].copy());
        }
        i = i + 1;
    }
    proof {
        assert(map@.subrange(0, map@.len() as int) =~= map@);
    }
    out
}

/// Why the trait's generic parameters could not be bound.
#[derive(Clone, Copy, Debug, PartialEq, Eq, Structural)]
pub enum BindError {
    /// The argument at this position is of another kind than the parameter.
    Mismatch { index: usize },
    /// The parameter at this position has neither an argument nor a default.
    Unbound { index: usize },
}

/// The binding of one trait parameter: to its argument by position, or to
/// its default.
pub open spec fn bind_one(p: GenericParam, a: Option<GenericArg>, i: usize) -> Result<Subst, BindError> {
    match a {
        Some(arg) => match (p.kind, arg) {
            (ParamKind::Lifetime, GenericArg::Lifetime(_)) => Ok(Subst { kind: p.kind, from: p.ident, to: arg }),
            (ParamKind::Type, GenericArg::Type(_)) => Ok(Subst { kind: p.kind, from: p.ident, to: arg }),
            (ParamKind::Const, GenericArg::Const(_)) => Ok(Subst { kind: p.kind, from: p.ident, to: arg }),
            _ => Err(BindError::Mismatch { index: i }),
        },
        None => match (p.kind, p.default) {
            (ParamKind::Type, Some(d)) => Ok(Subst { kind: p.kind, from: p.ident, to: GenericArg::Type(d) }),
            (ParamKind::Const, Some(d)) => Ok(Subst { kind: p.kind, from: p.ident, to: GenericArg::Const(d) }),
            _ => Err(BindError::Unbound { index: i }),
        },
    }
}

pub open spec fn arg_at(args: Seq<GenericArg>, i: int) -> Option<GenericArg> {
    if 0 <= i < args.len() {
        Some(args[i])
    } else {
        None
    }
}

/// The bindings of the first `n` trait parameters, or the first error.
pub open spec fn bindings_upto(params: Seq<GenericParam>, args: Seq<GenericArg>, n: int) -> Result<Seq<Subst>, BindError>
    decreases n,
{
    if n <= 0 {
        Ok(Seq::empty())
    } else {
        match bindings_upto(params, args, n - 1) {
            Err(e) => Err(e),
            Ok(s) => match bind_one(params[n - 1], arg_at(args, n - 1), (n - 1) as usize) {
                Err(e) => Err(e),
                Ok(b) => Ok(s.push(b)),
            },
        }
    }
}

pub open spec fn trait_bindings(params: Seq<GenericParam>, args: Seq<GenericArg>) -> Result<Seq<Subst>, BindError> {
    bindings_upto(params, args, params.len() as int)
}

proof fn lemma_bind_error_stays(params: Seq<GenericParam>, args: Seq<GenericArg>, m: int, n: int)
    requires
        0 <= m <= n,
        bindings_upto(params, args, m) is Err,
    ensures
        bindings_upto(params, args, n) == bindings_upto(params, args, m),
    decreases n - m,
{
    if n > m {
        lemma_bind_error_stays(params, args, m, n - 1);
    }
}

fn bind_param(p: &GenericParam, args: &Vec<GenericArg>, i: usize) -> (r: Result<Subst, BindError>)
    ensures
        r == bind_one(*p, arg_at(args@, i as int), i),
{
    if i < args.len() {
        let arg = &args[i];
        match (p.kind, arg) {
            (ParamKind::Lifetime, GenericArg::Lifetime(_)) | (ParamKind::Type, GenericArg::Type(_)) | (
                ParamKind::Const,
                GenericArg::Const(_),
            ) => Ok(Subst { kind: p.kind, from: p.ident.copy(), to: arg.copy() }),
            _ => Err(BindError::Mismatch { index: i }),
        }
    } else {
        match (p.kind, &p.default) {
            (ParamKind::Type, Some(d)) => Ok(Subst { kind: p.kind, from: p.ident.copy(), to: GenericArg::Type(d.copy()) }),
            (ParamKind::Const, Some(d)) => Ok(
                Subst { kind: p.kind, from: p.ident.copy(), to: GenericArg::Const(d.copy()) },
            ),
            _ => Err(BindError::Unbound { index: i }),
        }
    }
}

/// Binds each of the trait's generic parameters to the specification's
/// argument at the same position, or else to the parameter's default.
pub fn bind_trait_generics(params: &Vec<GenericParam>, args: &Vec<GenericArg>) -> (r: Result<Vec<Subst>, BindError>)
    ensures
        match r {
            Ok(v) => trait_bindings(params@, args@) == Ok::<Seq<Subst>, BindError>(v@),
            Err(e) => trait_bindings(params@, args@) == Err::<Seq<Subst>, BindError>(e),
        },
{
    let mut out: Vec<Subst> = Vec::new();
    let mut i: usize = 0;
    while i < params.len()
        invariant
            i <= params.len(),
            bindings_upto(params@, args@, i as int) == Ok::<Seq<Subst>, BindError>(out@),
        decreases params.len() - i,
    {
        match bind_param(&params[i], args, i) {
            Ok(b) => {
                out.push(b);
            },
            Err(e) => {
                proof {
                    lemma_bind_error_stays(params@, args@, i as int + 1, params@.len() as int);
                }
                return Err(e);
            },
        }
        i = i + 1;
    }
    Ok(out)
}

proof fn lemma_bindings_shape(params: Seq<GenericParam>, args: Seq<GenericArg>, n: int)
    requires
        0 <= n <= params.len(),
        bindings_upto(params, args, n) is Ok,
    ensures
        bindings_upto(params, args, n)->Ok_0.len() == n,
        forall|i: int|
            0 <= i < n ==> bind_one(params[i], arg_at(args, i), i as usize) == Ok::<Subst, BindError>(
                #[trigger] bindings_upto(params, args, n)->Ok_0[i],
            ),
    decreases n,
{
    if n > 0 {
        lemma_bindings_shape(params, args, n - 1);
    }
}

proof fn lemma_lookup_term_first(map: Seq<Subst>, i: int, n: NameView)
    requires
        0 <= i < map.len(),
        map[i].kind != ParamKind::Lifetime,
        map[i].from@ == n,
        !(map[i].to is Lifetime),
        forall|j: int| 0 <= j < i ==> (#[trigger] map[j]).from@ != n,
    ensures
        lookup_term(map, n) == Some(
            match map[i].to {
                GenericArg::Type(t) => t,
                GenericArg::Const(t) => t,
                GenericArg::Lifetime(_) => Ty::SelfTy,
            },
        ),
    decreases i,
{
    if i > 0 {
        assert forall|j: int| 0 <= j < i - 1 implies (#[trigger] map.drop_first()[j]).from@ != n by {
            assert(map.drop_first()[j] == map[j + 1]);
        }
        lemma_lookup_term_first(map.drop_first(), i - 1, n);
    }
}

/// When a trait's type parameter is bound by a concrete argument, every
/// occurrence of that parameter in the trait is replaced by the argument: the
/// binding succeeds on every parameter, and a reference to the `i`th
/// parameter becomes the `i`th argument (the parameters' names being
/// distinct, as the language requires).
pub proof fn lemma_bound_param_is_replaced(params: Seq<GenericParam>, args: Seq<GenericArg>, i: int)
    requires
        0 <= i < params.len(),
        i < args.len(),
        params[i].kind == ParamKind::Type,
        args[i] is Type,
        forall|j: int, k: int| 0 <= j < k < params.len() ==> params[j].ident@ != params[k].ident@,
        trait_bindings(params, args) is Ok,
    ensures
        trait_bindings(params, args)->Ok_0.len() == params.len(),
        subst_ty(Ty::Named { path: params[i].ident, args: TyList::Nil }, trait_bindings(params, args)->Ok_0)
            == args[i]->Type_0,
{
    let m = trait_bindings(params, args)->Ok_0;
    lemma_bindings_shape(params, args, params.len() as int);
    assert(bind_one(params[i], arg_at(args, i), i as usize) == Ok::<Subst, BindError>(m[i]));
    assert forall|j: int| 0 <= j < i implies (#[trigger] m[j]).from@ != params[i].ident@ by {
        assert(bind_one(params[j], arg_at(args, j), j as usize) == Ok::<Subst, BindError>(m[j]));
    }
    lemma_lookup_term_first(m, i, params[i].ident@);
}

} // verus!

verus! {

/// Renaming generic parameters is deterministic up to the nonce: with two
/// nonces the generated name of each parameter differs only in its nonce.
pub proof fn lemma_rename_modulo_nonce(params: Seq<GenericParam>, n1: u64, n2: u64)
    ensures
        forall|i: int|
            0 <= i < params.len() ==> {
                let a = fresh_name(#[trigger] params[i], n1);
                let b = fresh_name(params[i], n2);
                crate::syntax::strip_name(a)
                    == crate::syntax::strip_name(b)
            },
{
}

} // verus!

verus! {

/// The type mentions the parameter named `n`: as a lifetime when
/// `lifetime`, else as a type or const parameter (a path of one identifier).
pub open spec fn mentions(t: Ty, lifetime: bool, n: NameView) -> bool
    decreases t,
{
    match t {
        Ty::Named { path, args } => (!lifetime && args is Nil && path@ == n) || list_mentions(args, lifetime, n),
        Ty::Ref { lifetime: l, mutable, elem } => (lifetime && (l matches Some(x) && x@ == n)) || mentions(
            *elem,
            lifetime,
            n,
        ),
        Ty::Tuple(l) => list_mentions(l, lifetime, n),
        Ty::Opaque(x) => text_mentions(x, lifetime, n),
        Ty::Lifetime(x) => lifetime && x@ == n,
        Ty::AssocEq { name, ty } => mentions(*ty, lifetime, n),
        _ => false,
    }
}

pub open spec fn list_mentions(l: TyList, lifetime: bool, n: NameView) -> bool
    decreases l,
{
    match l {
        TyList::Nil => false,
        TyList::Cons(h, t) => mentions(*h, lifetime, n) || list_mentions(*t, lifetime, n),
    }
}

pub open spec fn text_mentions(x: Text, lifetime: bool, n: NameView) -> bool
    decreases x,
{
    match x {
        Text::Last(_) => false,
        Text::Hole { before, hole, rest } => mentions(*hole, lifetime, n) || text_mentions(*rest, lifetime, n),
    }
}

pub open spec fn arg_mentions(a: GenericArg, lifetime: bool, n: NameView) -> bool {
    match a {
        GenericArg::Lifetime(x) => lifetime && x@ == n,
        GenericArg::Type(t) => mentions(t, lifetime, n),
        GenericArg::Const(t) => mentions(t, lifetime, n),
    }
}

/// What a map entry puts in place of its parameter.
pub open spec fn term_of(a: GenericArg) -> Ty {
    match a {
        GenericArg::Type(t) => t,
        GenericArg::Const(t) => t,
        GenericArg::Lifetime(_) => Ty::SelfTy,
    }
}

/// A map fit to bind the parameters `ps`: entry `j` binds `ps[j]` to an
/// argument of the same kind that mentions no parameter of `ps`.
pub open spec fn concrete_binding(m: Seq<Subst>, ps: Seq<GenericParam>) -> bool {
    &&& m.len() == ps.len()
    &&& forall|j: int|
        0 <= j < m.len() ==> (#[trigger] m[j]).from == ps[j].ident && m[j].kind == ps[j].kind && ((m[j].to is Lifetime)
            <==> (ps[j].kind == ParamKind::Lifetime))
    &&& forall|j: int, e: int|
        0 <= j < m.len() && 0 <= e < ps.len() ==> !arg_mentions(
            (#[trigger] m[j]).to,
            (#[trigger] ps[e]).kind == ParamKind::Lifetime,
            ps[e].ident@,
        )
}

proof fn lemma_lookup_term_cases(m: Seq<Subst>, n: NameView)
    ensures
        lookup_term(m, n) matches Some(r) ==> exists|j: int|
            0 <= j < m.len() && !(m[j].to is Lifetime) && #[trigger] term_of(m[j].to) == r,
        (exists|j: int| 0 <= j < m.len() && m[j].kind != ParamKind::Lifetime && m[j].from@ == n && !(m[j].to is Lifetime))
            ==> lookup_term(m, n) is Some,
    decreases m.len(),
{
    if m.len() > 0 {
        lemma_lookup_term_cases(m.drop_first(), n);
        if lookup_term(m, n) is Some && !(m[0].kind != ParamKind::Lifetime && m[0].from@ == n && !(m[0].to is Lifetime)) {
            let r = lookup_term(m, n)->Some_0;
            let j = choose|j: int| 0 <= j < m.drop_first().len() && !(m.drop_first()[j].to is Lifetime) && #[trigger] term_of(m.drop_first()[j].to) == r;
            assert(m.drop_first()[j] == m[j + 1]);
        }
        if lookup_term(m, n) is Some && (m[0].kind != ParamKind::Lifetime && m[0].from@ == n && !(m[0].to is Lifetime)) {
            assert(term_of(m[0].to) == lookup_term(m, n)->Some_0);
        }
        if exists|j: int| 0 <= j < m.len() && m[j].kind != ParamKind::Lifetime && m[j].from@ == n && !(m[j].to is Lifetime) {
            let j = choose|j: int| 0 <= j < m.len() && m[j].kind != ParamKind::Lifetime && m[j].from@ == n && !(m[j].to is Lifetime);
            if j > 0 {
                assert(m.drop_first()[j - 1] == m[j]);
            }
        }
    }
}

proof fn lemma_lookup_lifetime_cases(m: Seq<Subst>, n: NameView)
    ensures
        lookup_lifetime(m, n) matches Some(r) ==> exists|j: int|
            0 <= j < m.len() && #[trigger] m[j].to == GenericArg::Lifetime(r),
        (exists|j: int| 0 <= j < m.len() && m[j].kind == ParamKind::Lifetime && m[j].from@ == n && (m[j].to is Lifetime))
            ==> lookup_lifetime(m, n) is Some,
    decreases m.len(),
{
    if m.len() > 0 {
        lemma_lookup_lifetime_cases(m.drop_first(), n);
        if lookup_lifetime(m, n) is Some && !(m[0].kind == ParamKind::Lifetime && m[0].from@ == n && (m[0].to is Lifetime)) {
            let r = lookup_lifetime(m, n)->Some_0;
            let j = choose|j: int| 0 <= j < m.drop_first().len() && #[trigger] m.drop_first()[j].to == GenericArg::Lifetime(r);
            assert(m.drop_first()[j] == m[j + 1]);
        }
        if lookup_lifetime(m, n) is Some && (m[0].kind == ParamKind::Lifetime && m[0].from@ == n && (m[0].to is Lifetime)) {
            assert(m[0].to == GenericArg::Lifetime(lookup_lifetime(m, n)->Some_0));
        }
        if exists|j: int| 0 <= j < m.len() && m[j].kind == ParamKind::Lifetime && m[j].from@ == n && (m[j].to is Lifetime) {
            let j = choose|j: int| 0 <= j < m.len() && m[j].kind == ParamKind::Lifetime && m[j].from@ == n && (m[j].to is Lifetime);
            if j > 0 {
                assert(m.drop_first()[j - 1] == m[j]);
            }
        }
    }
}

proof fn lemma_subst_no_param(t: Ty, m: Seq<Subst>, ps: Seq<GenericParam>, i: int)
    requires
        concrete_binding(m, ps),
        0 <= i < ps.len(),
    ensures
        !mentions(subst_ty(t, m), ps[i].kind == ParamKind::Lifetime, ps[i].ident@),
    decreases t,
{
    let lt = ps[i].kind == ParamKind::Lifetime;
    let n = ps[i].ident@;
    assert(m[i].from == ps[i].ident && m[i].kind == ps[i].kind && ((m[i].to is Lifetime) <==> lt));
    match t {
        Ty::Named { path, args } => match args {
            TyList::Nil => {
                lemma_lookup_term_cases(m, path@);
                if lookup_term(m, path@) is Some {
                    let r = lookup_term(m, path@)->Some_0;
                    let j = choose|j: int| 0 <= j < m.len() && !(m[j].to is Lifetime) && #[trigger] term_of(m[j].to) == r;
                    assert(!arg_mentions(m[j].to, lt, n));
                    assert(mentions(term_of(m[j].to), lt, n) == arg_mentions(m[j].to, lt, n));
                    assert(subst_ty(t, m) == r);
                } else if !lt && path@ == n {
                    assert(m[i].kind != ParamKind::Lifetime && m[i].from@ == path@ && !(m[i].to is Lifetime));
                    assert(lookup_term(m, path@) is Some);
                } else {
                    assert(!list_mentions(TyList::Nil, lt, n));
                    assert(t == Ty::Named { path, args: TyList::Nil });
                }
            },
            TyList::Cons(_, _) => lemma_list_no_param(args, m, ps, i),
        },
        Ty::Ref { lifetime, mutable, elem } => {
            lemma_subst_no_param(*elem, m, ps, i);
            if let Some(x) = lifetime {
                lemma_lookup_lifetime_cases(m, x@);
                if lookup_lifetime(m, x@) is Some {
                    let r = lookup_lifetime(m, x@)->Some_0;
                    let j = choose|j: int| 0 <= j < m.len() && #[trigger] m[j].to == GenericArg::Lifetime(r);
                    assert(!arg_mentions(m[j].to, lt, n));
                } else if lt && x@ == n {
                    assert(m[i].kind == ParamKind::Lifetime && m[i].from@ == x@ && (m[i].to is Lifetime));
                }
            }
        },
        Ty::Tuple(l) => lemma_list_no_param(l, m, ps, i),
        Ty::Opaque(x) => lemma_text_no_param(x, m, ps, i),
        Ty::Lifetime(x) => {
            lemma_lookup_lifetime_cases(m, x@);
            if lookup_lifetime(m, x@) is Some {
                let r = lookup_lifetime(m, x@)->Some_0;
                let j = choose|j: int| 0 <= j < m.len() && #[trigger] m[j].to == GenericArg::Lifetime(r);
                assert(!arg_mentions(m[j].to, lt, n));
            } else if lt && x@ == n {
                assert(m[i].kind == ParamKind::Lifetime && m[i].from@ == x@ && (m[i].to is Lifetime));
            }
        },
        Ty::AssocEq { name, ty } => lemma_subst_no_param(*ty, m, ps, i),
        _ => {},
    }
}

proof fn lemma_list_no_param(l: TyList, m: Seq<Subst>, ps: Seq<GenericParam>, i: int)
    requires
        concrete_binding(m, ps),
        0 <= i < ps.len(),
    ensures
        !list_mentions(subst_list(l, m), ps[i].kind == ParamKind::Lifetime, ps[i].ident@),
    decreases l,
{
    match l {
        TyList::Nil => {},
        TyList::Cons(h, t) => {
            lemma_subst_no_param(*h, m, ps, i);
            lemma_list_no_param(*t, m, ps, i);
        },
    }
}

proof fn lemma_text_no_param(x: Text, m: Seq<Subst>, ps: Seq<GenericParam>, i: int)
    requires
        concrete_binding(m, ps),
        0 <= i < ps.len(),
    ensures
        !text_mentions(subst_text(x, m), ps[i].kind == ParamKind::Lifetime, ps[i].ident@),
    decreases x,
{
    match x {
        Text::Last(_) => {},
        Text::Hole { before, hole, rest } => {
            lemma_subst_no_param(*hole, m, ps, i);
            lemma_text_no_param(*rest, m, ps, i);
        },
    }
}

/// Binding a trait's parameters to concrete arguments leaves none of them
/// anywhere: when every parameter is bound (by position or default) and no
/// argument names a parameter of the trait, the substituted type mentions no
/// trait parameter, whether in a path, a reference, a lifetime or const
/// argument, an associated type binding, or a form kept as text (an array,
/// a slice, a function pointer, `T::Assoc`).
pub proof fn lemma_binding_leaves_no_parameter(params: Seq<GenericParam>, args: Seq<GenericArg>, t: Ty, i: int)
    requires
        trait_bindings(params, args) is Ok,
        0 <= i < params.len(),
        forall|j: int, e: int|
            0 <= j < trait_bindings(params, args)->Ok_0.len() && 0 <= e < params.len() ==> !arg_mentions(
                (#[trigger] trait_bindings(params, args)->Ok_0[j]).to,
                (#[trigger] params[e]).kind == ParamKind::Lifetime,
                params[e].ident@,
            ),
    ensures
        !mentions(
            subst_ty(t, trait_bindings(params, args)->Ok_0),
            params[i].kind == ParamKind::Lifetime,
            params[i].ident@,
        ),
{
    let m = trait_bindings(params, args)->Ok_0;
    lemma_bindings_shape(params, args, params.len() as int);
    assert forall|j: int| 0 <= j < m.len() implies (#[trigger] m[j]).from == params[j].ident && m[j].kind
        == params[j].kind && ((m[j].to is Lifetime) <==> (params[j].kind == ParamKind::Lifetime)) by {
        assert(bind_one(params[j], arg_at(args, j), j as usize) == Ok::<Subst, BindError>(m[j]));
    }
    lemma_subst_no_param(t, m, params, i);
}

} // verus!

//! Assembling the forwarded implementation of a whole trait for a container.
use crate::emit::{
    emit_trait_fn, emitted_fn, fn_matches, EmitError, ImplFn, ImplFnSpec, Shape, TraitDef, TraitFn, TraitItem, Variant,
};
use crate::generics::{
    filter_generics, visible, bind_trait_generics, subst_params, substitute_params, substitute_list, subst_list,
    rename_entry, lookup_lifetime, merge_generic_params, merged, rename_params, renamed_param, subst_ty,
    substitute_ty, trait_bindings, BindError, Subst,
};
use crate::leak::{fn_scope, route_ty, routed_ty, ty_eq, ty_same};
use crate::model::{parts_of, GenericArg, GenericParam, Implementor, ImplementorParts, ParamKind};
use crate::params::FnArg;
use crate::predicate::{find_pred_field, predicate_of, Field};
use crate::syntax::{FreshKind, Name, Text, Ty, TyList};
use vstd::prelude::*;

verus! {

/// The container a trait is forwarded to: its name, generics, the
/// predicates of its where-clause, and its shape.
#[derive(Debug, PartialEq, Eq)]
pub struct Container {
    pub ident: String,
    pub generics: Vec<GenericParam>,
    pub where_preds: TyList,
    pub shape: Shape,
}

/// Everything one forwarding directive needs: the specification, the
/// container, the registered trait with its leak table, and the nonce of the
/// registration.
#[derive(Debug, PartialEq, Eq)]
pub struct Input {
    pub implementor: Implementor,
    pub adt: Container,
    pub trait_def: TraitDef,
    pub alternative: Option<String>,
    pub table: Vec<Ty>,
    pub registration: u64,
}

/// The value of an associated type in the implementation: the predicate
/// type's own (`<P as Trait>::X`), or a fresh generic parameter bound by a
/// where-clause (for an enum).
#[derive(Debug, PartialEq, Eq)]
pub enum AssocValue {
    Forward,
    Param(Name),
}

/// One member of the generated implementation. An associated type keeps
/// the trait's generics and where-clause: `type A<g> = value where w;`,
/// with `<P as Trait>::A<g>` as the forwarded value.
#[derive(Debug, PartialEq, Eq)]
pub enum ItemOut {
    Fn(ImplFn),
    Type { ident: String, generics: Vec<GenericParam>, where_preds: TyList, value: AssocValue },
    Const { ident: String, ty: Ty },
}

/// A predicate of the generated where-clause: one written by the user, or
/// `bounded: bound`.
#[derive(Debug, PartialEq, Eq)]
pub enum WherePred {
    Written(Ty),
    Bound { bounded: Ty, bound: Ty },
}

/// The generated implementation: its generic parameters, the trait's
/// arguments, the predicate types (one for a struct, one per variant for an
/// enum), the associated types bound through a supertrait (each bound to
/// a fresh parameter at the end of the generics), the where-clause, the
/// empty `unsafe impl` of the specification's trait when an alternative
/// trait is implemented (its trait path), and the members, in the trait's
/// order.
#[derive(Debug, PartialEq, Eq)]
pub struct ImplOutput {
    pub generics: Vec<GenericParam>,
    pub implicit_assoc: Vec<String>,
    pub trait_args: Vec<GenericArg>,
    pub pred_tys: Vec<Ty>,
    pub where_preds: Vec<WherePred>,
    pub spec_impl: Option<Ty>,
    pub items: Vec<ItemOut>,
}

/// Why no implementation could be generated.
#[derive(Clone, Copy, Debug, PartialEq, Eq, Structural)]
pub enum ImplError {
    /// The trait's generics could not be bound to the specification's arguments.
    Bind(BindError),
    /// No predicate field (struct), or none for a variant (enum).
    Predicate(EmitError),
    /// The trait member at this position could not be forwarded.
    Emit { item: usize, err: EmitError },
}

pub open spec fn subst_arg(a: GenericArg, m: Seq<Subst>) -> GenericArg {
    match a {
        GenericArg::Lifetime(n) => GenericArg::Lifetime(
            match lookup_lifetime(m, n@) {
                Some(x) => x,
                None => n,
            },
        ),
        GenericArg::Type(t) => GenericArg::Type(subst_ty(t, m)),
        GenericArg::Const(t) => GenericArg::Const(subst_ty(t, m)),
    }
}

pub open spec fn subst_args(s: Seq<GenericArg>, m: Seq<Subst>) -> Seq<GenericArg> {
    s.map_values(|a: GenericArg| subst_arg(a, m))
}

fn substitute_args(s: &Vec<GenericArg>, m: &Vec<Subst>) -> (r: Vec<GenericArg>)
    ensures
        r@ == subst_args(s@, m@),
{
    let mut out: Vec<GenericArg> = Vec::new();
    let mut i: usize = 0;
    while i < s.len()
        invariant
            i <= s.len(),
            out@ == s@.subrange(0, i as int).map_values(|a: GenericArg| subst_arg(a, m@)),
        decreases s.len() - i,
    {
        let a = match &s[i] {
            GenericArg::Lifetime(n) => {
                let t = substitute_ty(
                    &Ty::Ref { lifetime: Some(n.copy()), mutable: false, elem: Box::new(Ty::SelfTy) },
                    m,
                );
                match t {
                    Ty::Ref { lifetime: Some(x), .. } => GenericArg::Lifetime(x),
                    _ => GenericArg::Lifetime(n.copy()),
                }
            },
            GenericArg::Type(t) => GenericArg::Type(substitute_ty(t, m)),
            GenericArg::Const(t) => GenericArg::Const(substitute_ty(t, m)),
        };
        out.push(a);
        i = i + 1;
        proof {
            assert(out@ =~= s@.subrange(0, i as int).map_values(|a: GenericArg| subst_arg(a, m@)));
        }
    }
    proof {
        assert(s@.subrange(0, s@.len() as int) =~= s@);
    }
    out
}

/// The specification's arguments for the trait, after both renamings.
pub open spec fn spec_args(input: Input, nonce: u64) -> Seq<GenericArg> {
    match input.implementor.args {
        Some(a) => subst_args(
            subst_args(a@, input.implementor.generics@.map_values(|p: GenericParam| crate::generics::rename_entry(p, nonce))),
            input.adt.generics@.map_values(|p: GenericParam| crate::generics::rename_entry(p, nonce_of_adt(nonce))),
        ),
        None => Seq::empty(),
    }
}

/// The container's parameters are renamed with the next nonce, so that they
/// stay apart from the specification's.
pub open spec fn nonce_of_adt(nonce: u64) -> u64 {
    if nonce == u64::MAX {
        0
    } else {
        (nonce + 1) as u64
    }
}

/// The predicate types of the first `n` variants, or the first variant
/// without a predicate.
pub open spec fn variant_tys(implr: Seq<char>, variants: Seq<Variant>, n: int, m: Seq<Subst>) -> Result<Seq<Ty>, EmitError>
    decreases n,
{
    if n <= 0 {
        Ok(Seq::empty())
    } else {
        match variant_tys(implr, variants, n - 1, m) {
            Err(e) => Err(e),
            Ok(s) => match predicate_of(implr, variants[n - 1].fields@) {
                Err(e) => Err(EmitError::Predicate { variant: Some((n - 1) as usize), err: e }),
                Ok(f) => Ok(s.push(subst_ty(variants[n - 1].fields@[f as int].ty, m))),
            },
        }
    }
}

/// The predicate types of the container, with the container's renaming applied.
pub open spec fn pred_types(implr: Seq<char>, shape: Shape, m: Seq<Subst>) -> Result<Seq<Ty>, EmitError> {
    match shape {
        Shape::Struct { named, fields } => match predicate_of(implr, fields@) {
            Err(e) => Err(EmitError::Predicate { variant: None, err: e }),
            Ok(f) => Ok(seq![subst_ty(fields@[f as int].ty, m)]),
        },
        Shape::Enum { variants } => variant_tys(implr, variants@, variants@.len() as int, m),
    }
}

proof fn lemma_variant_error_stays(implr: Seq<char>, variants: Seq<Variant>, a: int, b: int, m: Seq<Subst>)
    requires
        0 <= a <= b,
        variant_tys(implr, variants, a, m) is Err,
    ensures
        variant_tys(implr, variants, b, m) == variant_tys(implr, variants, a, m),
    decreases b - a,
{
    if b > a {
        lemma_variant_error_stays(implr, variants, a, b - 1, m);
    }
}

#[verifier::loop_isolation(false)]
fn predicate_types(implr: &Implementor, shape: &Shape, m: &Vec<Subst>) -> (r: Result<Vec<Ty>, EmitError>)
    ensures
        match r {
            Ok(v) => pred_types(implr@, *shape, m@) == Ok::<Seq<Ty>, EmitError>(v@),
            Err(e) => pred_types(implr@, *shape, m@) == Err::<Seq<Ty>, EmitError>(e),
        },
{
    match shape {
        Shape::Struct { fields, .. } => match find_pred_field(implr, fields) {
            Err(e) => Err(EmitError::Predicate { variant: None, err: e }),
            Ok(f) => {
                let mut v: Vec<Ty> = Vec::new();
                v.push(substitute_ty(&fields[f].ty, m));
                proof {
                    assert(v@ =~= seq![subst_ty(fields@[f as int].ty, m@)]);
                }
                Ok(v)
            },
        },
        Shape::Enum { variants } => {
            let mut out: Vec<Ty> = Vec::new();
            let mut k: usize = 0;
            while k < variants.len()
                invariant
                    k <= variants.len(),
                    variant_tys(implr@, variants@, k as int, m@) == Ok::<Seq<Ty>, EmitError>(out@),
                decreases variants.len() - k,
            {
                match find_pred_field(implr, &variants[k].fields) {
                    Err(e) => {
                        proof {
                            lemma_variant_error_stays(implr@, variants@, k as int + 1, variants@.len() as int, m@);
                        }
                        return Err(EmitError::Predicate { variant: Some(k), err: e });
                    },
                    Ok(f) => {
                        out.push(substitute_ty(&variants[k].fields[f].ty, m));
                    },
                }
                k = k + 1;
            }
            Ok(out)
        },
    }
}

/// A trait type after binding the trait's generics and routing its leaked
/// types through the registration's repeater.
pub open spec fn prepared_ty(t: Ty, bind: Seq<Subst>, table: Seq<Ty>, params: Seq<GenericParam>, reg: u64) -> Ty {
    routed_ty(subst_ty(t, bind), table, params, reg)
}

pub open spec fn prepared_arg(a: FnArg, bind: Seq<Subst>, table: Seq<Ty>, params: Seq<GenericParam>, reg: u64) -> FnArg {
    match a {
        FnArg::Receiver { .. } => a,
        FnArg::Typed { pat, ty } => FnArg::Typed { pat, ty: prepared_ty(ty, bind, table, params, reg) },
    }
}

pub open spec fn prepared_inputs(
    s: Seq<FnArg>,
    bind: Seq<Subst>,
    table: Seq<Ty>,
    params: Seq<GenericParam>,
    reg: u64,
) -> Seq<FnArg> {
    s.map_values(|a: FnArg| prepared_arg(a, bind, table, params, reg))
}

pub open spec fn prepared_output(
    o: Option<Ty>,
    bind: Seq<Subst>,
    table: Seq<Ty>,
    params: Seq<GenericParam>,
    reg: u64,
) -> Option<Ty> {
    match o {
        Some(t) => Some(prepared_ty(t, bind, table, params, reg)),
        None => None,
    }
}

fn prepare_ty(t: &Ty, bind: &Vec<Subst>, table: &Vec<Ty>, params: &Vec<GenericParam>, reg: u64) -> (r: Ty)
    ensures
        r == prepared_ty(*t, bind@, table@, params@, reg),
{
    route_ty(&substitute_ty(t, bind), table, params, reg)
}

fn prepare_fn(f: &TraitFn, bind: &Vec<Subst>, table: &Vec<Ty>, params: &Vec<GenericParam>, reg: u64) -> (r: TraitFn)
    ensures
        r.ident@ == f.ident@,
        r.generics@ == subst_params(f.generics@, bind@),
        r.inputs@ == prepared_inputs(f.inputs@, bind@, table@, params@, reg),
        r.output == prepared_output(f.output, bind@, table@, params@, reg),
{
    let mut inputs: Vec<FnArg> = Vec::new();
    let mut i: usize = 0;
    while i < f.inputs.len()
        invariant
            i <= f.inputs.len(),
            inputs@ == f.inputs@.subrange(0, i as int).map_values(
                |a: FnArg| prepared_arg(a, bind@, table@, params@, reg),
            ),
        decreases f.inputs.len() - i,
    {
        let a = match &f.inputs[i] {
            FnArg::Receiver { reference, mutable } => FnArg::Receiver { reference: *reference, mutable: *mutable },
            FnArg::Typed { pat, ty } => FnArg::Typed { pat: pat.copy(), ty: prepare_ty(ty, bind, table, params, reg) },
        };
        inputs.push(a);
        i = i + 1;
        proof {
            assert(inputs@ =~= f.inputs@.subrange(0, i as int).map_values(
                |a: FnArg| prepared_arg(a, bind@, table@, params@, reg),
            ));
        }
    }
    proof {
        assert(f.inputs@.subrange(0, f.inputs@.len() as int) =~= f.inputs@);
    }
    let output = match &f.output {
        Some(t) => Some(prepare_ty(t, bind, table, params, reg)),
        None => None,
    };
    TraitFn { ident: f.ident.clone(), generics: substitute_params(&f.generics, bind), inputs, output }
}

/// The trait's bindings as seen inside a method: those that the method's
/// own generics hide are dropped.
pub open spec fn fn_bind(bind: Seq<Subst>, f: TraitFn) -> Seq<Subst> {
    visible(bind, f.generics@)
}

/// What a trait member becomes.
pub ghost enum ItemSpec {
    Fn(ImplFnSpec),
    TypeForward,
    TypeParam(Name),
    Const,
}

/// The generic parameter that stands for an associated type of an enum.
pub open spec fn assoc_param_name(ident: String, nonce: u64) -> Name {
    Name::Fresh { kind: FreshKind::AssocParam, base: Some(ident), nonce, n: 0 }
}

/// What the member becomes: when the predicate types name one type,
/// associated types and consts are taken from it; otherwise an associated
/// type without generics gets a fresh parameter and the rest cannot be
/// forwarded.
pub open spec fn item_spec(
    item: TraitItem,
    implr: Seq<char>,
    shape: Shape,
    single: bool,
    bind: Seq<Subst>,
    table: Seq<Ty>,
    params: Seq<GenericParam>,
    reg: u64,
    nonce: u64,
) -> Result<ItemSpec, EmitError> {
    match item {
        TraitItem::Fn(f) => match emitted_fn(
            implr,
            shape,
            prepared_inputs(f.inputs@, fn_bind(bind, f), table, params + f.generics@, reg),
            prepared_output(f.output, fn_bind(bind, f), table, params + f.generics@, reg),
            nonce,
        ) {
            Ok(s) => Ok(ItemSpec::Fn(s)),
            Err(e) => Err(e),
        },
        TraitItem::Type { ident, generics, where_preds } => if single {
            Ok(ItemSpec::TypeForward)
        } else if generics@.len() == 0 && where_preds is Nil {
            Ok(ItemSpec::TypeParam(assoc_param_name(ident, nonce)))
        } else {
            Err(EmitError::EnumAssoc)
        },
        TraitItem::Const { .. } => if single {
            Ok(ItemSpec::Const)
        } else {
            Err(EmitError::EnumAssoc)
        },
        TraitItem::Other => Err(EmitError::UnsupportedItem),
    }
}

/// The generated member agrees with what the trait member becomes.
pub open spec fn item_matches(
    out: ItemOut,
    item: TraitItem,
    s: ItemSpec,
    bind: Seq<Subst>,
    table: Seq<Ty>,
    params: Seq<GenericParam>,
    reg: u64,
) -> bool {
    match (out, item, s) {
        (ItemOut::Fn(g), TraitItem::Fn(f), ItemSpec::Fn(fs)) => fn_matches(
            g,
            fs,
            f.ident@,
            subst_params(f.generics@, fn_bind(bind, f)),
            prepared_output(f.output, fn_bind(bind, f), table, params + f.generics@, reg),
        ),
        (
            ItemOut::Type { ident, generics, where_preds, value },
            TraitItem::Type { ident: i2, generics: g2, where_preds: w2 },
            ItemSpec::TypeForward,
        ) => ident@ == i2@ && generics@ == subst_params(g2@, bind) && where_preds == subst_list(w2, bind)
            && value is Forward,
        (
            ItemOut::Type { ident, generics, where_preds, value },
            TraitItem::Type { ident: i2, generics: g2, where_preds: w2 },
            ItemSpec::TypeParam(n),
        ) => ident@ == i2@ && generics@ == subst_params(g2@, bind) && where_preds == subst_list(w2, bind) && value
            == AssocValue::Param(n),
        (ItemOut::Const { ident, ty }, TraitItem::Const { ident: i2, ty: t2 }, ItemSpec::Const) => ident@ == i2@ && ty
            == prepared_ty(t2, bind, table, params, reg),
        _ => false,
    }
}

/// The fresh parameters that the first `n` members add to the generics.
pub open spec fn assoc_params(items: Seq<TraitItem>, n: int, single: bool, nonce: u64) -> Seq<GenericParam>
    decreases n,
{
    if n <= 0 {
        Seq::empty()
    } else {
        let prev = assoc_params(items, n - 1, single, nonce);
        match items[n - 1] {
            TraitItem::Type { ident, generics, where_preds } => if !single && generics@.len() == 0 && where_preds is Nil {
                prev.push(GenericParam { kind: ParamKind::Type, ident: assoc_param_name(ident, nonce), bounds: TyList::Nil, default: None })
            } else {
                prev
            },
            _ => prev,
        }
    }
}

/// The bindings `X = param` of the enum's associated types among the first
/// `n` members, one per parameter of `assoc_params`.
pub open spec fn assoc_eqs(items: Seq<TraitItem>, n: int, single: bool, nonce: u64) -> Seq<Ty>
    decreases n,
{
    if n <= 0 {
        Seq::empty()
    } else {
        let prev = assoc_eqs(items, n - 1, single, nonce);
        match items[n - 1] {
            TraitItem::Type { ident, generics, where_preds } => if !single && generics@.len() == 0 && where_preds is Nil {
                prev.push(
                    Ty::AssocEq {
                        name: ident,
                        ty: Box::new(Ty::Named { path: assoc_param_name(ident, nonce), args: TyList::Nil }),
                    },
                )
            } else {
                prev
            },
            _ => prev,
        }
    }
}

/// The bindings `X = param` of the inherited associated types.
pub open spec fn implicit_eqs(names: Seq<String>, nonce: u64) -> Seq<Ty> {
    Seq::new(
        names.len(),
        |k: int|
            Ty::AssocEq {
                name: names[k],
                ty: Box::new(
                    Ty::Named {
                        path: Name::Fresh { kind: FreshKind::ImplicitAssoc, base: Some(names[k]), nonce, n: k as u64 },
                        args: TyList::Nil,
                    },
                ),
            },
    )
}

/// The types of a list, in order.
pub open spec fn list_seq(l: TyList) -> Seq<Ty>
    decreases l,
{
    match l {
        TyList::Nil => Seq::empty(),
        TyList::Cons(h, t) => seq![*h] + list_seq(*t),
    }
}

/// The list of the types of `s`, followed by `tail`.
pub open spec fn seq_onto(s: Seq<Ty>, tail: TyList) -> TyList
    decreases s.len(),
{
    if s.len() == 0 {
        tail
    } else {
        seq_onto(s.drop_last(), TyList::Cons(Box::new(s.last()), Box::new(tail)))
    }
}

pub open spec fn seq_list(s: Seq<Ty>) -> TyList {
    seq_onto(s, TyList::Nil)
}

/// A generic argument as a term among generic arguments.
pub open spec fn arg_term(a: GenericArg) -> Ty {
    match a {
        GenericArg::Lifetime(n) => Ty::Lifetime(n),
        GenericArg::Type(t) => t,
        GenericArg::Const(t) => t,
    }
}

/// A bound with `extra` appended to the arguments of its last segment; a
/// bound that is no path is left as it is.
pub open spec fn with_eqs(st: Ty, extra: Seq<Ty>) -> Ty {
    match st {
        Ty::Named { path, args } => Ty::Named { path, args: seq_list(list_seq(args) + extra) },
        _ => st,
    }
}

/// The path of the trait that is implemented: the alternative if given.
pub open spec fn trait_name(input: Input) -> String {
    match input.alternative {
        Some(a) => a,
        None => input.implementor.path,
    }
}

pub open spec fn written(l: TyList) -> Seq<WherePred> {
    list_seq(l).map_values(|t: Ty| WherePred::Written(t))
}

pub open spec fn super_bounds(l: TyList, bind: Seq<Subst>, extra: Seq<Ty>) -> Seq<WherePred> {
    list_seq(l).map_values(|t: Ty| WherePred::Bound { bounded: Ty::SelfTy, bound: with_eqs(subst_ty(t, bind), extra) })
}

pub open spec fn pred_bounds(tys: Seq<Ty>, bound: Ty) -> Seq<WherePred> {
    tys.map_values(|t: Ty| WherePred::Bound { bounded: t, bound })
}

fn push_written(out: &mut Vec<WherePred>, l: &TyList)
    ensures
        final(out)@ == old(out)@ + written(*l),
    decreases l,
{
    match l {
        TyList::Nil => {
            assert(written(*l) =~= Seq::<WherePred>::empty());
        },
        TyList::Cons(h, t) => {
            let ghost before = out@;
            out.push(WherePred::Written((**h).copy()));
            push_written(out, t);
            assert(written(*l) =~= seq![WherePred::Written(**h)] + written(**t));
            assert(out@ =~= before + written(*l));
        },
    }
}

fn push_supers(out: &mut Vec<WherePred>, l: &TyList, bind: &Vec<Subst>, extra: &Vec<Ty>)
    ensures
        final(out)@ == old(out)@ + super_bounds(*l, bind@, extra@),
    decreases l,
{
    match l {
        TyList::Nil => {
            assert(super_bounds(*l, bind@, extra@) =~= Seq::<WherePred>::empty());
        },
        TyList::Cons(h, t) => {
            let ghost before = out@;
            let b = make_with_eqs(&substitute_ty(h, bind), extra);
            out.push(WherePred::Bound { bounded: Ty::SelfTy, bound: b });
            push_supers(out, t, bind, extra);
            assert(super_bounds(*l, bind@, extra@) =~= seq![
                WherePred::Bound { bounded: Ty::SelfTy, bound: with_eqs(subst_ty(**h, bind@), extra@) },
            ] + super_bounds(**t, bind@, extra@));
            assert(out@ =~= before + super_bounds(*l, bind@, extra@));
        },
    }
}

fn append_list_items(out: &mut Vec<Ty>, l: &TyList)
    ensures
        final(out)@ == old(out)@ + list_seq(*l),
    decreases l,
{
    match l {
        TyList::Nil => {
            assert(old(out)@ + list_seq(*l) =~= old(out)@);
        },
        TyList::Cons(h, t) => {
            let ghost before = out@;
            out.push((**h).copy());
            append_list_items(out, t);
            assert(out@ =~= before + list_seq(*l));
        },
    }
}

fn vec_to_list(v: Vec<Ty>) -> (r: TyList)
    ensures
        r == seq_list(v@),
{
    let mut v = v;
    let ghost orig = v@;
    let mut l = TyList::Nil;
    while v.len() > 0
        invariant
            seq_list(orig) == seq_onto(v@, l),
        decreases v.len(),
    {
        let ghost before = v@;
        let x = v.pop().unwrap();
        proof {
            assert(before.drop_last() =~= v@);
        }
        l = TyList::Cons(Box::new(x), Box::new(l));
    }
    l
}

fn make_with_eqs(st: &Ty, extra: &Vec<Ty>) -> (r: Ty)
    ensures
        r == with_eqs(*st, extra@),
{
    match st {
        Ty::Named { path, args } => {
            let mut all: Vec<Ty> = Vec::new();
            append_list_items(&mut all, args);
            let mut k: usize = 0;
            let ghost start = all@;
            while k < extra.len()
                invariant
                    k <= extra.len(),
                    all@ == start + extra@.subrange(0, k as int),
                decreases extra.len() - k,
            {
                all.push(extra[k].copy());
                k = k + 1;
                proof {
                    assert(all@ =~= start + extra@.subrange(0, k as int));
                }
            }
            proof {
                assert(extra@.subrange(0, extra@.len() as int) =~= extra@);
                assert(start =~= list_seq(*args));
            }
            Ty::Named { path: path.copy(), args: vec_to_list(all) }
        },
        _ => st.copy(),
    }
}

fn append_tys(out: &mut Vec<Ty>, more: &Vec<Ty>)
    ensures
        final(out)@ == old(out)@ + more@,
{
    let mut k: usize = 0;
    let ghost start = out@;
    while k < more.len()
        invariant
            k <= more.len(),
            out@ == start + more@.subrange(0, k as int),
        decreases more.len() - k,
    {
        out.push(more[k].copy());
        k = k + 1;
        proof {
            assert(out@ =~= start + more@.subrange(0, k as int));
        }
    }
    proof {
        assert(more@.subrange(0, more@.len() as int) =~= more@);
    }
}

/// The trait declares an associated type of this name.
pub open spec fn declares_type(items: Seq<TraitItem>, x: Seq<char>) -> bool {
    exists|i: int| 0 <= i < items.len() && (#[trigger] items[i] matches TraitItem::Type { ident, .. } && ident@ == x)
}

/// The names found so far, with `x` added unless it is there or declared by
/// the trait itself.
pub open spec fn add_implicit(acc: Seq<Seq<char>>, x: Seq<char>, items: Seq<TraitItem>) -> Seq<Seq<char>> {
    if acc.contains(x) || declares_type(items, x) {
        acc
    } else {
        acc.push(x)
    }
}

/// The names after visiting `t`: each `Self::X` whose `X` the trait does
/// not declare.
pub open spec fn implicit_in_ty(acc: Seq<Seq<char>>, t: Ty, items: Seq<TraitItem>) -> Seq<Seq<char>>
    decreases t,
{
    match t {
        Ty::SelfAssoc(x) => add_implicit(acc, x@, items),
        Ty::Named { path, args } => implicit_in_list(acc, args, items),
        Ty::Ref { lifetime, mutable, elem } => implicit_in_ty(acc, *elem, items),
        Ty::Tuple(l) => implicit_in_list(acc, l, items),
        Ty::Opaque(x) => implicit_in_text(acc, x, items),
        Ty::AssocEq { name, ty } => implicit_in_ty(acc, *ty, items),
        _ => acc,
    }
}

pub open spec fn implicit_in_text(acc: Seq<Seq<char>>, x: Text, items: Seq<TraitItem>) -> Seq<Seq<char>>
    decreases x,
{
    match x {
        Text::Last(_) => acc,
        Text::Hole { before, hole, rest } => implicit_in_text(implicit_in_ty(acc, *hole, items), *rest, items),
    }
}

pub open spec fn implicit_in_list(acc: Seq<Seq<char>>, l: TyList, items: Seq<TraitItem>) -> Seq<Seq<char>>
    decreases l,
{
    match l {
        TyList::Nil => acc,
        TyList::Cons(h, t) => implicit_in_list(implicit_in_ty(acc, *h, items), *t, items),
    }
}

pub open spec fn implicit_in_inputs(acc: Seq<Seq<char>>, inputs: Seq<FnArg>, n: int, items: Seq<TraitItem>) -> Seq<Seq<char>>
    decreases n,
{
    if n <= 0 {
        acc
    } else {
        let prev = implicit_in_inputs(acc, inputs, n - 1, items);
        match inputs[n - 1] {
            FnArg::Receiver { .. } => prev,
            FnArg::Typed { pat, ty } => implicit_in_ty(prev, ty, items),
        }
    }
}

pub open spec fn implicit_in_items(n: int, items: Seq<TraitItem>) -> Seq<Seq<char>>
    decreases n,
{
    if n <= 0 {
        Seq::empty()
    } else {
        let prev = implicit_in_items(n - 1, items);
        match items[n - 1] {
            TraitItem::Fn(f) => {
                let after = implicit_in_inputs(prev, f.inputs@, f.inputs@.len() as int, items);
                match f.output {
                    Some(t) => implicit_in_ty(after, t, items),
                    None => after,
                }
            },
            TraitItem::Const { ident, ty } => implicit_in_ty(prev, ty, items),
            _ => prev,
        }
    }
}

/// The associated types that the trait's signatures name as `Self::X`
/// without declaring them (they come from a supertrait), each once, in
/// order of first occurrence.
pub open spec fn implicit_assoc_names(tr: TraitDef) -> Seq<Seq<char>> {
    implicit_in_items(tr.items@.len() as int, tr.items@)
}

pub open spec fn strings(s: Seq<String>) -> Seq<Seq<char>> {
    s.map_values(|x: String| x@)
}

fn check_declares(items: &Vec<TraitItem>, x: &String) -> (r: bool)
    ensures
        r == declares_type(items@, x@),
{
    let mut i: usize = 0;
    while i < items.len()
        invariant
            i <= items.len(),
            forall|j: int| 0 <= j < i ==> !(#[trigger] items@[j] matches TraitItem::Type { ident, .. } && ident@ == x@),
        decreases items.len() - i,
    {
        match &items[i] {
            TraitItem::Type { ident, .. } => {
                if *ident == *x {
                    return true;
                }
            },
            _ => {},
        }
        i = i + 1;
    }
    false
}

fn push_implicit(acc: &mut Vec<String>, x: &String, items: &Vec<TraitItem>)
    ensures
        strings(final(acc)@) == add_implicit(strings(old(acc)@), x@, items@),
{
    let mut j: usize = 0;
    while j < acc.len()
        invariant
            j <= acc.len(),
            forall|k: int| 0 <= k < j ==> (#[trigger] acc@[k])@ != x@,
        decreases acc.len() - j,
    {
        if acc[j] == *x {
            proof {
                assert(strings(acc@)[j as int] == x@);
            }
            return;
        }
        j = j + 1;
    }
    proof {
        assert(!strings(acc@).contains(x@)) by {
            if strings(acc@).contains(x@) {
                let k = choose|k: int| 0 <= k < strings(acc@).len() && strings(acc@)[k] == x@;
                assert(acc@[k]@ == x@);
            }
        }
    }
    if check_declares(items, x) {
        return;
    }
    let ghost prev = acc@;
    acc.push(x.clone());
    proof {
        assert(strings(acc@) =~= strings(prev).push(x@));
    }
}

fn implicit_ty(acc: &mut Vec<String>, t: &Ty, items: &Vec<TraitItem>)
    ensures
        strings(final(acc)@) == implicit_in_ty(strings(old(acc)@), *t, items@),
    decreases t,
{
    match t {
        Ty::SelfAssoc(x) => push_implicit(acc, x, items),
        Ty::Named { args, .. } => implicit_list(acc, args, items),
        Ty::Ref { elem, .. } => implicit_ty(acc, elem, items),
        Ty::Tuple(l) => implicit_list(acc, l, items),
        Ty::Opaque(x) => implicit_text(acc, x, items),
        Ty::AssocEq { ty, .. } => implicit_ty(acc, ty, items),
        _ => {},
    }
}

fn implicit_text(acc: &mut Vec<String>, x: &Text, items: &Vec<TraitItem>)
    ensures
        strings(final(acc)@) == implicit_in_text(strings(old(acc)@), *x, items@),
    decreases x,
{
    match x {
        Text::Last(_) => {},
        Text::Hole { hole, rest, .. } => {
            implicit_ty(acc, hole, items);
            implicit_text(acc, rest, items);
        },
    }
}

fn implicit_list(acc: &mut Vec<String>, l: &TyList, items: &Vec<TraitItem>)
    ensures
        strings(final(acc)@) == implicit_in_list(strings(old(acc)@), *l, items@),
    decreases l,
{
    match l {
        TyList::Nil => {},
        TyList::Cons(h, t) => {
            implicit_ty(acc, h, items);
            implicit_list(acc, t, items);
        },
    }
}

/// Finds the associated types named but not declared by the trait; see
/// `implicit_assoc_names`.
pub fn implicit_assoc_tys(tr: &TraitDef) -> (r: Vec<String>)
    ensures
        strings(r@) == implicit_assoc_names(*tr),
{
    let items = &tr.items;
    let mut acc: Vec<String> = Vec::new();
    proof {
        assert(strings(acc@) =~= Seq::<Seq<char>>::empty());
    }
    let mut i: usize = 0;
    while i < items.len()
        invariant
            i <= items.len(),
            items == &tr.items,
            strings(acc@) == implicit_in_items(i as int, items@),
        decreases items.len() - i,
    {
        match &items[i] {
            TraitItem::Fn(f) => {
                let ghost start = strings(acc@);
                let mut k: usize = 0;
                while k < f.inputs.len()
                    invariant
                        k <= f.inputs.len(),
                        strings(acc@) == implicit_in_inputs(start, f.inputs@, k as int, items@),
                    decreases f.inputs.len() - k,
                {
                    match &f.inputs[k] {
                        FnArg::Receiver { .. } => {},
                        FnArg::Typed { ty, .. } => implicit_ty(&mut acc, ty, items),
                    }
                    k = k + 1;
                }
                match &f.output {
                    Some(t) => implicit_ty(&mut acc, t, items),
                    None => {},
                }
            },
            TraitItem::Const { ty, .. } => implicit_ty(&mut acc, ty, items),
            _ => {},
        }
        i = i + 1;
    }
    acc
}

/// The predicate types name one type: there is at least one, and all are
/// the same. Otherwise the container is a heterogeneous enum.
pub open spec fn uniform(tys: Seq<Ty>) -> bool {
    tys.len() > 0 && forall|i: int| 0 <= i < tys.len() ==> ty_same(#[trigger] tys[i], tys[0])
}

/// Whether the predicate types name one type; see `uniform`.
pub fn is_uniform(tys: &Vec<Ty>) -> (r: bool)
    ensures
        r == uniform(tys@),
{
    if tys.len() == 0 {
        return false;
    }
    let mut i: usize = 0;
    while i < tys.len()
        invariant
            0 < tys.len(),
            i <= tys.len(),
            forall|j: int| 0 <= j < i ==> ty_same(#[trigger] tys@[j], tys@[0]),
        decreases tys.len() - i,
    {
        if !ty_eq(&tys[i], &tys[0]) {
            return false;
        }
        i = i + 1;
    }
    true
}

/// The specifications collected so far, with `t` added unless one with the
/// same text is there.
pub open spec fn add_unique(acc: Seq<ImplementorParts>, t: ImplementorParts) -> Seq<ImplementorParts> {
    if exists|j: int| 0 <= j < acc.len() && (#[trigger] acc[j]).text == t.text {
        acc
    } else {
        acc.push(t)
    }
}

pub open spec fn collect_impls(acc: Seq<ImplementorParts>, impls: Seq<Implementor>, n: int) -> Seq<ImplementorParts>
    decreases n,
{
    if n <= 0 {
        acc
    } else {
        add_unique(collect_impls(acc, impls, n - 1), parts_of(impls[n - 1]))
    }
}

pub open spec fn collect_fields(acc: Seq<ImplementorParts>, fields: Seq<Field>, n: int) -> Seq<ImplementorParts>
    decreases n,
{
    if n <= 0 {
        acc
    } else {
        let a = collect_fields(acc, fields, n - 1);
        collect_impls(a, fields[n - 1].implements@, fields[n - 1].implements@.len() as int)
    }
}

pub open spec fn collect_variants(acc: Seq<ImplementorParts>, variants: Seq<Variant>, n: int) -> Seq<ImplementorParts>
    decreases n,
{
    if n <= 0 {
        acc
    } else {
        let a = collect_variants(acc, variants, n - 1);
        collect_fields(a, variants[n - 1].fields@, variants[n - 1].fields@.len() as int)
    }
}

/// The specifications named on the container's fields, each once (by text),
/// in the order of first appearance, with all their parts.
pub open spec fn collected(shape: Shape) -> Seq<ImplementorParts> {
    match shape {
        Shape::Struct { named, fields } => collect_fields(Seq::empty(), fields@, fields@.len() as int),
        Shape::Enum { variants } => collect_variants(Seq::empty(), variants@, variants@.len() as int),
    }
}

pub open spec fn parts_list(s: Seq<Implementor>) -> Seq<ImplementorParts> {
    s.map_values(|i: Implementor| parts_of(i))
}

fn push_unique(out: &mut Vec<Implementor>, t: &Implementor)
    ensures
        parts_list(final(out)@) == add_unique(parts_list(old(out)@), parts_of(*t)),
{
    let mut j: usize = 0;
    while j < out.len()
        invariant
            j <= out.len(),
            forall|k: int| 0 <= k < j ==> (#[trigger] out@[k])@ != t@,
        decreases out.len() - j,
    {
        if out[j].same_as(t) {
            proof {
                assert(parts_list(out@)[j as int].text == parts_of(*t).text);
            }
            return;
        }
        j = j + 1;
    }
    proof {
        assert(!(exists|j: int| 0 <= j < parts_list(out@).len() && (#[trigger] parts_list(out@)[j]).text == parts_of(*t).text)) by {
            if exists|j: int| 0 <= j < parts_list(out@).len() && (#[trigger] parts_list(out@)[j]).text == parts_of(*t).text {
                let k = choose|j: int| 0 <= j < parts_list(out@).len() && (#[trigger] parts_list(out@)[j]).text == parts_of(*t).text;
                assert(out@[k]@ == t@);
            }
        }
    }
    out.push(t.copy());
    proof {
        assert(parts_list(out@) =~= parts_list(old(out)@).push(parts_of(*t)));
    }
}

fn collect_from_fields(out: &mut Vec<Implementor>, fields: &Vec<Field>)
    ensures
        parts_list(final(out)@) == collect_fields(parts_list(old(out)@), fields@, fields@.len() as int),
{
    let ghost start = parts_list(out@);
    let mut i: usize = 0;
    while i < fields.len()
        invariant
            i <= fields.len(),
            parts_list(out@) == collect_fields(start, fields@, i as int),
        decreases fields.len() - i,
    {
        let ghost before = parts_list(out@);
        let impls = &fields[i].implements;
        let mut k: usize = 0;
        while k < impls.len()
            invariant
                k <= impls.len(),
                parts_list(out@) == collect_impls(before, impls@, k as int),
            decreases impls.len() - k,
        {
            push_unique(out, &impls[k]);
            k = k + 1;
        }
        i = i + 1;
    }
}

/// The specifications named by the container's own fields, each once, in
/// the order of first appearance; these are implemented along with those
/// named on the container.
pub fn collect_implementors(shape: &Shape) -> (r: Vec<Implementor>)
    ensures
        parts_list(r@) == collected(*shape),
{
    let mut out: Vec<Implementor> = Vec::new();
    proof {
        assert(parts_list(out@) =~= Seq::<ImplementorParts>::empty());
    }
    match shape {
        Shape::Struct { fields, .. } => {
            collect_from_fields(&mut out, fields);
        },
        Shape::Enum { variants } => {
            let mut v: usize = 0;
            while v < variants.len()
                invariant
                    v <= variants.len(),
                    *shape == (Shape::Enum { variants: *variants }),
                    parts_list(out@) == collect_variants(Seq::empty(), variants@, v as int),
                decreases variants.len() - v,
            {
                collect_from_fields(&mut out, &variants[v].fields);
                v = v + 1;
            }
        },
    }
    out
}

/// Every specification to implement for a container: those collected from
/// its fields, then those named on the container itself.
pub fn implement(shape: &Shape, named: &Vec<Implementor>) -> (r: Vec<Implementor>)
    ensures
        parts_list(r@) == collected(*shape) + parts_list(named@),
{
    let mut out = collect_implementors(shape);
    let ghost first = parts_list(out@);
    let mut i: usize = 0;
    while i < named.len()
        invariant
            i <= named.len(),
            parts_list(out@) == first + parts_list(named@.subrange(0, i as int)),
        decreases named.len() - i,
    {
        let c = named[i].copy();
        proof {
            assert(parts_list(named@.subrange(0, i as int + 1)) =~= parts_list(named@.subrange(0, i as int)).push(parts_of(c)));
        }
        let ghost prev = out@;
        out.push(c);
        proof {
            assert(parts_list(out@) =~= parts_list(prev).push(parts_of(c)));
            assert(parts_list(out@) =~= first + parts_list(named@.subrange(0, i as int + 1)));
        }
        i = i + 1;
    }
    proof {
        assert(named@.subrange(0, named@.len() as int) =~= named@);
    }
    out
}

/// The parameters that stand for the inherited associated types.
pub open spec fn implicit_params(names: Seq<String>, nonce: u64) -> Seq<GenericParam> {
    Seq::new(
        names.len(),
        |k: int|
            GenericParam {
                kind: ParamKind::Type,
                ident: Name::Fresh { kind: FreshKind::ImplicitAssoc, base: Some(names[k]), nonce, n: k as u64 },
                bounds: TyList::Nil,
                default: None,
            },
    )
}

/// The renaming of the specification's quantified parameters.
pub open spec fn implr_map_of(input: Input, nonce: u64) -> Seq<Subst> {
    input.implementor.generics@.map_values(|p: GenericParam| rename_entry(p, nonce))
}

/// The renaming of the container's parameters.
pub open spec fn adt_map_of(input: Input, nonce: u64) -> Seq<Subst> {
    input.adt.generics@.map_values(|p: GenericParam| rename_entry(p, nonce_of_adt(nonce)))
}

/// The container's parameters, renamed.
pub open spec fn adt_params_of(input: Input, nonce: u64) -> Seq<GenericParam> {
    input.adt.generics@.map_values(|p: GenericParam| renamed_param(p, nonce_of_adt(nonce), adt_map_of(input, nonce)))
}

/// The specification's parameters, renamed, with the container's renaming
/// applied to their bounds as well.
pub open spec fn implr_params_of(input: Input, nonce: u64) -> Seq<GenericParam> {
    subst_params(
        input.implementor.generics@.map_values(|p: GenericParam| renamed_param(p, nonce, implr_map_of(input, nonce))),
        adt_map_of(input, nonce),
    )
}

/// The where-clause of the implementation: the specification's predicates
/// and the container's, both renamed; `Self: St` for each supertrait `St`
/// with the trait's generics bound and the inherited associated types bound
/// to their parameters; and `P: Trait<args, bindings>` for each predicate
/// type `P`.
pub open spec fn where_clause(
    input: Input,
    nonce: u64,
    bind: Seq<Subst>,
    tys: Seq<Ty>,
    eqs: Seq<Ty>,
    implicit: Seq<String>,
) -> Seq<WherePred> {
    let implr_where = subst_list(subst_list(input.implementor.where_preds, implr_map_of(input, nonce)), adt_map_of(input, nonce));
    let adt_where = subst_list(input.adt.where_preds, adt_map_of(input, nonce));
    let bound = Ty::Named {
        path: Name::Given(trait_name(input)),
        args: seq_list(spec_args(input, nonce).map_values(|a: GenericArg| arg_term(a)) + eqs + implicit_eqs(implicit, nonce)),
    };
    written(implr_where) + written(adt_where) + super_bounds(input.trait_def.supertraits, bind, implicit_eqs(implicit, nonce))
        + pred_bounds(tys, bound)
}

fn make_implicit_eqs(names: &Vec<String>, nonce: u64) -> (r: Vec<Ty>)
    ensures
        r@ == implicit_eqs(names@, nonce),
{
    let mut out: Vec<Ty> = Vec::new();
    let mut k: usize = 0;
    while k < names.len()
        invariant
            k <= names.len(),
            out@ == implicit_eqs(names@.subrange(0, k as int), nonce),
        decreases names.len() - k,
    {
        out.push(
            Ty::AssocEq {
                name: names[k].clone(),
                ty: Box::new(
                    Ty::Named {
                        path: Name::Fresh { kind: FreshKind::ImplicitAssoc, base: Some(names[k].clone()), nonce, n: k as u64 },
                        args: TyList::Nil,
                    },
                ),
            },
        );
        k = k + 1;
        proof {
            assert(out@ =~= implicit_eqs(names@.subrange(0, k as int), nonce));
        }
    }
    proof {
        assert(names@.subrange(0, names@.len() as int) =~= names@);
    }
    out
}

fn arg_terms(args: &Vec<GenericArg>) -> (r: Vec<Ty>)
    ensures
        r@ == args@.map_values(|a: GenericArg| arg_term(a)),
{
    let mut out: Vec<Ty> = Vec::new();
    let mut k: usize = 0;
    while k < args.len()
        invariant
            k <= args.len(),
            out@ == args@.subrange(0, k as int).map_values(|a: GenericArg| arg_term(a)),
        decreases args.len() - k,
    {
        out.push(
            match &args[k] {
                GenericArg::Lifetime(n) => Ty::Lifetime(n.copy()),
                GenericArg::Type(t) => t.copy(),
                GenericArg::Const(t) => t.copy(),
            },
        );
        k = k + 1;
        proof {
            assert(out@ =~= args@.subrange(0, k as int).map_values(|a: GenericArg| arg_term(a)));
        }
    }
    proof {
        assert(args@.subrange(0, args@.len() as int) =~= args@);
    }
    out
}

impl Input {
    /// Generates the forwarded implementation of the trait for the container.
    ///
    /// The specification's quantified parameters are renamed with `nonce` and
    /// the container's with the next nonce, everywhere they occur (bounds,
    /// where-clauses, arguments, field types); the trait's generics are bound
    /// to the specification's arguments (or defaults); the predicate types are
    /// found; then each member is forwarded in the trait's order. The
    /// implementation's generics are the merged renamed parameters, followed
    /// by one fresh parameter per associated type of a heterogeneous enum, then
    /// one per associated type inherited from a supertrait; its where-clause is
    /// `where_clause`; with an alternative trait, the specification's own trait
    /// gets an empty `unsafe impl` with the same generics and where-clause.
    #[verifier::loop_isolation(false)]
    pub fn implement_internal(&self, nonce: u64) -> (r: Result<ImplOutput, ImplError>)
        ensures
            ({
                let args = spec_args(*self, nonce);
                let params = self.trait_def.generics@;
                let items = self.trait_def.items@;
                match trait_bindings(params, args) {
                    Err(e) => r == Err::<ImplOutput, ImplError>(ImplError::Bind(e)),
                    Ok(bind) => match pred_types(self.implementor@, self.adt.shape, adt_map_of(*self, nonce)) {
                        Err(e) => r == Err::<ImplOutput, ImplError>(ImplError::Predicate(e)),
                        Ok(tys) => {
                            let single = uniform(tys);
                            match r {
                                Ok(out) => {
                                    &&& out.trait_args@ == args
                                    &&& out.pred_tys@ == tys
                                    &&& out.generics@ == merged(adt_params_of(*self, nonce), implr_params_of(*self, nonce))
                                        + assoc_params(items, items.len() as int, single, nonce) + implicit_params(
                                        out.implicit_assoc@,
                                        nonce,
                                    )
                                    &&& strings(out.implicit_assoc@) == implicit_assoc_names(self.trait_def)
                                    &&& out.where_preds@ == where_clause(
                                        *self,
                                        nonce,
                                        bind,
                                        tys,
                                        assoc_eqs(items, items.len() as int, single, nonce),
                                        out.implicit_assoc@,
                                    )
                                    &&& match self.alternative {
                                        Some(_) => out.spec_impl == Some(
                                            Ty::Named {
                                                path: Name::Given(self.implementor.path),
                                                args: seq_list(args.map_values(|a: GenericArg| arg_term(a))),
                                            },
                                        ),
                                        None => out.spec_impl is None,
                                    }
                                    &&& out.items@.len() == items.len()
                                    &&& forall|i: int|
                                        0 <= i < items.len() ==> (item_spec(
                                            #[trigger] items[i],
                                            self.implementor@,
                                            self.adt.shape,
                                            single,
                                            bind,
                                            self.table@,
                                            params,
                                            self.registration,
                                            nonce,
                                        ) matches Ok(s) && item_matches(
                                            out.items@[i],
                                            items[i],
                                            s,
                                            bind,
                                            self.table@,
                                            params,
                                            self.registration,
                                        ))
                                },
                                Err(ImplError::Emit { item, err }) => {
                                    &&& item < items.len()
                                    &&& forall|j: int|
                                        0 <= j < item ==> (item_spec(
                                            #[trigger] items[j],
                                            self.implementor@,
                                            self.adt.shape,
                                            single,
                                            bind,
                                            self.table@,
                                            params,
                                            self.registration,
                                            nonce,
                                        ) is Ok)
                                    &&& item_spec(
                                        items[item as int],
                                        self.implementor@,
                                        self.adt.shape,
                                        single,
                                        bind,
                                        self.table@,
                                        params,
                                        self.registration,
                                        nonce,
                                    ) == Err::<ItemSpec, EmitError>(err)
                                },
                                Err(_) => false,
                            }
                        },
                    },
                }
            }),
    {
        let input = self;
        let (implr_renamed, implr_map) = rename_params(&input.implementor.generics, nonce);
        let adt_nonce = nonce.wrapping_add(1);
        let (adt_params, adt_map) = rename_params(&input.adt.generics, adt_nonce);
        let implr_params = substitute_params(&implr_renamed, &adt_map);
        let args = match &input.implementor.args {
            Some(a) => substitute_args(&substitute_args(a, &implr_map), &adt_map),
            None => Vec::new(),
        };
        proof {
            if input.implementor.args is None {
                assert(args@ =~= spec_args(*input, nonce));
            }
        }
        let bind = match bind_trait_generics(&input.trait_def.generics, &args) {
            Err(e) => {
                return Err(ImplError::Bind(e));
            },
            Ok(b) => b,
        };
        let pred_tys = match predicate_types(&input.implementor, &input.adt.shape, &adt_map) {
            Err(e) => {
                return Err(ImplError::Predicate(e));
            },
            Ok(t) => t,
        };
        let single = is_uniform(&pred_tys);
        let mut generics = merge_generic_params(&adt_params, &implr_params);
        let ghost base = generics@;
        let params = &input.trait_def.generics;
        let table = &input.table;
        let reg = input.registration;
        let items = &input.trait_def.items;
        let mut out: Vec<ItemOut> = Vec::new();
        let mut eqs: Vec<Ty> = Vec::new();
        let mut i: usize = 0;
        while i < items.len()
            invariant
                i <= items.len(),
                out@.len() == i,
                generics@ == base + assoc_params(items@, i as int, single, nonce),
                eqs@ == assoc_eqs(items@, i as int, single, nonce),
                forall|j: int|
                    0 <= j < i ==> (item_spec(
                        #[trigger] items@[j],
                        input.implementor@,
                        input.adt.shape,
                        single,
                        bind@,
                        table@,
                        params@,
                        reg,
                        nonce,
                    ) matches Ok(s) && item_matches(out@[j], items@[j], s, bind@, table@, params@, reg)),
            decreases items.len() - i,
        {
            let item = &items[i];
            let produced: Result<ItemOut, EmitError> = match item {
                TraitItem::Fn(f) => {
                    let scoped_bind = filter_generics(&bind, &f.generics);
                    let scope = fn_scope(params, &f.generics);
                    let g = prepare_fn(f, &scoped_bind, table, &scope, reg);
                    match emit_trait_fn(&input.implementor, &input.adt.shape, &g, nonce) {
                        Ok(x) => Ok(ItemOut::Fn(x)),
                        Err(e) => Err(e),
                    }
                },
                TraitItem::Type { ident, generics: g, where_preds: w } => {
                    let plain = g.len() == 0 && match w {
                        TyList::Nil => true,
                        _ => false,
                    };
                    if single {
                        Ok(
                            ItemOut::Type {
                                ident: ident.clone(),
                                generics: substitute_params(g, &bind),
                                where_preds: substitute_list(w, &bind),
                                value: AssocValue::Forward,
                            },
                        )
                    } else if plain {
                        let n = Name::Fresh { kind: FreshKind::AssocParam, base: Some(ident.clone()), nonce, n: 0 };
                        generics.push(GenericParam { kind: ParamKind::Type, ident: n.copy(), bounds: TyList::Nil, default: None });
                        eqs.push(
                            Ty::AssocEq {
                                name: ident.clone(),
                                ty: Box::new(Ty::Named { path: n.copy(), args: TyList::Nil }),
                            },
                        );
                        Ok(
                            ItemOut::Type {
                                ident: ident.clone(),
                                generics: substitute_params(g, &bind),
                                where_preds: substitute_list(w, &bind),
                                value: AssocValue::Param(n),
                            },
                        )
                    } else {
                        Err(EmitError::EnumAssoc)
                    }
                },
                TraitItem::Const { ident, ty } => {
                    if single {
                        Ok(ItemOut::Const { ident: ident.clone(), ty: prepare_ty(ty, &bind, table, params, reg) })
                    } else {
                        Err(EmitError::EnumAssoc)
                    }
                },
                TraitItem::Other => Err(EmitError::UnsupportedItem),
            };
            match produced {
                Ok(x) => {
                    out.push(x);
                },
                Err(e) => {
                    return Err(ImplError::Emit { item: i, err: e });
                },
            }
            i = i + 1;
        }
        let implicit = implicit_assoc_tys(&input.trait_def);
        let ghost before = generics@;
        let mut k: usize = 0;
        while k < implicit.len()
            invariant
                k <= implicit.len(),
                generics@ == before + implicit_params(implicit@.subrange(0, k as int), nonce),
            decreases implicit.len() - k,
        {
            generics.push(
                GenericParam {
                    kind: ParamKind::Type,
                    ident: Name::Fresh { kind: FreshKind::ImplicitAssoc, base: Some(implicit[k].clone()), nonce, n: k as u64 },
                    bounds: TyList::Nil,
                    default: None,
                },
            );
            k = k + 1;
            proof {
                assert(generics@ =~= before + implicit_params(implicit@.subrange(0, k as int), nonce));
            }
        }
        proof {
            assert(implicit@.subrange(0, implicit@.len() as int) =~= implicit@);
        }
        // the where-clause
        let ieqs = make_implicit_eqs(&implicit, nonce);
        let mut wheres: Vec<WherePred> = Vec::new();
        push_written(&mut wheres, &substitute_list(&substitute_list(&input.implementor.where_preds, &implr_map), &adt_map));
        push_written(&mut wheres, &substitute_list(&input.adt.where_preds, &adt_map));
        push_supers(&mut wheres, &input.trait_def.supertraits, &bind, &ieqs);
        let terms = arg_terms(&args);
        let mut bound_args = arg_terms(&args);
        append_tys(&mut bound_args, &eqs);
        append_tys(&mut bound_args, &ieqs);
        let trait_path = match &input.alternative {
            Some(a) => a.clone(),
            None => input.implementor.path.clone(),
        };
        let bound = Ty::Named { path: Name::Given(trait_path), args: vec_to_list(bound_args) };
        let ghost w0 = wheres@;
        let mut k: usize = 0;
        while k < pred_tys.len()
            invariant
                k <= pred_tys.len(),
                wheres@ == w0 + pred_bounds(pred_tys@.subrange(0, k as int), bound),
            decreases pred_tys.len() - k,
        {
            wheres.push(WherePred::Bound { bounded: pred_tys[k].copy(), bound: bound.copy() });
            k = k + 1;
            proof {
                assert(wheres@ =~= w0 + pred_bounds(pred_tys@.subrange(0, k as int), bound));
            }
        }
        proof {
            assert(pred_tys@.subrange(0, pred_tys@.len() as int) =~= pred_tys@);
            assert(wheres@ =~= where_clause(*input, nonce, bind@, pred_tys@, eqs@, implicit@));
        }
        let spec_impl = match &input.alternative {
            Some(_) => Some(Ty::Named { path: Name::Given(input.implementor.path.clone()), args: vec_to_list(terms) }),
            None => None,
        };
        Ok(
            ImplOutput {
                generics,
                implicit_assoc: implicit,
                trait_args: args,
                pred_tys,
                where_preds: wheres,
                spec_impl,
                items: out,
            },
        )
    }
}

} // verus!

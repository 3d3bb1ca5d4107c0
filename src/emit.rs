//! Building the forwarding body of each trait method.
use crate::model::Implementor;
use crate::params::{find_pred_param, pred_params, renamed_pat, update_pat_names, FnArg, PredParam, PredSource};
use crate::predicate::{find_pred_field, predicate_of, Field, PredicateError};
use crate::syntax::{FreshKind, Name, Pat, PatList, Ty, TyList};
use vstd::prelude::*;

verus! {

/// A method declared by the trait: its name, its own generic parameters,
/// its parameters, and its return type, if any.
#[derive(Debug, PartialEq, Eq)]
pub struct TraitFn {
    pub ident: String,
    pub generics: Vec<crate::model::GenericParam>,
    pub inputs: Vec<FnArg>,
    pub output: Option<Ty>,
}

/// An enum variant: its name, whether its fields are named, and its fields.
#[derive(Debug, PartialEq, Eq)]
pub struct Variant {
    pub ident: String,
    pub named: bool,
    pub fields: Vec<Field>,
}

/// The shape of the container the trait is forwarded to.
#[derive(Debug, PartialEq, Eq)]
pub enum Shape {
    Struct { named: bool, fields: Vec<Field> },
    Enum { variants: Vec<Variant> },
}

/// One argument of the forwarded call: the bound predicate value, the
/// `self` token, or an ordinary parameter's pattern, passed on unchanged.
#[derive(Debug, PartialEq, Eq)]
pub enum CallArg {
    Pred(Name),
    SelfToken,
    Pat(Pat),
}

/// `let Self { field: binding, .. } = source;` (or its positional form).
#[derive(Debug, PartialEq, Eq)]
pub struct Destructure {
    pub source: PredSource,
    pub binding: Name,
}

/// The body of a forwarded method. For a struct, each self-shaped parameter
/// is destructured to its predicate field `field` and the call follows. For
/// an enum, the first self-shaped parameter is matched; `arms[v]` is the
/// predicate field of variant `v`, bound to `binding` in that arm.
#[derive(Debug, PartialEq, Eq)]
pub enum Body {
    Struct { field: usize, lets: Vec<Destructure>, call: Vec<CallArg> },
    Enum { scrutinee: PredSource, binding: Name, arms: Vec<usize>, call: Vec<CallArg> },
}

/// A forwarded method: the trait's signature with `_` patterns renamed, and
/// its body.
#[derive(Debug, PartialEq, Eq)]
pub struct ImplFn {
    pub ident: String,
    pub generics: Vec<crate::model::GenericParam>,
    pub inputs: Vec<FnArg>,
    pub output: Option<Ty>,
    pub body: Body,
}

/// Why a method could not be forwarded.
#[derive(Clone, Copy, Debug, PartialEq, Eq, Structural)]
pub enum EmitError {
    /// No predicate field for the struct, or for the enum variant given.
    Predicate { variant: Option<usize>, err: PredicateError },
    /// A parameter pattern of a form that cannot be passed on.
    UnsupportedPattern,
    /// The parameter at this position mentions `Self` in a form not allowed.
    SelfInParam { index: usize },
    /// `Self` in the return type.
    SelfInReturn,
    /// No parameter has a self-shaped type.
    NoSelf,
    /// An enum method with more than one self-shaped parameter.
    MultipleSelf { first: usize, second: usize },
    /// An associated const on an enum, or an associated type with its own
    /// generics on an enum.
    EnumAssoc,
    /// A trait item that is neither a method, a type nor a const.
    UnsupportedItem,
}

/// The trait's parameters with `_` patterns renamed, numbering on from one
/// parameter to the next, and the last number used.
pub open spec fn renamed_inputs(inputs: Seq<FnArg>, nonce: u64, n: int) -> Option<(Seq<FnArg>, u64)>
    decreases n,
{
    if n <= 0 {
        Some((Seq::empty(), 0u64))
    } else {
        match renamed_inputs(inputs, nonce, n - 1) {
            None => None,
            Some((s, c)) => match inputs[n - 1] {
                FnArg::Receiver { .. } => Some((s.push(inputs[n - 1]), c)),
                FnArg::Typed { pat, ty } => match renamed_pat(pat, nonce, c) {
                    None => None,
                    Some((q, c2)) => Some((s.push(FnArg::Typed { pat: q, ty }), c2)),
                },
            },
        }
    }
}

proof fn lemma_renamed_none_stays(inputs: Seq<FnArg>, nonce: u64, m: int, n: int)
    requires
        0 <= m <= n,
        renamed_inputs(inputs, nonce, m) is None,
    ensures
        renamed_inputs(inputs, nonce, n) is None,
    decreases n - m,
{
    if n > m {
        lemma_renamed_none_stays(inputs, nonce, m, n - 1);
    }
}

/// Renames the `_` patterns of all parameters; `None` for a pattern that
/// cannot be handled.
pub fn rename_inputs(inputs: &Vec<FnArg>, nonce: u64) -> (r: Option<Vec<FnArg>>)
    ensures
        match r {
            Some(v) => renamed_inputs(inputs@, nonce, inputs@.len() as int) matches Some(p) && p.0 == v@,
            None => renamed_inputs(inputs@, nonce, inputs@.len() as int) is None,
        },
{
    let mut out: Vec<FnArg> = Vec::new();
    let mut cnt: u64 = 0;
    let mut i: usize = 0;
    while i < inputs.len()
        invariant
            i <= inputs.len(),
            renamed_inputs(inputs@, nonce, i as int) == Some((out@, cnt)),
        decreases inputs.len() - i,
    {
        match &inputs[i] {
            FnArg::Receiver { reference, mutable } => {
                out.push(FnArg::Receiver { reference: *reference, mutable: *mutable });
            },
            FnArg::Typed { pat, ty } => match update_pat_names(pat, nonce, cnt) {
                None => {
                    proof {
                        lemma_renamed_none_stays(inputs@, nonce, i as int + 1, inputs@.len() as int);
                    }
                    return None;
                },
                Some((q, c2)) => {
                    out.push(FnArg::Typed { pat: q, ty: ty.copy() });
                    cnt = c2;
                },
            },
        }
        i = i + 1;
    }
    Some(out)
}

/// The pattern with every `mut` binding made immutable, for use as an
/// argument expression.
pub open spec fn unmut_pat(p: Pat) -> Pat
    decreases p,
{
    match p {
        Pat::Ident { by_ref, mutable, ident, subpat } => Pat::Ident {
            by_ref,
            mutable: false,
            ident,
            subpat: match subpat {
                Some(b) => Some(Box::new(unmut_pat(*b))),
                None => None,
            },
        },
        Pat::Group { kind, path, elems } => Pat::Group { kind, path, elems: unmut_list(elems) },
        Pat::Ref { mutable, pat } => Pat::Ref { mutable, pat: Box::new(unmut_pat(*pat)) },
        Pat::Paren(pat) => Pat::Paren(Box::new(unmut_pat(*pat))),
        Pat::Typed { pat, ty } => Pat::Typed { pat: Box::new(unmut_pat(*pat)), ty },
        _ => p,
    }
}

pub open spec fn unmut_list(l: PatList) -> PatList
    decreases l,
{
    match l {
        PatList::Nil => PatList::Nil,
        PatList::Cons { member, pat, rest } => PatList::Cons {
            member,
            pat: Box::new(unmut_pat(*pat)),
            rest: Box::new(unmut_list(*rest)),
        },
    }
}

fn strip_mut(p: &Pat) -> (r: Pat)
    ensures
        r == unmut_pat(*p),
    decreases p,
{
    match p {
        Pat::Ident { by_ref, ident, subpat, .. } => Pat::Ident {
            by_ref: *by_ref,
            mutable: false,
            ident: ident.copy(),
            subpat: match subpat {
                Some(b) => Some(Box::new(strip_mut(b))),
                None => None,
            },
        },
        Pat::Group { kind, path, elems } => Pat::Group {
            kind: *kind,
            path: match path {
                Some(s) => Some(s.clone()),
                None => None,
            },
            elems: strip_mut_list(elems),
        },
        Pat::Ref { mutable, pat } => Pat::Ref { mutable: *mutable, pat: Box::new(strip_mut(pat)) },
        Pat::Paren(pat) => Pat::Paren(Box::new(strip_mut(pat))),
        Pat::Typed { pat, ty } => Pat::Typed { pat: Box::new(strip_mut(pat)), ty: ty.copy() },
        _ => p.copy(),
    }
}

fn strip_mut_list(l: &PatList) -> (r: PatList)
    ensures
        r == unmut_list(*l),
    decreases l,
{
    match l {
        PatList::Nil => PatList::Nil,
        PatList::Cons { member, pat, rest } => PatList::Cons {
            member: match member {
                Some(m) => Some(m.clone()),
                None => None,
            },
            pat: Box::new(strip_mut(pat)),
            rest: Box::new(strip_mut_list(rest)),
        },
    }
}

/// The position, among the self-shaped parameters, of parameter `i`.
pub open spec fn pred_slot(preds: Seq<PredParam>, i: int) -> Option<int>
    decreases preds.len(),
{
    if preds.len() == 0 {
        None
    } else if preds.last().index == i {
        match pred_slot(preds.drop_last(), i) {
            Some(k) => Some(k),
            None => Some(preds.len() - 1),
        }
    } else {
        pred_slot(preds.drop_last(), i)
    }
}

/// The `i`th argument of the forwarded call: a self-shaped parameter that
/// has a binding is replaced by it; the others are passed on as written.
pub open spec fn call_arg(inputs: Seq<FnArg>, preds: Seq<PredParam>, binds: Seq<Name>, i: int) -> CallArg {
    match pred_slot(preds, i) {
        Some(k) if k < binds.len() => CallArg::Pred(binds[k]),
        _ => match inputs[i] {
            FnArg::Receiver { .. } => CallArg::SelfToken,
            FnArg::Typed { pat, ty } => CallArg::Pat(unmut_pat(pat)),
        },
    }
}

fn find_slot(preds: &Vec<PredParam>, i: usize) -> (r: Option<usize>)
    ensures
        match r {
            Some(k) => pred_slot(preds@, i as int) == Some(k as int),
            None => pred_slot(preds@, i as int) is None,
        },
{
    let mut k: usize = preds.len();
    let mut found: Option<usize> = None;
    proof {
        assert(preds@.subrange(0, preds@.len() as int) =~= preds@);
    }
    while k > 0
        invariant
            k <= preds.len(),
            match found {
                Some(j) => pred_slot(preds@, i as int) == match pred_slot(preds@.subrange(0, k as int), i as int) {
                    Some(x) => Some(x),
                    None => Some(j as int),
                },
                None => pred_slot(preds@, i as int) == pred_slot(preds@.subrange(0, k as int), i as int),
            },
        decreases k,
    {
        proof {
            assert(preds@.subrange(0, k as int).drop_last() =~= preds@.subrange(0, k as int - 1));
        }
        if preds[k - 1].index == i {
            found = Some(k - 1);
        }
        k = k - 1;
    }
    proof {
        assert(preds@.subrange(0, 0) =~= Seq::<PredParam>::empty());
    }
    found
}

/// Builds the arguments of the forwarded call; see `call_arg`.
pub fn make_call(inputs: &Vec<FnArg>, preds: &Vec<PredParam>, binds: &Vec<Name>) -> (r: Vec<CallArg>)
    ensures
        r@.len() == inputs@.len(),
        forall|i: int| 0 <= i < inputs@.len() ==> r@[i] == call_arg(inputs@, preds@, binds@, i),
{
    proof {
        assert(preds@.subrange(0, preds@.len() as int) =~= preds@);
    }
    let mut out: Vec<CallArg> = Vec::new();
    let mut i: usize = 0;
    while i < inputs.len()
        invariant
            i <= inputs.len(),
            out@.len() == i,
            forall|j: int| 0 <= j < i ==> out@[j] == call_arg(inputs@, preds@, binds@, j),
        decreases inputs.len() - i,
    {
        let slot = find_slot(preds, i);
        let arg = match slot {
            Some(k) if k < binds.len() => CallArg::Pred(binds[k].copy()),
            _ => match &inputs[i] {
                FnArg::Receiver { .. } => CallArg::SelfToken,
                FnArg::Typed { pat, .. } => CallArg::Pat(strip_mut(pat)),
            },
        };
        out.push(arg);
        i = i + 1;
    }
    out
}

/// The binding of the `k`th predicate value in a struct body.
pub open spec fn pred_binding(nonce: u64, k: int) -> Name {
    Name::Fresh { kind: FreshKind::PredParam, base: None, nonce, n: k as u64 }
}

/// The arm field of each variant: its predicate field for `implr`, or the
/// first variant where there is none.
pub open spec fn arms_upto(implr: Seq<char>, variants: Seq<Variant>, n: int) -> Result<Seq<usize>, (usize, PredicateError)>
    decreases n,
{
    if n <= 0 {
        Ok(Seq::empty())
    } else {
        match arms_upto(implr, variants, n - 1) {
            Err(e) => Err(e),
            Ok(s) => match predicate_of(implr, variants[n - 1].fields@) {
                Err(e) => Err(((n - 1) as usize, e)),
                Ok(f) => Ok(s.push(f)),
            },
        }
    }
}

proof fn lemma_arms_error_stays(implr: Seq<char>, variants: Seq<Variant>, m: int, n: int)
    requires
        0 <= m <= n,
        arms_upto(implr, variants, m) is Err,
    ensures
        arms_upto(implr, variants, n) == arms_upto(implr, variants, m),
    decreases n - m,
{
    if n > m {
        lemma_arms_error_stays(implr, variants, m, n - 1);
    }
}

/// The predicate field of every variant, in order.
pub fn variant_predicates(implr: &Implementor, variants: &Vec<Variant>) -> (r: Result<Vec<usize>, (usize, PredicateError)>)
    ensures
        match r {
            Ok(v) => arms_upto(implr@, variants@, variants@.len() as int) == Ok::<
                Seq<usize>,
                (usize, PredicateError),
            >(v@),
            Err(e) => arms_upto(implr@, variants@, variants@.len() as int) == Err::<
                Seq<usize>,
                (usize, PredicateError),
            >(e),
        },
{
    let mut out: Vec<usize> = Vec::new();
    let mut v: usize = 0;
    while v < variants.len()
        invariant
            v <= variants.len(),
            arms_upto(implr@, variants@, v as int) == Ok::<Seq<usize>, (usize, PredicateError)>(out@),
        decreases variants.len() - v,
    {
        match find_pred_field(implr, &variants[v].fields) {
            Ok(f) => {
                out.push(f);
            },
            Err(e) => {
                proof {
                    lemma_arms_error_stays(implr@, variants@, v as int + 1, variants@.len() as int);
                }
                return Err((v, e));
            },
        }
        v = v + 1;
    }
    Ok(out)
}

/// What forwarding a method produces, for a given shape of container.
pub open spec fn emitted_fn(implr: Seq<char>, shape: Shape, f_inputs: Seq<FnArg>, f_output: Option<Ty>, nonce: u64) -> Result<ImplFnSpec, EmitError> {
    match renamed_inputs(f_inputs, nonce, f_inputs.len() as int) {
        None => Err(EmitError::UnsupportedPattern),
        Some((inputs, _)) => match pred_params(inputs) {
            Err(i) => Err(EmitError::SelfInParam { index: i }),
            Ok(preds) => if preds.len() == 0 {
                Err(EmitError::NoSelf)
            } else if preds.len() > 1 && (shape is Enum) {
                Err(EmitError::MultipleSelf { first: preds[0].index, second: preds[1].index })
            } else if (f_output matches Some(t) && crate::params::has_self(t)) {
                Err(EmitError::SelfInReturn)
            } else {
                match shape {
                    Shape::Struct { named, fields } => match predicate_of(implr, fields@) {
                        Err(e) => Err(EmitError::Predicate { variant: None, err: e }),
                        Ok(field) => {
                            let binds = Seq::new(preds.len(), |k: int| pred_binding(nonce, k));
                            Ok(
                                ImplFnSpec {
                                    inputs,
                                    field: Some(field),
                                    arms: Seq::empty(),
                                    binds,
                                    preds,
                                },
                            )
                        },
                    },
                    Shape::Enum { variants } => match arms_upto(implr, variants@, variants@.len() as int) {
                        Err((v, e)) => Err(EmitError::Predicate { variant: Some(v), err: e }),
                        Ok(arms) => Ok(
                            ImplFnSpec {
                                inputs,
                                field: None,
                                arms,
                                binds: seq![pred_binding(nonce, 0)],
                                preds,
                            },
                        ),
                    },
                }
            },
        },
    }
}

/// The parts of a forwarded method that its contract fixes: the renamed
/// parameters, the predicate field (struct) or the arm fields (enum), the
/// bindings of the predicate values, and the self-shaped parameters.
pub ghost struct ImplFnSpec {
    pub inputs: Seq<FnArg>,
    pub field: Option<usize>,
    pub arms: Seq<usize>,
    pub binds: Seq<Name>,
    pub preds: Seq<PredParam>,
}

/// The forwarded method agrees with its specification value.
pub open spec fn fn_matches(
    r: ImplFn,
    s: ImplFnSpec,
    f_ident: Seq<char>,
    f_generics: Seq<crate::model::GenericParam>,
    f_output: Option<Ty>,
) -> bool {
    &&& r.ident@ == f_ident
    &&& r.generics@ == f_generics
    &&& r.inputs@ == s.inputs
    &&& r.output == f_output
    &&& r.body.call_args().len() == s.inputs.len()
    &&& forall|i: int| 0 <= i < s.inputs.len() ==> #[trigger] r.body.call_args()[i] == call_arg(s.inputs, s.preds, s.binds, i)
    &&& match r.body {
        Body::Struct { field, lets, call } => s.field == Some(field) && lets@.len() == s.preds.len() && forall|k: int|
            0 <= k < lets@.len() ==> (#[trigger] lets@[k]).binding == s.binds[k] && lets@[k].source
                == s.preds[k].source,
        Body::Enum { scrutinee, binding, arms, call } => s.field is None && arms@ == s.arms && binding
            == s.binds[0] && scrutinee == s.preds[0].source,
    }
}

impl Body {
    pub open spec fn call_args(self) -> Seq<CallArg> {
        match self {
            Body::Struct { call, .. } => call@,
            Body::Enum { call, .. } => call@,
        }
    }
}

/// A copy of a list of generic parameters.
pub fn copy_params(ps: &Vec<crate::model::GenericParam>) -> (r: Vec<crate::model::GenericParam>)
    ensures
        r@ == ps@,
{
    let mut out: Vec<crate::model::GenericParam> = Vec::new();
    let mut i: usize = 0;
    while i < ps.len()
        invariant
            i <= ps.len(),
            out@ == ps@.subrange(0, i as int),
        decreases ps.len() - i,
    {
        out.push(ps[i].copy());
        i = i + 1;
        proof {
            assert(out@ =~= ps@.subrange(0, i as int));
        }
    }
    proof {
        assert(ps@.subrange(0, ps@.len() as int) =~= ps@);
    }
    out
}

fn copy_source(s: &PredSource) -> (r: PredSource)
    ensures
        r == *s,
{
    match s {
        PredSource::Receiver => PredSource::Receiver,
        PredSource::Binding(n) => PredSource::Binding(n.copy()),
    }
}

/// Forwards one trait method to the predicate field: renames `_` patterns,
/// finds the self-shaped parameters, checks where `Self` stands, and builds
/// the body that projects the predicate value out of each self-shaped
/// parameter and calls the field type's own method.
pub fn emit_trait_fn(implr: &Implementor, shape: &Shape, f: &TraitFn, nonce: u64) -> (r: Result<ImplFn, EmitError>)
    ensures
        match r {
            Ok(out) => emitted_fn(implr@, *shape, f.inputs@, f.output, nonce) matches Ok(s) && fn_matches(
                out,
                s,
                f.ident@,
                f.generics@,
                f.output,
            ),
            Err(e) => emitted_fn(implr@, *shape, f.inputs@, f.output, nonce) == Err::<ImplFnSpec, EmitError>(e),
        },
{
    let inputs = match rename_inputs(&f.inputs, nonce) {
        None => {
            return Err(EmitError::UnsupportedPattern);
        },
        Some(v) => v,
    };
    let preds = match find_pred_param(&inputs) {
        Err(i) => {
            return Err(EmitError::SelfInParam { index: i });
        },
        Ok(p) => p,
    };
    if preds.len() == 0 {
        return Err(EmitError::NoSelf);
    }
    let is_enum = match shape {
        Shape::Enum { .. } => true,
        _ => false,
    };
    if preds.len() > 1 && is_enum {
        return Err(EmitError::MultipleSelf { first: preds[0].index, second: preds[1].index });
    }
    match &f.output {
        Some(t) => {
            if crate::params::check_has_self_ty(t) {
                return Err(EmitError::SelfInReturn);
            }
        },
        None => {},
    }
    let output = match &f.output {
        Some(t) => Some(t.copy()),
        None => None,
    };
    match shape {
        Shape::Struct { fields, .. } => {
            let field = match find_pred_field(implr, fields) {
                Err(e) => {
                    return Err(EmitError::Predicate { variant: None, err: e });
                },
                Ok(x) => x,
            };
            let mut binds: Vec<Name> = Vec::new();
            let mut lets: Vec<Destructure> = Vec::new();
            let mut k: usize = 0;
            while k < preds.len()
                invariant
                    k <= preds.len(),
                    binds@.len() == k,
                    lets@.len() == k,
                    forall|j: int| 0 <= j < k ==> #[trigger] binds@[j] == pred_binding(nonce, j),
                    forall|j: int|
                        0 <= j < k ==> (#[trigger] lets@[j]).binding == pred_binding(nonce, j) && lets@[j].source
                            == preds@[j].source,
                decreases preds.len() - k,
            {
                binds.push(Name::Fresh { kind: FreshKind::PredParam, base: None, nonce, n: k as u64 });
                lets.push(
                    Destructure {
                        source: copy_source(&preds[k].source),
                        binding: Name::Fresh { kind: FreshKind::PredParam, base: None, nonce, n: k as u64 },
                    },
                );
                k = k + 1;
            }
            let call = make_call(&inputs, &preds, &binds);
            proof {
                assert(binds@ =~= Seq::new(preds@.len(), |j: int| pred_binding(nonce, j)));
            }
            Ok(
                ImplFn {
                    ident: f.ident.clone(),
                    generics: copy_params(&f.generics),
                    inputs,
                    output,
                    body: Body::Struct { field, lets, call },
                },
            )
        },
        Shape::Enum { variants } => {
            let arms = match variant_predicates(implr, variants) {
                Err((v, e)) => {
                    return Err(EmitError::Predicate { variant: Some(v), err: e });
                },
                Ok(a) => a,
            };
            let mut binds: Vec<Name> = Vec::new();
            binds.push(Name::Fresh { kind: FreshKind::PredParam, base: None, nonce, n: 0 });
            let call = make_call(&inputs, &preds, &binds);
            proof {
                assert(binds@ =~= seq![pred_binding(nonce, 0)]);
            }
            Ok(
                ImplFn {
                    ident: f.ident.clone(),
                    generics: copy_params(&f.generics),
                    inputs,
                    output,
                    body: Body::Enum {
                        scrutinee: copy_source(&preds[0].source),
                        binding: Name::Fresh { kind: FreshKind::PredParam, base: None, nonce, n: 0 },
                        arms,
                        call,
                    },
                },
            )
        },
    }
}

} // verus!

verus! {

proof fn lemma_renamed_len(inputs: Seq<FnArg>, nonce: u64, n: int)
    requires
        0 <= n,
        renamed_inputs(inputs, nonce, n) is Some,
    ensures
        renamed_inputs(inputs, nonce, n)->Some_0.0.len() == n,
    decreases n,
{
    if n > 0 {
        lemma_renamed_len(inputs, nonce, n - 1);
    }
}

proof fn lemma_preds_ordered(args: Seq<FnArg>, n: int)
    requires
        0 <= n <= args.len(),
        args.len() <= usize::MAX,
        crate::params::preds_upto(args, n) is Ok,
    ensures
        forall|j: int, k: int|
            0 <= j < k < crate::params::preds_upto(args, n)->Ok_0.len() ==> (#[trigger] crate::params::preds_upto(
                args,
                n,
            )->Ok_0[j]).index < (#[trigger] crate::params::preds_upto(args, n)->Ok_0[k]).index,
        forall|k: int|
            0 <= k < crate::params::preds_upto(args, n)->Ok_0.len() ==> (#[trigger] crate::params::preds_upto(
                args,
                n,
            )->Ok_0[k]).index < n,
    decreases n,
{
    if n > 0 {
        lemma_preds_ordered(args, n - 1);
        let prev = crate::params::preds_upto(args, n - 1)->Ok_0;
        let cur = crate::params::preds_upto(args, n)->Ok_0;
        assert(prev.len() <= cur.len() <= prev.len() + 1);
        assert(forall|j: int| 0 <= j < prev.len() ==> cur[j] == prev[j]);
        assert(cur.len() == prev.len() + 1 ==> cur[prev.len() as int].index == n - 1);
        assert forall|j: int, k: int| 0 <= j < k < cur.len() implies (#[trigger] cur[j]).index < (
        #[trigger] cur[k]).index by {
            if k < prev.len() {
                assert(cur[j] == prev[j] && cur[k] == prev[k]);
            } else {
                assert(cur[j] == prev[j]);
            }
        }
    }
}

proof fn lemma_slot_of_pred(preds: Seq<PredParam>, k: int)
    requires
        0 <= k < preds.len(),
        forall|a: int, b: int| 0 <= a < b < preds.len() ==> (#[trigger] preds[a]).index < (#[trigger] preds[b]).index,
    ensures
        pred_slot(preds, preds[k].index as int) == Some(k),
    decreases preds.len(),
{
    if k < preds.len() - 1 {
        assert(preds.last().index != preds[k].index);
        assert(preds.drop_last()[k] == preds[k]);
        lemma_slot_of_pred(preds.drop_last(), k);
    } else {
        lemma_slot_none_below(preds.drop_last(), preds[k].index as int);
    }
}

proof fn lemma_slot_none_below(preds: Seq<PredParam>, i: int)
    requires
        forall|a: int| 0 <= a < preds.len() ==> (#[trigger] preds[a]).index < i,
    ensures
        pred_slot(preds, i) is None,
    decreases preds.len(),
{
    if preds.len() > 0 {
        lemma_slot_none_below(preds.drop_last(), i);
    }
}

/// Forwarding a method of a struct routes exactly the self-shaped parameters
/// (the receiver, `Self`, `&Self`, `&mut Self`) through the predicate field:
/// the `k`th of them is destructured into the `k`th binding and that binding
/// is passed in its place, while every other parameter is passed on as
/// written.
pub proof fn lemma_self_params_routed(implr: Seq<char>, named: bool, fields: Vec<Field>, f: TraitFn, nonce: u64)
    requires
        f.inputs@.len() <= usize::MAX,
        emitted_fn(implr, Shape::Struct { named, fields }, f.inputs@, f.output, nonce) is Ok,
    ensures
        ({
            let s = emitted_fn(implr, Shape::Struct { named, fields }, f.inputs@, f.output, nonce)->Ok_0;
            &&& s.binds.len() == s.preds.len()
            &&& forall|k: int|
                0 <= k < s.preds.len() ==> call_arg(s.inputs, s.preds, s.binds, (#[trigger] s.preds[k]).index as int)
                    == CallArg::Pred(s.binds[k])
            &&& forall|i: int|
                0 <= i < s.inputs.len() && (#[trigger] pred_slot(s.preds, i)) is None ==> call_arg(
                    s.inputs,
                    s.preds,
                    s.binds,
                    i,
                ) == match s.inputs[i] {
                    FnArg::Receiver { .. } => CallArg::SelfToken,
                    FnArg::Typed { pat, ty } => CallArg::Pat(unmut_pat(pat)),
                }
        }),
{
    let s = emitted_fn(implr, Shape::Struct { named, fields }, f.inputs@, f.output, nonce)->Ok_0;
    lemma_renamed_len(f.inputs@, nonce, f.inputs@.len() as int);
    lemma_preds_ordered(s.inputs, s.inputs.len() as int);
    assert forall|k: int| 0 <= k < s.preds.len() implies call_arg(
        s.inputs,
        s.preds,
        s.binds,
        (#[trigger] s.preds[k]).index as int,
    ) == CallArg::Pred(s.binds[k]) by {
        lemma_slot_of_pred(s.preds, k);
    }
}

} // verus!

verus! {

/// A member of a trait: a method, an associated type with its own generics
/// and where-clause, an associated const, or anything else.
#[derive(Debug, PartialEq, Eq)]
pub enum TraitItem {
    Fn(TraitFn),
    Type { ident: String, generics: Vec<crate::model::GenericParam>, where_preds: TyList },
    Const { ident: String, ty: Ty },
    Other,
}

/// A trait definition: its name, whether it is `unsafe`, its generic
/// parameters, its supertrait bounds and its members.
#[derive(Debug, PartialEq, Eq)]
pub struct TraitDef {
    pub ident: String,
    pub unsafety: bool,
    pub generics: Vec<crate::model::GenericParam>,
    pub supertraits: TyList,
    pub items: Vec<TraitItem>,
}

} // verus!

verus! {

/// A struct with one field and no annotation forwards every method to that
/// field.
pub proof fn lemma_single_field_forwards(
    implr: Seq<char>,
    named: bool,
    fields: Vec<Field>,
    inputs: Seq<FnArg>,
    output: Option<Ty>,
    nonce: u64,
)
    requires
        fields@.len() == 1,
        !crate::predicate::is_annotated(implr, fields@[0]),
        emitted_fn(implr, Shape::Struct { named, fields }, inputs, output, nonce) is Ok,
    ensures
        emitted_fn(implr, Shape::Struct { named, fields }, inputs, output, nonce)->Ok_0.field == Some(0usize),
{
    crate::predicate::lemma_single_field_is_predicate(implr, fields@);
}

/// In an enum whose every variant has exactly one field annotated with the
/// specification, each variant's arm binds that field, and all arms share
/// one call.
pub proof fn lemma_enum_arms_use_annotated(implr: Seq<char>, variants: Seq<Variant>, picks: Seq<int>, n: int)
    requires
        0 <= n <= variants.len(),
        picks.len() == variants.len(),
        forall|v: int|
            0 <= v < variants.len() ==> 0 <= #[trigger] picks[v] < variants[v].fields@.len()
                && crate::predicate::is_annotated(implr, variants[v].fields@[picks[v]]),
        forall|v: int, j: int|
            0 <= v < variants.len() && 0 <= j < variants[v].fields@.len() && j != picks[v]
                ==> !crate::predicate::is_annotated(implr, #[trigger] variants[v].fields@[j]),
    ensures
        arms_upto(implr, variants, n) == Ok::<Seq<usize>, (usize, PredicateError)>(
            Seq::new(n as nat, |v: int| picks[v] as usize),
        ),
    decreases n,
{
    if n > 0 {
        lemma_enum_arms_use_annotated(implr, variants, picks, n - 1);
        let v = n - 1;
        assert forall|j: int|
            0 <= j < variants[v].fields@.len() && j != picks[v] implies !crate::predicate::is_annotated(
            implr,
            #[trigger] variants[v].fields@[j],
        ) by {}
        crate::predicate::lemma_annotated_field_wins(implr, variants[v].fields@, picks[v]);
        assert(Seq::new((n - 1) as nat, |w: int| picks[w] as usize).push(picks[v] as usize) =~= Seq::new(
            n as nat,
            |w: int| picks[w] as usize,
        ));
    } else {
        assert(Seq::new(0nat, |w: int| picks[w] as usize) =~= Seq::<usize>::empty());
    }
}

} // verus!

verus! {

/// The parameter with the nonce stripped from the names it binds.
pub open spec fn strip_arg(a: FnArg) -> FnArg {
    match a {
        FnArg::Receiver { .. } => a,
        FnArg::Typed { pat, ty } => FnArg::Typed { pat: crate::syntax::strip_pat(pat), ty },
    }
}

pub open spec fn strip_args(s: Seq<FnArg>) -> Seq<FnArg> {
    s.map_values(|a: FnArg| strip_arg(a))
}

proof fn lemma_renamed_inputs_modulo_nonce(inputs: Seq<FnArg>, n1: u64, n2: u64, n: int)
    requires
        0 <= n <= inputs.len(),
    ensures
        renamed_inputs(inputs, n1, n) is Some <==> renamed_inputs(inputs, n2, n) is Some,
        renamed_inputs(inputs, n1, n) is Some ==> {
            let a = renamed_inputs(inputs, n1, n)->Some_0;
            let b = renamed_inputs(inputs, n2, n)->Some_0;
            a.1 == b.1 && a.0.len() == n && b.0.len() == n && strip_args(a.0) == strip_args(b.0)
        },
    decreases n,
{
    if n > 0 {
        lemma_renamed_inputs_modulo_nonce(inputs, n1, n2, n - 1);
        if renamed_inputs(inputs, n1, n - 1) is Some {
            let a = renamed_inputs(inputs, n1, n - 1)->Some_0;
            let b = renamed_inputs(inputs, n2, n - 1)->Some_0;
            match inputs[n - 1] {
                FnArg::Receiver { .. } => {
                    assert(strip_args(a.0.push(inputs[n - 1])) =~= strip_args(b.0.push(inputs[n - 1]))) by {
                        assert(strip_args(a.0.push(inputs[n - 1])) =~= strip_args(a.0).push(strip_arg(inputs[n - 1])));
                        assert(strip_args(b.0.push(inputs[n - 1])) =~= strip_args(b.0).push(strip_arg(inputs[n - 1])));
                    }
                },
                FnArg::Typed { pat, ty } => {
                    crate::params::lemma_renaming_modulo_nonce(pat, n1, n2, a.1);
                    if renamed_pat(pat, n1, a.1) is Some {
                        let q1 = renamed_pat(pat, n1, a.1)->Some_0.0;
                        let q2 = renamed_pat(pat, n2, a.1)->Some_0.0;
                        let x1 = FnArg::Typed { pat: q1, ty };
                        let x2 = FnArg::Typed { pat: q2, ty };
                        assert(strip_args(a.0.push(x1)) =~= strip_args(a.0).push(strip_arg(x1)));
                        assert(strip_args(b.0.push(x2)) =~= strip_args(b.0).push(strip_arg(x2)));
                    }
                },
            }
        }
    }
}

proof fn lemma_strip_keeps_ident(p: Pat)
    ensures
        (p matches Pat::Ident { subpat: None, .. }) <==> (crate::syntax::strip_pat(p) matches Pat::Ident {
            subpat: None,
            ..
        }),
{
}

proof fn lemma_preds_modulo_nonce(a: Seq<FnArg>, b: Seq<FnArg>, n: int)
    requires
        0 <= n <= a.len(),
        a.len() == b.len(),
        strip_args(a) == strip_args(b),
    ensures
        crate::params::preds_upto(a, n) is Ok <==> crate::params::preds_upto(b, n) is Ok,
        crate::params::preds_upto(a, n) is Err ==> crate::params::preds_upto(a, n) == crate::params::preds_upto(b, n),
        crate::params::preds_upto(a, n) is Ok ==> {
            let x = crate::params::preds_upto(a, n)->Ok_0;
            let y = crate::params::preds_upto(b, n)->Ok_0;
            x.len() == y.len() && forall|k: int| 0 <= k < x.len() ==> #[trigger] x[k].index == y[k].index
        },
    decreases n,
{
    if n > 0 {
        lemma_preds_modulo_nonce(a, b, n - 1);
        assert(strip_args(a)[n - 1] == strip_args(b)[n - 1]);
        assert(strip_args(a)[n - 1] == strip_arg(a[n - 1]));
        assert(strip_args(b)[n - 1] == strip_arg(b[n - 1]));
        match (a[n - 1], b[n - 1]) {
            (FnArg::Typed { pat: p1, ty: t1 }, FnArg::Typed { pat: p2, ty: t2 }) => {
                lemma_strip_keeps_ident(p1);
                lemma_strip_keeps_ident(p2);
            },
            _ => {},
        }
    }
}

/// Forwarding a method is deterministic up to the nonce: with two nonces it
/// fails alike, or succeeds with the same predicate field, the same arms and
/// the same self-shaped positions, and parameters that are equal once the
/// nonce is stripped from the names they bind.
pub proof fn lemma_emitted_fn_modulo_nonce(
    implr: Seq<char>,
    shape: Shape,
    inputs: Seq<FnArg>,
    output: Option<Ty>,
    n1: u64,
    n2: u64,
)
    ensures
        emitted_fn(implr, shape, inputs, output, n1) is Ok <==> emitted_fn(implr, shape, inputs, output, n2) is Ok,
        emitted_fn(implr, shape, inputs, output, n1) is Err ==> emitted_fn(implr, shape, inputs, output, n1)
            == emitted_fn(implr, shape, inputs, output, n2),
        emitted_fn(implr, shape, inputs, output, n1) is Ok ==> {
            let s1 = emitted_fn(implr, shape, inputs, output, n1)->Ok_0;
            let s2 = emitted_fn(implr, shape, inputs, output, n2)->Ok_0;
            &&& s1.field == s2.field
            &&& s1.arms == s2.arms
            &&& s1.preds.len() == s2.preds.len()
            &&& forall|k: int| 0 <= k < s1.preds.len() ==> #[trigger] s1.preds[k].index == s2.preds[k].index
            &&& strip_args(s1.inputs) == strip_args(s2.inputs)
        },
{
    lemma_renamed_inputs_modulo_nonce(inputs, n1, n2, inputs.len() as int);
    if renamed_inputs(inputs, n1, inputs.len() as int) is Some {
        let a = renamed_inputs(inputs, n1, inputs.len() as int)->Some_0.0;
        let b = renamed_inputs(inputs, n2, inputs.len() as int)->Some_0.0;
        lemma_preds_modulo_nonce(a, b, a.len() as int);
    }
}

} // verus!

verus! {

proof fn lemma_arms_each(implr: Seq<char>, variants: Seq<Variant>, n: int)
    requires
        0 <= n <= variants.len(),
        arms_upto(implr, variants, n) is Ok,
    ensures
        arms_upto(implr, variants, n)->Ok_0.len() == n,
        forall|v: int|
            0 <= v < n ==> predicate_of(implr, (#[trigger] variants[v]).fields@) == Ok::<usize, PredicateError>(
                arms_upto(implr, variants, n)->Ok_0[v],
            ),
    decreases n,
{
    if n > 0 {
        lemma_arms_each(implr, variants, n - 1);
        let prev = arms_upto(implr, variants, n - 1)->Ok_0;
        let cur = arms_upto(implr, variants, n)->Ok_0;
        assert forall|v: int| 0 <= v < n implies predicate_of(implr, (#[trigger] variants[v]).fields@) == Ok::<
            usize,
            PredicateError,
        >(cur[v]) by {
            if v < n - 1 {
                assert(cur[v] == prev[v]);
            }
        }
    }
}

/// Forwarding a method of an enum dispatches uniformly: there is exactly one
/// self-shaped parameter, which is matched; there is one arm per variant, in
/// order, binding that variant's predicate field to the one binding; and all
/// arms make the same call.
pub proof fn lemma_enum_dispatch_uniform(
    implr: Seq<char>,
    variants: Vec<Variant>,
    inputs: Seq<FnArg>,
    output: Option<Ty>,
    nonce: u64,
)
    requires
        emitted_fn(implr, Shape::Enum { variants }, inputs, output, nonce) is Ok,
    ensures
        ({
            let s = emitted_fn(implr, Shape::Enum { variants }, inputs, output, nonce)->Ok_0;
            &&& s.preds.len() == 1
            &&& s.binds == seq![pred_binding(nonce, 0)]
            &&& s.field is None
            &&& s.arms.len() == variants@.len()
            &&& forall|v: int|
                0 <= v < variants@.len() ==> predicate_of(implr, (#[trigger] variants@[v]).fields@) == Ok::<
                    usize,
                    PredicateError,
                >(s.arms[v])
        }),
{
    lemma_arms_each(implr, variants@, variants@.len() as int);
}

} // verus!

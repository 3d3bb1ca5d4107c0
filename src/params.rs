//! Classifying the parameters of a trait method: which ones carry `Self`,
//! and giving fresh names to the `_` patterns among them.
use crate::syntax::{FreshKind, Name, Pat, PatList, Text, Ty, TyList};
use vstd::prelude::*;

verus! {

/// A method parameter: the receiver (`self`, `&self`, `&mut self`, with
/// `mutable` the `mut` of the receiver) or a typed pattern.
#[derive(Debug, PartialEq, Eq)]
pub enum FnArg {
    Receiver { reference: bool, mutable: bool },
    Typed { pat: Pat, ty: Ty },
}

/// Where a self-shaped parameter's value is bound.
#[derive(Debug, PartialEq, Eq)]
pub enum PredSource {
    Receiver,
    Binding(Name),
}

/// A parameter whose type is `Self`, `&Self` or `&mut Self` (or the
/// receiver), with its position.
#[derive(Debug, PartialEq, Eq)]
pub struct PredParam {
    pub index: usize,
    pub source: PredSource,
}

/// `Self` occurs in the type, other than as the base of `Self::X`.
pub open spec fn has_self(t: Ty) -> bool
    decreases t,
{
    match t {
        Ty::SelfTy => true,
        Ty::Named { path, args } => list_has_self(args),
        Ty::SelfAssoc(_) => false,
        Ty::Ref { lifetime, mutable, elem } => has_self(*elem),
        Ty::Tuple(l) => list_has_self(l),
        Ty::Opaque(x) => text_has_self(x),
        Ty::Lifetime(_) => false,
        Ty::AssocEq { name, ty } => has_self(*ty),
        Ty::Leaked { .. } => false,
    }
}

pub open spec fn text_has_self(x: Text) -> bool
    decreases x,
{
    match x {
        Text::Last(_) => false,
        Text::Hole { before, hole, rest } => has_self(*hole) || text_has_self(*rest),
    }
}

pub open spec fn list_has_self(l: TyList) -> bool
    decreases l,
{
    match l {
        TyList::Nil => false,
        TyList::Cons(h, t) => has_self(*h) || list_has_self(*t),
    }
}

/// The type is `Self` behind zero or more references.
pub open spec fn is_self_ty(t: Ty) -> bool
    decreases t,
{
    match t {
        Ty::SelfTy => true,
        Ty::Ref { lifetime, mutable, elem } => is_self_ty(*elem),
        _ => false,
    }
}

/// Whether `Self` occurs in the type (`Self::X` aside).
pub fn check_has_self_ty(t: &Ty) -> (r: bool)
    ensures
        r == has_self(*t),
    decreases t,
{
    match t {
        Ty::SelfTy => true,
        Ty::Named { args, .. } => check_list_has_self(args),
        Ty::SelfAssoc(_) => false,
        Ty::Ref { elem, .. } => check_has_self_ty(elem),
        Ty::Tuple(l) => check_list_has_self(l),
        Ty::Opaque(x) => check_text_has_self(x),
        Ty::Lifetime(_) => false,
        Ty::AssocEq { ty, .. } => check_has_self_ty(ty),
        Ty::Leaked { .. } => false,
    }
}

fn check_text_has_self(x: &Text) -> (r: bool)
    ensures
        r == text_has_self(*x),
    decreases x,
{
    match x {
        Text::Last(_) => false,
        Text::Hole { hole, rest, .. } => check_has_self_ty(hole) || check_text_has_self(rest),
    }
}

fn check_list_has_self(l: &TyList) -> (r: bool)
    ensures
        r == list_has_self(*l),
    decreases l,
{
    match l {
        TyList::Nil => false,
        TyList::Cons(h, t) => check_has_self_ty(h) || check_list_has_self(t),
    }
}

/// Whether the type is `Self`, `&Self`, `&mut Self`, or further references to it.
pub fn check_is_self_ty(t: &Ty) -> (r: bool)
    ensures
        r == is_self_ty(*t),
    decreases t,
{
    match t {
        Ty::SelfTy => true,
        Ty::Ref { elem, .. } => check_is_self_ty(elem),
        _ => false,
    }
}

/// How one parameter is classified: `Err(())` where `Self` stands in a
/// place that is not allowed, `Ok(None)` for an ordinary parameter, and
/// `Ok(Some(source))` for a self-shaped one.
pub open spec fn classify(a: FnArg) -> Result<Option<PredSource>, ()> {
    match a {
        FnArg::Receiver { .. } => Ok(Some(PredSource::Receiver)),
        FnArg::Typed { pat, ty } => {
            if is_self_ty(ty) && (pat matches Pat::Ident { subpat: None, .. }) {
                Ok(Some(PredSource::Binding(pat->ident)))
            } else if has_self(ty) {
                Err(())
            } else {
                Ok(None)
            }
        },
    }
}

/// The self-shaped parameters among the first `n`, in order, or the
/// position of the first parameter where `Self` is not allowed.
pub open spec fn preds_upto(args: Seq<FnArg>, n: int) -> Result<Seq<PredParam>, usize>
    decreases n,
{
    if n <= 0 {
        Ok(Seq::empty())
    } else {
        match preds_upto(args, n - 1) {
            Err(i) => Err(i),
            Ok(s) => match classify(args[n - 1]) {
                Err(_) => Err((n - 1) as usize),
                Ok(None) => Ok(s),
                Ok(Some(src)) => Ok(s.push(PredParam { index: (n - 1) as usize, source: src })),
            },
        }
    }
}

proof fn lemma_preds_error_stays(args: Seq<FnArg>, m: int, n: int)
    requires
        0 <= m <= n,
        preds_upto(args, m) is Err,
    ensures
        preds_upto(args, n) == preds_upto(args, m),
    decreases n - m,
{
    if n > m {
        lemma_preds_error_stays(args, m, n - 1);
    }
}

pub open spec fn pred_params(args: Seq<FnArg>) -> Result<Seq<PredParam>, usize> {
    preds_upto(args, args.len() as int)
}

/// Finds the self-shaped parameters of a method, in order. `Err(i)`: the
/// `i`th parameter mentions `Self` in a form other than `Self`, `&Self`,
/// `&mut Self` bound to a plain identifier.
pub fn find_pred_param(args: &Vec<FnArg>) -> (r: Result<Vec<PredParam>, usize>)
    ensures
        match r {
            Ok(v) => pred_params(args@) == Ok::<Seq<PredParam>, usize>(v@),
            Err(i) => pred_params(args@) == Err::<Seq<PredParam>, usize>(i),
        },
{
    let mut out: Vec<PredParam> = Vec::new();
    let mut i: usize = 0;
    while i < args.len()
        invariant
            i <= args.len(),
            preds_upto(args@, i as int) == Ok::<Seq<PredParam>, usize>(out@),
        decreases args.len() - i,
    {
        match &args[i] {
            FnArg::Receiver { .. } => {
                out.push(PredParam { index: i, source: PredSource::Receiver });
            },
            FnArg::Typed { pat, ty } => {
                let shaped = check_is_self_ty(ty);
                let mut bound: Option<Name> = None;
                if shaped {
                    match pat {
                        Pat::Ident { subpat: None, ident, .. } => {
                            bound = Some(ident.copy());
                        },
                        _ => {},
                    }
                }
                match bound {
                    Some(name) => {
                        out.push(PredParam { index: i, source: PredSource::Binding(name) });
                    },
                    None => {
                        if check_has_self_ty(ty) {
                            proof {
                                lemma_preds_error_stays(args@, i as int + 1, args@.len() as int);
                            }
                            return Err(i);
                        }
                    },
                }
            },
        }
        i = i + 1;
    }
    Ok(out)
}

/// The pattern with each `_` replaced by a fresh binding, numbered from
/// `cnt + 1` in left-to-right order, with the last number used; `None` for a
/// pattern form that is not handled, or where the numbers run out.
pub open spec fn renamed_pat(p: Pat, nonce: u64, cnt: u64) -> Option<(Pat, u64)>
    decreases p,
{
    match p {
        Pat::Ident { by_ref, mutable, ident, subpat } => match subpat {
            None => Some((p, cnt)),
            Some(b) => match renamed_pat(*b, nonce, cnt) {
                None => None,
                Some((q, c)) => Some(
                    (Pat::Ident { by_ref, mutable, ident, subpat: Some(Box::new(q)) }, c),
                ),
            },
        },
        Pat::Wild => if cnt < u64::MAX {
            Some(
                (
                    Pat::Ident {
                        by_ref: false,
                        mutable: false,
                        ident: Name::Fresh { kind: FreshKind::Arg, base: None, nonce, n: (cnt + 1) as u64 },
                        subpat: None,
                    },
                    (cnt + 1) as u64,
                ),
            )
        } else {
            None
        },
        Pat::Group { kind, path, elems } => match renamed_list(elems, nonce, cnt) {
            None => None,
            Some((l, c)) => Some((Pat::Group { kind, path, elems: l }, c)),
        },
        Pat::Ref { mutable, pat } => match renamed_pat(*pat, nonce, cnt) {
            None => None,
            Some((q, c)) => Some((Pat::Ref { mutable, pat: Box::new(q) }, c)),
        },
        Pat::Paren(pat) => match renamed_pat(*pat, nonce, cnt) {
            None => None,
            Some((q, c)) => Some((Pat::Paren(Box::new(q)), c)),
        },
        Pat::Typed { pat, ty } => match renamed_pat(*pat, nonce, cnt) {
            None => None,
            Some((q, c)) => Some((Pat::Typed { pat: Box::new(q), ty }, c)),
        },
        Pat::Path(_) => Some((p, cnt)),
        Pat::Lit(_) => Some((p, cnt)),
        Pat::Rest => Some((p, cnt)),
        Pat::Unsupported(_) => None,
    }
}

pub open spec fn renamed_list(l: PatList, nonce: u64, cnt: u64) -> Option<(PatList, u64)>
    decreases l,
{
    match l {
        PatList::Nil => Some((l, cnt)),
        PatList::Cons { member, pat, rest } => match renamed_pat(*pat, nonce, cnt) {
            None => None,
            Some((q, c)) => match renamed_list(*rest, nonce, c) {
                None => None,
                Some((t, c2)) => Some((PatList::Cons { member, pat: Box::new(q), rest: Box::new(t) }, c2)),
            },
        },
    }
}

/// Replaces every `_` in the pattern by a fresh binding, so that the value
/// can be passed on; see `renamed_pat`.
pub fn update_pat_names(p: &Pat, nonce: u64, cnt: u64) -> (r: Option<(Pat, u64)>)
    ensures
        r == renamed_pat(*p, nonce, cnt),
    decreases p,
{
    match p {
        Pat::Ident { by_ref, mutable, ident, subpat } => match subpat {
            None => Some((p.copy(), cnt)),
            Some(b) => match update_pat_names(b, nonce, cnt) {
                None => None,
                Some((q, c)) => Some(
                    (Pat::Ident { by_ref: *by_ref, mutable: *mutable, ident: ident.copy(), subpat: Some(Box::new(q)) }, c),
                ),
            },
        },
        Pat::Wild => if cnt < u64::MAX {
            Some(
                (
                    Pat::Ident {
                        by_ref: false,
                        mutable: false,
                        ident: Name::Fresh { kind: FreshKind::Arg, base: None, nonce, n: cnt + 1 },
                        subpat: None,
                    },
                    cnt + 1,
                ),
            )
        } else {
            None
        },
        Pat::Group { kind, path, elems } => match update_list_names(elems, nonce, cnt) {
            None => None,
            Some((l, c)) => Some(
                (
                    Pat::Group {
                        kind: *kind,
                        path: match path {
                            Some(s) => Some(s.clone()),
                            None => None,
                        },
                        elems: l,
                    },
                    c,
                ),
            ),
        },
        Pat::Ref { mutable, pat } => match update_pat_names(pat, nonce, cnt) {
            None => None,
            Some((q, c)) => Some((Pat::Ref { mutable: *mutable, pat: Box::new(q) }, c)),
        },
        Pat::Paren(pat) => match update_pat_names(pat, nonce, cnt) {
            None => None,
            Some((q, c)) => Some((Pat::Paren(Box::new(q)), c)),
        },
        Pat::Typed { pat, ty } => match update_pat_names(pat, nonce, cnt) {
            None => None,
            Some((q, c)) => Some((Pat::Typed { pat: Box::new(q), ty: ty.copy() }, c)),
        },
        Pat::Path(_) => Some((p.copy(), cnt)),
        Pat::Lit(_) => Some((p.copy(), cnt)),
        Pat::Rest => Some((p.copy(), cnt)),
        Pat::Unsupported(_) => None,
    }
}

fn update_list_names(l: &PatList, nonce: u64, cnt: u64) -> (r: Option<(PatList, u64)>)
    ensures
        r == renamed_list(*l, nonce, cnt),
    decreases l,
{
    match l {
        PatList::Nil => Some((PatList::Nil, cnt)),
        PatList::Cons { member, pat, rest } => match update_pat_names(pat, nonce, cnt) {
            None => None,
            Some((q, c)) => match update_list_names(rest, nonce, c) {
                None => None,
                Some((t, c2)) => Some(
                    (
                        PatList::Cons {
                            member: match member {
                                Some(m) => Some(m.clone()),
                                None => None,
                            },
                            pat: Box::new(q),
                            rest: Box::new(t),
                        },
                        c2,
                    ),
                ),
            },
        },
    }
}

} // verus!

verus! {

/// Renaming the `_` patterns is deterministic up to the nonce: with two
/// nonces it fails on the same patterns, uses the same numbers, and gives
/// patterns that are equal once the nonce is stripped.
pub proof fn lemma_renaming_modulo_nonce(p: Pat, n1: u64, n2: u64, cnt: u64)
    ensures
        renamed_pat(p, n1, cnt) is Some <==> renamed_pat(p, n2, cnt) is Some,
        renamed_pat(p, n1, cnt) is Some ==> renamed_pat(p, n1, cnt)->Some_0.1 == renamed_pat(p, n2, cnt)->Some_0.1
            && crate::syntax::strip_pat(renamed_pat(p, n1, cnt)->Some_0.0) == crate::syntax::strip_pat(
            renamed_pat(p, n2, cnt)->Some_0.0,
        ),
    decreases p,
{
    match p {
        Pat::Ident { subpat, .. } => match subpat {
            Some(b) => lemma_renaming_modulo_nonce(*b, n1, n2, cnt),
            None => {},
        },
        Pat::Group { elems, .. } => lemma_list_renaming_modulo_nonce(elems, n1, n2, cnt),
        Pat::Ref { pat, .. } => lemma_renaming_modulo_nonce(*pat, n1, n2, cnt),
        Pat::Paren(pat) => lemma_renaming_modulo_nonce(*pat, n1, n2, cnt),
        Pat::Typed { pat, .. } => lemma_renaming_modulo_nonce(*pat, n1, n2, cnt),
        _ => {},
    }
}

proof fn lemma_list_renaming_modulo_nonce(l: PatList, n1: u64, n2: u64, cnt: u64)
    ensures
        renamed_list(l, n1, cnt) is Some <==> renamed_list(l, n2, cnt) is Some,
        renamed_list(l, n1, cnt) is Some ==> renamed_list(l, n1, cnt)->Some_0.1 == renamed_list(l, n2, cnt)->Some_0.1
            && crate::syntax::strip_pat_list(renamed_list(l, n1, cnt)->Some_0.0) == crate::syntax::strip_pat_list(
            renamed_list(l, n2, cnt)->Some_0.0,
        ),
    decreases l,
{
    match l {
        PatList::Nil => {},
        PatList::Cons { pat, rest, .. } => {
            lemma_renaming_modulo_nonce(*pat, n1, n2, cnt);
            if renamed_pat(*pat, n1, cnt) is Some {
                let c = renamed_pat(*pat, n1, cnt)->Some_0.1;
                lemma_list_renaming_modulo_nonce(*rest, n1, n2, c);
            }
        },
    }
}

} // verus!

verus! {

proof fn lemma_preds_upto_exact(args: Seq<FnArg>, n: int)
    requires
        0 <= n <= args.len(),
        args.len() <= usize::MAX,
        preds_upto(args, n) is Ok,
    ensures
        ({
            let ps = preds_upto(args, n)->Ok_0;
            &&& forall|j: int, k: int| 0 <= j < k < ps.len() ==> (#[trigger] ps[j]).index < (#[trigger] ps[k]).index
            &&& forall|k: int|
                0 <= k < ps.len() ==> (#[trigger] ps[k]).index < n && classify(args[ps[k].index as int])
                    == Ok::<Option<PredSource>, ()>(Some(ps[k].source))
            &&& forall|i: int|
                0 <= i < n && (#[trigger] classify(args[i])) is Ok && classify(args[i])->Ok_0 is Some ==> exists|k: int|
                    0 <= k < ps.len() && ps[k].index == i
            &&& forall|i: int| 0 <= i < n ==> (#[trigger] classify(args[i])) is Ok
        }),
    decreases n,
{
    if n > 0 {
        lemma_preds_upto_exact(args, n - 1);
        let prev = preds_upto(args, n - 1)->Ok_0;
        let cur = preds_upto(args, n)->Ok_0;
        assert(forall|j: int| 0 <= j < prev.len() ==> cur[j] == prev[j]);
        assert forall|i: int|
            0 <= i < n && (#[trigger] classify(args[i])) is Ok && classify(args[i])->Ok_0 is Some implies exists|k: int|
            0 <= k < cur.len() && cur[k].index == i by {
            if i < n - 1 {
                let k = choose|k: int| 0 <= k < prev.len() && prev[k].index == i;
                assert(cur[k] == prev[k]);
            } else {
                assert(cur[prev.len() as int].index == i);
            }
        }
    }
}

/// The self-shaped parameters are found exactly: when no parameter names
/// `Self` in a form that is not allowed, the result lists, by increasing
/// position, every parameter that is the receiver or a plain binding of type
/// `Self`, `&Self` or `&mut Self`, each with where its value is bound, and no
/// other parameter.
pub proof fn lemma_pred_params_exact(args: Seq<FnArg>)
    requires
        args.len() <= usize::MAX,
        pred_params(args) is Ok,
    ensures
        ({
            let ps = pred_params(args)->Ok_0;
            &&& forall|j: int, k: int| 0 <= j < k < ps.len() ==> (#[trigger] ps[j]).index < (#[trigger] ps[k]).index
            &&& forall|k: int|
                0 <= k < ps.len() ==> (#[trigger] ps[k]).index < args.len() && classify(args[ps[k].index as int])
                    == Ok::<Option<PredSource>, ()>(Some(ps[k].source))
            &&& forall|i: int|
                0 <= i < args.len() ==> ((#[trigger] classify(args[i])) == Ok::<Option<PredSource>, ()>(None) <==> !exists|
                    k: int,
                | 0 <= k < ps.len() && ps[k].index == i)
        }),
{
    lemma_preds_upto_exact(args, args.len() as int);
    let ps = pred_params(args)->Ok_0;
    assert forall|i: int| 0 <= i < args.len() implies ((#[trigger] classify(args[i])) == Ok::<Option<PredSource>, ()>(
        None,
    ) <==> !exists|k: int| 0 <= k < ps.len() && ps[k].index == i) by {
        if exists|k: int| 0 <= k < ps.len() && ps[k].index == i {
            let k = choose|k: int| 0 <= k < ps.len() && ps[k].index == i;
            assert(classify(args[ps[k].index as int]) == Ok::<Option<PredSource>, ()>(Some(ps[k].source)));
        }
    }
}

} // verus!

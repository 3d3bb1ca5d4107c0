use newer_type_core::emit::{Body, CallArg, Shape, TraitDef, TraitFn, TraitItem};
use newer_type_core::implement::{AssocValue, Container, ImplError, ImplOutput, Input, ItemOut};
use newer_type_core::leak::collect_leaks;
use newer_type_core::model::{GenericArg, GenericParam, Implementor, ParamKind};
use newer_type_core::params::FnArg;
use newer_type_core::predicate::Field;
use newer_type_core::syntax::{FreshKind, Name, Pat, Ty, TyList};

const NONCE: u64 = 1000;
const REGISTRATION: u64 = 77;

fn given(s: &str) -> Name {
    Name::Given(s.to_string())
}

fn ty(s: &str) -> Ty {
    Ty::Named { path: given(s), args: TyList::Nil }
}

fn ty_with(s: &str, args: Vec<Ty>) -> Ty {
    let mut l = TyList::Nil;
    for a in args.into_iter().rev() {
        l = TyList::Cons(Box::new(a), Box::new(l));
    }
    Ty::Named { path: given(s), args: l }
}

fn tuple_ty(args: Vec<Ty>) -> Ty {
    let mut l = TyList::Nil;
    for a in args.into_iter().rev() {
        l = TyList::Cons(Box::new(a), Box::new(l));
    }
    Ty::Tuple(l)
}

fn reference(t: Ty, mutable: bool) -> Ty {
    Ty::Ref { lifetime: None, mutable, elem: Box::new(t) }
}

fn recv(reference: bool, mutable: bool) -> FnArg {
    FnArg::Receiver { reference, mutable }
}

fn arg(name: &str, t: Ty) -> FnArg {
    FnArg::Typed { pat: Pat::Ident { by_ref: false, mutable: false, ident: given(name), subpat: None }, ty: t }
}

fn method(name: &str, inputs: Vec<FnArg>, output: Option<Ty>) -> TraitItem {
    TraitItem::Fn(TraitFn { ident: name.to_string(), generics: vec![], inputs, output })
}

fn tparam(name: &str) -> GenericParam {
    GenericParam { kind: ParamKind::Type, ident: given(name), bounds: TyList::Nil, default: None }
}

fn trait_def(name: &str, generics: Vec<GenericParam>, items: Vec<TraitItem>) -> TraitDef {
    TraitDef { ident: name.to_string(), unsafety: false, generics, supertraits: TyList::Nil, items }
}

fn spec(text: &str) -> Implementor {
    Implementor { text: text.to_string(), generics: vec![], path: text.to_string(), args: None, where_preds: TyList::Nil }
}

fn spec_args(text: &str, path: &str, args: Vec<GenericArg>) -> Implementor {
    Implementor {
        text: text.to_string(),
        generics: vec![],
        path: path.to_string(),
        args: Some(args),
        where_preds: TyList::Nil,
    }
}

fn field(name: Option<&str>, t: Ty, implements: Vec<Implementor>) -> Field {
    Field { ident: name.map(|s| s.to_string()), ty: t, implements }
}

fn strukt(name: &str, generics: Vec<GenericParam>, named: bool, fields: Vec<Field>) -> Container {
    Container { ident: name.to_string(), generics, where_preds: TyList::Nil, shape: Shape::Struct { named, fields } }
}

fn generate(implr: Implementor, adt: Container, tr: TraitDef) -> Result<ImplOutput, ImplError> {
    let table = collect_leaks(&tr);
    let input = Input { implementor: implr, adt, trait_def: tr, alternative: None, table, registration: REGISTRATION };
    input.implement_internal(NONCE)
}

fn pred(k: u64) -> Name {
    Name::Fresh { kind: FreshKind::PredParam, base: None, nonce: NONCE, n: k }
}

fn body_of(out: &ImplOutput, i: usize) -> &Body {
    match &out.items[i] {
        ItemOut::Fn(f) => &f.body,
        _ => panic!("not a method"),
    }
}

fn call_of(body: &Body) -> &Vec<CallArg> {
    match body {
        Body::Struct { call, .. } => call,
        Body::Enum { call, .. } => call,
    }
}

/// The value that the generated body hands the call to, given the values
/// of the fields of the (variant of the) container.
fn forwarded<T: Clone>(body: &Body, variant: usize, values: &[T]) -> T {
    match body {
        Body::Struct { field, .. } => values[*field].clone(),
        Body::Enum { arms, .. } => values[arms[variant]].clone(),
    }
}


fn lparam(name: &str) -> GenericParam {
    GenericParam { kind: ParamKind::Lifetime, ident: given(name), bounds: TyList::Nil, default: None }
}

fn method_g(name: &str, generics: Vec<GenericParam>, inputs: Vec<FnArg>, output: Option<Ty>) -> TraitItem {
    TraitItem::Fn(TraitFn { ident: name.to_string(), generics, inputs, output })
}

fn newtype(name: &str, inner: &str) -> Container {
    strukt(name, vec![], false, vec![field(None, ty(inner), vec![])])
}

fn fresh(kind: FreshKind, base: &str, nonce: u64) -> Name {
    Name::Fresh { kind, base: Some(base.to_string()), nonce, n: 0 }
}

fn named(n: Name) -> Ty {
    Ty::Named { path: n, args: TyList::Nil }
}

fn method_of(out: &ImplOutput, i: usize) -> &newer_type_core::emit::ImplFn {
    match &out.items[i] {
        ItemOut::Fn(f) => f,
        _ => panic!("not a method"),
    }
}

fn input_ty(out: &ImplOutput, i: usize, k: usize) -> &Ty {
    match &method_of(out, i).inputs[k] {
        FnArg::Typed { ty, .. } => ty,
        _ => panic!("typed parameter expected"),
    }
}

fn my_vec() -> Container {
    strukt("MyVec", vec![tparam("T")], false, vec![field(None, ty_with("Vec", vec![ty("T")]), vec![])])
}

fn my_string() -> Container {
    newtype("MyString", "String")
}

fn partial_eq() -> TraitDef {
    let rhs = GenericParam { kind: ParamKind::Type, ident: given("Rhs"), bounds: TyList::Nil, default: Some(Ty::SelfTy) };
    trait_def(
        "PartialEq",
        vec![rhs],
        vec![
            method("eq", vec![recv(true, false), arg("other", reference(ty("Rhs"), false))], Some(ty("bool"))),
            method("ne", vec![recv(true, false), arg("other", reference(ty("Rhs"), false))], Some(ty("bool"))),
        ],
    )
}

fn ordering() -> Ty {
    ty("::core::cmp::Ordering")
}

/// Compares two containers through the generated body: both self-shaped
/// parameters are projected to their predicate field.
fn compare<T: Clone, R>(out: &ImplOutput, item: usize, a: &[T], b: &[T], op: impl Fn(&T, &T) -> R) -> R {
    let body = body_of(out, item);
    op(&forwarded(body, 0, a), &forwarded(body, 0, b))
}

#[test]
fn std_trait_test_into_iterator() {
    let tr = trait_def(
        "IntoIterator",
        vec![],
        vec![
            TraitItem::Type { ident: "Item".to_string(), generics: vec![], where_preds: TyList::Nil },
            TraitItem::Type { ident: "IntoIter".to_string(), generics: vec![], where_preds: TyList::Nil },
            method("into_iter", vec![recv(false, false)], Some(Ty::SelfAssoc("IntoIter".to_string()))),
        ],
    );
    let out = generate(spec("IntoIterator"), my_vec(), tr).unwrap();
    assert_eq!(out.items.len(), 3);
    let collected: Vec<i32> = forwarded(body_of(&out, 2), 0, &[vec![1, 2, 3]]).into_iter().collect();
    assert_eq!(collected, vec![1, 2, 3]);
}

#[test]
fn test_extend() {
    let tr = trait_def(
        "Extend",
        vec![tparam("A")],
        vec![method_g(
            "extend",
            vec![GenericParam {
                kind: ParamKind::Type,
                ident: given("T"),
                bounds: TyList::Cons(
                    Box::new(ty_with("IntoIterator", vec![Ty::AssocEq { name: "Item".to_string(), ty: Box::new(ty("A")) }])),
                    Box::new(TyList::Nil),
                ),
                default: None,
            }],
            vec![recv(true, true), arg("iter", ty("T"))],
            None,
        )],
    );
    let implr = spec_args("Extend<T>", "Extend", vec![GenericArg::Type(ty("T"))]);
    let out = generate(implr, my_vec(), tr).unwrap();
    // the container's `T` was renamed apart, so the method's own `T` is untouched
    let renamed = fresh(FreshKind::TypeParam, "T", NONCE + 1);
    assert_eq!(out.trait_args, vec![GenericArg::Type(named(renamed.copy()))]);
    assert_eq!(*input_ty(&out, 0, 1), ty("T"));
    // `I: IntoIterator<Item = A>` keeps its bound, with `A` bound to the container's renamed `T`
    let f = method_of(&out, 0);
    assert_eq!(
        f.generics[0].bounds,
        TyList::Cons(
            Box::new(ty_with("IntoIterator", vec![Ty::AssocEq { name: "Item".to_string(), ty: Box::new(named(renamed)) }])),
            Box::new(TyList::Nil)
        )
    );
    assert_eq!(forwarded(body_of(&out, 0), 0, &[vec![1, 2]]), vec![1, 2]);
}

#[test]
fn std_trait_test_partial_eq() {
    let out = generate(spec("PartialEq"), my_vec(), partial_eq()).unwrap();
    let a = [vec![1, 2, 3]];
    let b = [vec![1, 2, 3]];
    let c = [vec![1, 2, 4]];
    assert!(compare(&out, 0, &a, &b, |x, y| x == y));
    assert!(compare(&out, 1, &a, &c, |x, y| x != y));
}

#[test]
fn std_trait_test_partial_ord() {
    let tr = trait_def(
        "PartialOrd",
        vec![GenericParam { kind: ParamKind::Type, ident: given("Rhs"), bounds: TyList::Nil, default: Some(Ty::SelfTy) }],
        vec![method(
            "partial_cmp",
            vec![recv(true, false), arg("other", reference(ty("Rhs"), false))],
            Some(ty_with("Option", vec![ordering()])),
        )],
    );
    assert!(collect_leaks(&tr).is_empty());
    let out = generate(spec("PartialOrd"), my_vec(), tr).unwrap();
    assert!(compare(&out, 0, &[vec![1, 2, 3]], &[vec![1, 2, 4]], |x, y| x < y));
}

#[test]
fn std_trait_test_partial_eq2() {
    let out = generate(spec("PartialEq"), my_string(), partial_eq()).unwrap();
    let a = ["abc".to_string()];
    let b = ["abc".to_string()];
    let c = ["xyz".to_string()];
    assert!(compare(&out, 0, &a, &b, |x, y| x == y));
    assert!(compare(&out, 1, &a, &c, |x, y| x != y));
}

#[test]
fn std_trait_test_ord() {
    let tr = trait_def(
        "Ord",
        vec![],
        vec![method("cmp", vec![recv(true, false), arg("other", reference(Ty::SelfTy, false))], Some(ordering()))],
    );
    let out = generate(spec("Ord"), my_string(), tr).unwrap();
    let a = ["apple".to_string()];
    let b = ["banana".to_string()];
    assert!(compare(&out, 0, &a, &b, |x, y| x < y));
}

use newer_type_core::emit::{TraitDef, TraitFn, TraitItem};
use newer_type_core::generics::{
    bind_trait_generics, filter_generics, merge_generic_params, rename_params, substitute_ty, BindError,
};
use newer_type_core::leak::{collect_leaks, emit_repeater_impl, route_ty};
use newer_type_core::model::{GenericArg, GenericParam, Implementor, ParamKind};
use newer_type_core::params::{update_pat_names, FnArg};
use newer_type_core::predicate::{find_pred_field, Field, PredicateError};
use newer_type_core::syntax::{FreshKind, GroupKind, Name, Pat, PatList, Ty, TyList};
use newer_type_core::target::{target, ArgError, Argument, TargetError, Tok};

fn given(s: &str) -> Name {
    Name::Given(s.to_string())
}

fn ty(s: &str) -> Ty {
    Ty::Named { path: given(s), args: TyList::Nil }
}

fn param(kind: ParamKind, s: &str) -> GenericParam {
    GenericParam { kind, ident: given(s), bounds: TyList::Nil, default: None }
}

fn spec(text: &str) -> Implementor {
    Implementor { text: text.to_string(), generics: vec![], path: text.to_string(), args: None, where_preds: TyList::Nil }
}

fn field(name: Option<&str>, implements: Vec<Implementor>) -> Field {
    Field { ident: name.map(|s| s.to_string()), ty: ty("i32"), implements }
}

fn strip(n: &Name) -> Name {
    match n {
        Name::Fresh { kind, base, n, .. } => Name::Fresh { kind: *kind, base: base.clone(), nonce: 0, n: *n },
        Name::Given(s) => Name::Given(s.clone()),
    }
}

#[test]
fn renaming_differs_only_in_nonce() {
    let ps = vec![param(ParamKind::Lifetime, "'a"), param(ParamKind::Type, "T"), param(ParamKind::Const, "N")];
    let (a, _) = rename_params(&ps, 1);
    let (b, _) = rename_params(&ps, 2);
    assert_ne!(a, b);
    for (x, y) in a.iter().zip(b.iter()) {
        assert_eq!(x.kind, y.kind);
        assert_eq!(strip(&x.ident), strip(&y.ident));
    }
    // same nonce, same output
    assert_eq!(rename_params(&ps, 1).0, a);
    assert_eq!(a[0].ident, Name::Fresh { kind: FreshKind::Lifetime, base: Some("'a".to_string()), nonce: 1, n: 0 });
    assert_eq!(a[2].ident, Name::Fresh { kind: FreshKind::TypeParam, base: Some("N".to_string()), nonce: 1, n: 0 });
}

#[test]
fn wildcard_names_differ_only_in_nonce() {
    let p = Pat::Group {
        kind: GroupKind::TupleStruct,
        path: Some("Point".to_string()),
        elems: PatList::Cons { member: None, pat: Box::new(Pat::Wild), rest: Box::new(PatList::Nil) },
    };
    let (a, ca) = update_pat_names(&p, 10, 0).unwrap();
    let (b, cb) = update_pat_names(&p, 20, 0).unwrap();
    assert_eq!(ca, cb);
    assert_ne!(a, b);
}

#[test]
fn two_plain_fields_are_ambiguous() {
    let fields = vec![field(Some("x"), vec![]), field(Some("y"), vec![])];
    assert_eq!(
        find_pred_field(&spec("T"), &fields),
        Err(PredicateError::Ambiguous { count: 2, first: 0, second: 1 })
    );
}

#[test]
fn three_plain_fields_report_count() {
    let fields = vec![field(Some("x"), vec![]), field(Some("y"), vec![]), field(Some("z"), vec![])];
    assert_eq!(
        find_pred_field(&spec("T"), &fields),
        Err(PredicateError::Ambiguous { count: 3, first: 0, second: 1 })
    );
}

#[test]
fn underscore_fields_are_ignored() {
    let fields = vec![field(Some("_skip"), vec![]), field(Some("inner"), vec![]), field(Some("_other"), vec![])];
    assert_eq!(find_pred_field(&spec("T"), &fields), Ok(1));
}

#[test]
fn annotation_wins_over_names() {
    let fields = vec![field(Some("a"), vec![]), field(Some("b"), vec![spec("Other"), spec("T")])];
    assert_eq!(find_pred_field(&spec("T"), &fields), Ok(1));
    let twice = vec![field(Some("a"), vec![spec("T")]), field(Some("b"), vec![spec("T")])];
    assert_eq!(
        find_pred_field(&spec("T"), &twice),
        Err(PredicateError::Ambiguous { count: 2, first: 0, second: 1 })
    );
}

#[test]
fn no_fields_means_no_predicate() {
    assert_eq!(find_pred_field(&spec("T"), &vec![]), Err(PredicateError::NoPredicate { empty: true }));
    let positional = vec![field(None, vec![]), field(None, vec![])];
    assert_eq!(find_pred_field(&spec("T"), &positional), Err(PredicateError::NoPredicate { empty: false }));
    assert_eq!(find_pred_field(&spec("T"), &vec![field(None, vec![])]), Ok(0));
}

#[test]
fn merged_generics_are_ordered() {
    let a = vec![param(ParamKind::Type, "T"), param(ParamKind::Lifetime, "'a"), param(ParamKind::Const, "N")];
    let b = vec![param(ParamKind::Const, "M"), param(ParamKind::Type, "U"), param(ParamKind::Lifetime, "'b")];
    let m = merge_generic_params(&a, &b);
    let names: Vec<Name> = m.iter().map(|p| p.ident.copy()).collect();
    assert_eq!(names, vec![given("'a"), given("'b"), given("N"), given("M"), given("T"), given("U")]);
}

#[test]
fn binding_replaces_parameter_by_argument() {
    let params = vec![param(ParamKind::Type, "T")];
    let map = bind_trait_generics(&params, &vec![GenericArg::Type(ty("i32"))]).unwrap();
    let vec_t = Ty::Named { path: given("Vec"), args: TyList::Cons(Box::new(ty("T")), Box::new(TyList::Nil)) };
    let vec_i32 = Ty::Named { path: given("Vec"), args: TyList::Cons(Box::new(ty("i32")), Box::new(TyList::Nil)) };
    assert_eq!(substitute_ty(&vec_t, &map), vec_i32);
    assert_eq!(substitute_ty(&ty("T"), &map), ty("i32"));
    // a nested item that declares `T` again hides the binding
    let hidden = filter_generics(&map, &vec![param(ParamKind::Type, "T")]);
    assert!(hidden.is_empty());
    assert_eq!(substitute_ty(&ty("T"), &hidden), ty("T"));
    assert_eq!(
        bind_trait_generics(&vec![param(ParamKind::Const, "N")], &vec![GenericArg::Type(ty("i32"))]),
        Err(BindError::Mismatch { index: 0 })
    );
}

fn leaky_trait() -> TraitDef {
    TraitDef {
        ident: "MyTrait".to_string(),
        unsafety: false,
        generics: vec![param(ParamKind::Type, "T")],
        supertraits: TyList::Nil,
        items: vec![TraitItem::Fn(TraitFn {
            ident: "my_fn".to_string(),
            generics: vec![],
            inputs: vec![
                FnArg::Receiver { reference: true, mutable: false },
                FnArg::Typed {
                    pat: Pat::Ident { by_ref: false, mutable: false, ident: given("t"), subpat: None },
                    ty: ty("TypeFromContext"),
                },
                FnArg::Typed {
                    pat: Pat::Ident { by_ref: false, mutable: false, ident: given("u"), subpat: None },
                    ty: ty("T"),
                },
            ],
            output: Some(Ty::Named {
                path: given("Box"),
                args: TyList::Cons(Box::new(ty("TypeFromContext")), Box::new(TyList::Nil)),
            }),
        })],
    }
}

#[test]
fn leak_indices_are_stable_across_registrations() {
    let tr = leaky_trait();
    let first = collect_leaks(&tr);
    let second = collect_leaks(&leaky_trait());
    // one entry, found twice but kept once; `T` and `Box` are not leaked
    assert_eq!(first, vec![ty("TypeFromContext")]);
    assert_eq!(first, second);
    let r1 = emit_repeater_impl(&first, 111);
    let r2 = emit_repeater_impl(&second, 222);
    assert_eq!(r1[0].ty, r2[0].ty);
    assert_eq!(r1[0].index, r2[0].index);
    assert_eq!(route_ty(&ty("TypeFromContext"), &first, &tr.generics, 111), Ty::Leaked { nonce: 111, index: 0 });
    assert_eq!(route_ty(&ty("TypeFromContext"), &second, &tr.generics, 222), Ty::Leaked { nonce: 222, index: 0 });
    assert_eq!(route_ty(&ty("T"), &first, &tr.generics, 111), ty("T"));
}

fn toks(parts: &[&str]) -> Vec<Tok> {
    parts
        .iter()
        .map(|p| match *p {
            "=" => Tok::Punct('='),
            "," => Tok::Punct(','),
            ":" => Tok::Punct(':'),
            "<" => Tok::Punct('<'),
            ">" => Tok::Punct('>'),
            s => Tok::Ident(s.to_string()),
        })
        .collect()
}

#[test]
fn registration_arguments_parse() {
    let a = Argument::parse(&toks(&["repeater", "=", "Repeater"])).unwrap();
    assert_eq!(a.repeater, Some(vec![Tok::Ident("Repeater".to_string())]));
    assert_eq!(a.alternative, None);
    let b = Argument::parse(&toks(&[
        "alternative", "=", ":", ":", "std", ":", ":", "string", ":", ":", "ToString", ",", "newer_type", "=", ":", ":",
        "newer_type", ",", "repeater", "=", "Repeater", ",",
    ]))
    .unwrap();
    assert_eq!(b.alternative.unwrap().len(), 9);
    assert_eq!(b.newer_type.unwrap().len(), 3);
    assert!(b.repeater.is_some());
    assert!(Argument::parse(&vec![]).unwrap().implementor.is_none());
}

#[test]
fn malformed_registration_arguments_are_refused() {
    assert_eq!(Argument::parse(&toks(&["colour", "=", "Red"])).unwrap_err(), ArgError::UnknownKey { pos: 0 });
    assert_eq!(Argument::parse(&toks(&["repeater", "Repeater"])).unwrap_err(), ArgError::ExpectedEq { pos: 1 });
    assert_eq!(Argument::parse(&toks(&["repeater", "=", ","])).unwrap_err(), ArgError::BadValue { pos: 2 });
    assert_eq!(Argument::parse(&toks(&["=", "x"])).unwrap_err(), ArgError::ExpectedKey { pos: 0 });
    // a missing comma between two options
    assert_eq!(
        Argument::parse(&toks(&["alternative", "=", "A", "repeater", "=", "R"])).unwrap_err(),
        ArgError::ExpectedComma { pos: 3 }
    );
    // a value that is no path
    let lit = vec![Tok::Ident("repeater".to_string()), Tok::Punct('='), Tok::Literal("1".to_string())];
    assert_eq!(Argument::parse(&lit).unwrap_err(), ArgError::BadValue { pos: 2 });
    // generic arguments may hold commas
    let generic = toks(&["implementor", "=", "Implementor", "<", "A", ",", "B", ">"]);
    assert_eq!(Argument::parse(&generic).unwrap().implementor.unwrap().len(), 6);
    let unclosed = toks(&["implementor", "=", "Implementor", "<", "A"]);
    assert_eq!(Argument::parse(&unclosed).unwrap_err(), ArgError::BadValue { pos: 2 });
}

#[test]
fn leaked_types_need_a_repeater() {
    let none = Argument { alternative: None, newer_type: None, repeater: None, implementor: None };
    assert_eq!(target(&none, leaky_trait(), 9).unwrap_err(), TargetError::MissingLeakArgument);
    let with = Argument { alternative: None, newer_type: None, repeater: Some(toks(&["Repeater"])), implementor: None };
    let out = target(&with, leaky_trait(), 9).unwrap();
    assert_eq!(out.repeaters.len(), 1);
    assert_eq!(out.repeaters[0].nonce, 9);
    assert_eq!(out.public_trait, leaky_trait());
    assert!(out.alternative_args.is_none());
}

#[test]
fn alternative_makes_trait_unsafe_and_empty() {
    let tr = TraitDef {
        ident: "ToString".to_string(),
        unsafety: false,
        generics: vec![param(ParamKind::Type, "T")],
        supertraits: TyList::Nil,
        items: vec![],
    };
    let arg = Argument { alternative: Some(toks(&["ToString"])), newer_type: None, repeater: None, implementor: None };
    let out = target(&arg, tr, 3).unwrap();
    assert!(out.public_trait.unsafety);
    assert!(out.public_trait.items.is_empty());
    assert_eq!(out.alternative_args, Some(vec![GenericArg::Type(ty("T"))]));
}

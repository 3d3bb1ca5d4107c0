use newer_type_core::emit::{Body, CallArg, Shape, TraitDef, TraitFn, TraitItem};
use newer_type_core::implement::{AssocValue, Container, ImplError, ImplOutput, Input, ItemOut};
use newer_type_core::leak::collect_leaks;
use newer_type_core::model::{GenericArg, GenericParam, Implementor, ParamKind};
use newer_type_core::params::FnArg;
use newer_type_core::predicate::Field;
use newer_type_core::syntax::{FreshKind, Name, Pat, Text, Ty, TyList};
use newer_type_core::implement::WherePred;

const NONCE: u64 = 1000;
const REGISTRATION: u64 = 77;

fn given(s: &str) -> Name {
    Name::Given(s.to_string())
}

fn ty(s: &str) -> Ty {
    Ty::Named { path: given(s), args: TyList::Nil }
}

fn ty_with(s: &str, args: Vec<Ty>) -> Ty {
    let mut l = TyList::Nil;
    for a in args.into_iter().rev() {
        l = TyList::Cons(Box::new(a), Box::new(l));
    }
    Ty::Named { path: given(s), args: l }
}

fn tuple_ty(args: Vec<Ty>) -> Ty {
    let mut l = TyList::Nil;
    for a in args.into_iter().rev() {
        l = TyList::Cons(Box::new(a), Box::new(l));
    }
    Ty::Tuple(l)
}

fn reference(t: Ty, mutable: bool) -> Ty {
    Ty::Ref { lifetime: None, mutable, elem: Box::new(t) }
}

fn recv(reference: bool, mutable: bool) -> FnArg {
    FnArg::Receiver { reference, mutable }
}

fn arg(name: &str, t: Ty) -> FnArg {
    FnArg::Typed { pat: Pat::Ident { by_ref: false, mutable: false, ident: given(name), subpat: None }, ty: t }
}

fn method(name: &str, inputs: Vec<FnArg>, output: Option<Ty>) -> TraitItem {
    TraitItem::Fn(TraitFn { ident: name.to_string(), generics: vec![], inputs, output })
}

fn tparam(name: &str) -> GenericParam {
    GenericParam { kind: ParamKind::Type, ident: given(name), bounds: TyList::Nil, default: None }
}

fn trait_def(name: &str, generics: Vec<GenericParam>, items: Vec<TraitItem>) -> TraitDef {
    TraitDef { ident: name.to_string(), unsafety: false, generics, supertraits: TyList::Nil, items }
}

fn spec(text: &str) -> Implementor {
    Implementor { text: text.to_string(), generics: vec![], path: text.to_string(), args: None, where_preds: TyList::Nil }
}

fn spec_args(text: &str, path: &str, args: Vec<GenericArg>) -> Implementor {
    Implementor {
        text: text.to_string(),
        generics: vec![],
        path: path.to_string(),
        args: Some(args),
        where_preds: TyList::Nil,
    }
}

fn field(name: Option<&str>, t: Ty, implements: Vec<Implementor>) -> Field {
    Field { ident: name.map(|s| s.to_string()), ty: t, implements }
}

fn strukt(name: &str, generics: Vec<GenericParam>, named: bool, fields: Vec<Field>) -> Container {
    Container { ident: name.to_string(), generics, where_preds: TyList::Nil, shape: Shape::Struct { named, fields } }
}

fn generate(implr: Implementor, adt: Container, tr: TraitDef) -> Result<ImplOutput, ImplError> {
    let table = collect_leaks(&tr);
    let input = Input { implementor: implr, adt, trait_def: tr, alternative: None, table, registration: REGISTRATION };
    input.implement_internal(NONCE)
}

fn pred(k: u64) -> Name {
    Name::Fresh { kind: FreshKind::PredParam, base: None, nonce: NONCE, n: k }
}

fn body_of(out: &ImplOutput, i: usize) -> &Body {
    match &out.items[i] {
        ItemOut::Fn(f) => &f.body,
        _ => panic!("not a method"),
    }
}

fn call_of(body: &Body) -> &Vec<CallArg> {
    match body {
        Body::Struct { call, .. } => call,
        Body::Enum { call, .. } => call,
    }
}

/// The value that the generated body hands the call to, given the values
/// of the fields of the (variant of the) container.
fn forwarded<T: Clone>(body: &Body, variant: usize, values: &[T]) -> T {
    match body {
        Body::Struct { field, .. } => values[*field].clone(),
        Body::Enum { arms, .. } => values[arms[variant]].clone(),
    }
}


fn lparam(name: &str) -> GenericParam {
    GenericParam { kind: ParamKind::Lifetime, ident: given(name), bounds: TyList::Nil, default: None }
}

fn method_g(name: &str, generics: Vec<GenericParam>, inputs: Vec<FnArg>, output: Option<Ty>) -> TraitItem {
    TraitItem::Fn(TraitFn { ident: name.to_string(), generics, inputs, output })
}

fn newtype(name: &str, inner: &str) -> Container {
    strukt(name, vec![], false, vec![field(None, ty(inner), vec![])])
}

fn fresh(kind: FreshKind, base: &str, nonce: u64) -> Name {
    Name::Fresh { kind, base: Some(base.to_string()), nonce, n: 0 }
}

fn named(n: Name) -> Ty {
    Ty::Named { path: n, args: TyList::Nil }
}

fn method_of(out: &ImplOutput, i: usize) -> &newer_type_core::emit::ImplFn {
    match &out.items[i] {
        ItemOut::Fn(f) => f,
        _ => panic!("not a method"),
    }
}

fn input_ty(out: &ImplOutput, i: usize, k: usize) -> &Ty {
    match &method_of(out, i).inputs[k] {
        FnArg::Typed { ty, .. } => ty,
        _ => panic!("typed parameter expected"),
    }
}

/// `name: Clone`, a where-predicate kept as text with `name` as its hole.
fn clone_bound(name: &str) -> Ty {
    Ty::Opaque(Text::Hole {
        before: String::new(),
        hole: Box::new(ty(name)),
        rest: Box::new(Text::Last(": Clone".to_string())),
    })
}

/// `pred: path<args>`, the bound the generated where-clause puts on a predicate type.
fn pred_bound(pred: &str, path: &str, args: Vec<Ty>) -> WherePred {
    WherePred::Bound { bounded: ty(pred), bound: ty_with(path, args) }
}

fn i32_spec(name: &str) -> Implementor {
    spec_args(&format!("{}<i32>", name), name, vec![GenericArg::Type(ty("i32"))])
}

#[test]
fn test_basic_trait() {
    let tr = trait_def(
        "BasicTrait",
        vec![],
        vec![
            method("get_number", vec![recv(true, false)], Some(ty("i32"))),
            method("double_number", vec![recv(true, false)], Some(ty("i32"))),
        ],
    );
    let out = generate(spec("BasicTrait"), newtype("BasicNewType", "BasicType"), tr).unwrap();
    assert_eq!(out.items.len(), 2);
    assert_eq!(forwarded(body_of(&out, 0), 0, &[10]), 10);
    assert_eq!(forwarded(body_of(&out, 1), 0, &[10]) * 2, 20);
}

#[test]
fn test_generic_trait() {
    let tr = trait_def(
        "GenericTrait",
        vec![tparam("T")],
        vec![method("process", vec![recv(true, false), arg("input", ty("T"))], Some(ty("T")))],
    );
    let out = generate(i32_spec("GenericTrait"), newtype("GenericNewType", "BasicType"), tr).unwrap();
    assert_eq!(*input_ty(&out, 0, 1), ty("i32"));
    assert_eq!(method_of(&out, 0).output, Some(ty("i32")));
    let call = call_of(body_of(&out, 0));
    assert_eq!(call.len(), 2);
    assert_eq!(call[1], CallArg::Pat(Pat::Ident { by_ref: false, mutable: false, ident: given("input"), subpat: None }));
    assert_eq!(forwarded(body_of(&out, 0), 0, &[5]) + 10, 15);
}

#[test]
fn test_advanced_trait() {
    let tr = trait_def(
        "AdvancedTrait",
        vec![tparam("T")],
        vec![method_g(
            "compute",
            vec![tparam("U")],
            vec![recv(true, false), arg("value", ty("T")), arg("extra", ty("U"))],
            Some(tuple_ty(vec![ty("T"), ty("U")])),
        )],
    );
    // the method's own parameter is no leaked type
    assert!(collect_leaks(&tr).is_empty());
    let out = generate(i32_spec("AdvancedTrait"), newtype("AdvancedNewType", "BasicType"), tr).unwrap();
    let f = method_of(&out, 0);
    assert_eq!(f.generics, vec![tparam("U")]);
    assert_eq!(f.output, Some(tuple_ty(vec![ty("i32"), ty("U")])));
    let v = forwarded(body_of(&out, 0), 0, &[7]);
    assert_eq!((v + 3, "extra"), (10, "extra"));
}

#[test]
fn test3_test_complex_trait() {
    let tr = trait_def(
        "ComplexTrait",
        vec![tparam("T")],
        vec![method("describe", vec![recv(true, false), arg("item", ty("T"))], Some(ty("::std::string::String")))],
    );
    assert!(collect_leaks(&tr).is_empty());
    let implr = spec_args("ComplexTrait<String>", "ComplexTrait", vec![GenericArg::Type(ty("String"))]);
    let out = generate(implr, newtype("ComplexNewType", "BasicType"), tr).unwrap();
    assert_eq!(*input_ty(&out, 0, 1), ty("String"));
    let v = forwarded(body_of(&out, 0), 0, &[42]);
    assert_eq!(format!("Value: {}, Extra: {}", v, "test"), "Value: 42, Extra: test");
}

#[test]
fn test_ultimate_trait() {
    let tr = trait_def(
        "UltimateTrait",
        vec![tparam("T"), tparam("U")],
        vec![method(
            "combine",
            vec![recv(true, false), arg("a", ty("T")), arg("b", ty("U"))],
            Some(tuple_ty(vec![ty("T"), ty("bool")])),
        )],
    );
    let implr = spec_args(
        "UltimateTrait<String, i32>",
        "UltimateTrait",
        vec![GenericArg::Type(ty("String")), GenericArg::Type(ty("i32"))],
    );
    let out = generate(implr, newtype("UltimateNewType", "BasicType"), tr).unwrap();
    assert_eq!(*input_ty(&out, 0, 1), ty("String"));
    assert_eq!(*input_ty(&out, 0, 2), ty("i32"));
    let v = forwarded(body_of(&out, 0), 0, &[99]);
    assert_eq!((format!("{}-{}", "Hello", v), v == 99), ("Hello-99".to_string(), true));
}

fn free_param_spec(text: &str, path: &str, generics: Vec<GenericParam>, args: Vec<GenericArg>) -> Implementor {
    Implementor {
        text: text.to_string(),
        generics,
        path: path.to_string(),
        args: Some(args),
        where_preds: TyList::Cons(Box::new(clone_bound("A")), Box::new(TyList::Nil)),
    }
}

#[test]
fn test_free_param_trait() {
    let tr = trait_def(
        "FreeParamTrait",
        vec![lparam("'a"), tparam("A"), tparam("B")],
        vec![method(
            "complex_method",
            vec![recv(true, false), arg("input", Ty::Ref { lifetime: Some(given("'a")), mutable: false, elem: Box::new(ty("A")) })],
            Some(ty("B")),
        )],
    );
    let implr = free_param_spec(
        "for<'a, A> FreeParamTrait<'a, A, u32> where A: Clone",
        "FreeParamTrait",
        vec![lparam("'a"), tparam("A")],
        vec![GenericArg::Lifetime(given("'a")), GenericArg::Type(ty("A")), GenericArg::Type(ty("u32"))],
    );
    let out = generate(implr, newtype("FreeParamNewType", "BasicType"), tr).unwrap();
    let lt = fresh(FreshKind::Lifetime, "'a", NONCE);
    let a = fresh(FreshKind::TypeParam, "A", NONCE);
    assert_eq!(out.generics.len(), 2);
    assert_eq!(out.generics[0].ident, lt);
    assert_eq!(out.generics[1].ident, a);
    assert_eq!(
        *input_ty(&out, 0, 1),
        Ty::Ref { lifetime: Some(lt.copy()), mutable: false, elem: Box::new(named(a.copy())) }
    );
    assert_eq!(method_of(&out, 0).output, Some(ty("u32")));
    assert_eq!(forwarded(body_of(&out, 0), 0, &[50]) + 1, 51);
    // the specification's `where A: Clone` names the renamed parameter
    assert_eq!(out.where_preds[0], WherePred::Written(Ty::Opaque(Text::Hole {
        before: String::new(),
        hole: Box::new(named(a.copy())),
        rest: Box::new(Text::Last(": Clone".to_string())),
    })));
    assert_eq!(
        out.where_preds[1],
        WherePred::Bound {
            bounded: ty("BasicType"),
            bound: ty_with("FreeParamTrait", vec![Ty::Lifetime(lt), named(a), ty("u32")])
        }
    );
}

#[test]
fn test_advanced_free_param_trait() {
    let tr = trait_def(
        "AdvancedFreeParam",
        vec![lparam("'a"), tparam("A"), tparam("B"), tparam("C")],
        vec![method(
            "advanced_method",
            vec![
                recv(true, false),
                arg("input", Ty::Ref { lifetime: Some(given("'a")), mutable: false, elem: Box::new(ty("A")) }),
                arg("flag", ty("B")),
            ],
            Some(ty("C")),
        )],
    );
    let implr = free_param_spec(
        "for<'a, A, B> AdvancedFreeParam<'a, A, B, String> where A: Clone + Debug, B: PartialEq<i32>",
        "AdvancedFreeParam",
        vec![lparam("'a"), tparam("A"), tparam("B")],
        vec![
            GenericArg::Lifetime(given("'a")),
            GenericArg::Type(ty("A")),
            GenericArg::Type(ty("B")),
            GenericArg::Type(ty("String")),
        ],
    );
    let out = generate(implr, newtype("AdvancedFreeParamNewType", "BasicType"), tr).unwrap();
    assert_eq!(out.generics.len(), 3);
    assert_eq!(*input_ty(&out, 0, 2), named(fresh(FreshKind::TypeParam, "B", NONCE)));
    assert_eq!(method_of(&out, 0).output, Some(ty("String")));
    let v = forwarded(body_of(&out, 0), 0, &[42]);
    let run = |flag: i32| if flag == v { format!("Matched: {:?}", "complex") } else { "No Match".to_string() };
    assert_eq!(run(42), "Matched: \"complex\"");
    assert_eq!(run(100), "No Match");
}

#[test]
fn test_function_pointer_trait() {
    let tr = trait_def(
        "FunctionPointerTrait",
        vec![],
        vec![method("apply_fn", vec![recv(true, false), arg("f", Ty::Opaque(Text::Last("fn(i32) -> i32".to_string())))], Some(ty("i32")))],
    );
    let out = generate(spec("FunctionPointerTrait"), newtype("FunctionPointerNewType", "BasicType"), tr).unwrap();
    assert_eq!(*input_ty(&out, 0, 1), Ty::Opaque(Text::Last("fn(i32) -> i32".to_string())));
    let f = |x: i32| x * 2;
    assert_eq!(f(forwarded(body_of(&out, 0), 0, &[5])), 10);
}

#[test]
fn test_associated_type_trait() {
    let tr = trait_def(
        "AssociatedTypeTrait",
        vec![],
        vec![
            TraitItem::Type { ident: "Output".to_string(), generics: vec![], where_preds: TyList::Nil },
            method("compute", vec![recv(true, false)], Some(Ty::SelfAssoc("Output".to_string()))),
        ],
    );
    let out = generate(spec("AssociatedTypeTrait"), newtype("AssociatedTypeNewType", "BasicType"), tr).unwrap();
    match &out.items[0] {
        ItemOut::Type { ident, value, .. } => {
            assert_eq!(ident, "Output");
            assert_eq!(*value, AssocValue::Forward);
        },
        _ => panic!("associated type expected"),
    }
    assert_eq!(forwarded(body_of(&out, 1), 0, &[6]) * 2, 12);
}

#[test]
fn test_mutating_trait() {
    let tr = trait_def("MutatingTrait", vec![], vec![method("increment", vec![recv(true, true)], None)]);
    let out = generate(spec("MutatingTrait"), newtype("MutatingNewType", "BasicType"), tr).unwrap();
    assert_eq!(method_of(&out, 0).inputs[0], FnArg::Receiver { reference: true, mutable: true });
    let mut values = [10];
    let k = match body_of(&out, 0) {
        Body::Struct { field, .. } => *field,
        _ => panic!("struct body expected"),
    };
    values[k] += 1;
    assert_eq!(values[0], 11);
}

#[test]
fn test_complex_constraint_trait() {
    let tr = trait_def(
        "ComplexConstraintTrait",
        vec![tparam("T")],
        vec![method("process_item", vec![recv(true, false), arg("item", ty("T"))], Some(ty("T")))],
    );
    let implr = spec_args("ComplexConstraintTrait<String>", "ComplexConstraintTrait", vec![GenericArg::Type(ty("String"))]);
    let out = generate(implr, newtype("ComplexConstraintNewType", "BasicType"), tr).unwrap();
    assert_eq!(method_of(&out, 0).output, Some(ty("String")));
    assert_eq!(*input_ty(&out, 0, 1), ty("String"));
    assert_eq!(out.where_preds, vec![pred_bound("BasicType", "ComplexConstraintTrait", vec![ty("String")])]);
}

#[test]
fn test_associated_const_trait() {
    let tr = trait_def(
        "AssociatedConstTrait",
        vec![],
        vec![
            TraitItem::Const { ident: "VALUE".to_string(), ty: ty("i32") },
            method("get_const_value", vec![recv(true, false)], Some(ty("i32"))),
        ],
    );
    let out = generate(spec("AssociatedConstTrait"), newtype("AssociatedConstNewType", "BasicType"), tr).unwrap();
    match &out.items[0] {
        ItemOut::Const { ident, ty: t } => {
            assert_eq!(ident, "VALUE");
            assert_eq!(*t, ty("i32"));
        },
        _ => panic!("associated const expected"),
    }
    // const VALUE: i32 = <BasicType as AssociatedConstTrait>::VALUE;
    assert_eq!(out.pred_tys, vec![ty("BasicType")]);
    assert_eq!(out.where_preds, vec![pred_bound("BasicType", "AssociatedConstTrait", vec![])]);
    assert_eq!(forwarded(body_of(&out, 1), 0, &[100]), 100);
}

fn assoc_trait(name: &str, generics: Vec<GenericParam>, const_ty: Ty, input: Ty, output: Ty) -> TraitDef {
    trait_def(
        name,
        generics,
        vec![
            TraitItem::Const { ident: "SCALE".to_string(), ty: const_ty },
            TraitItem::Type { ident: "Output".to_string(), generics: vec![], where_preds: TyList::Nil },
            method("compute", vec![recv(true, false), arg("input", input)], Some(output)),
        ],
    )
}

#[test]
fn test4_test_complex_trait() {
    let tr = assoc_trait("ComplexTrait", vec![], ty("i32"), ty("i32"), Ty::SelfAssoc("Output".to_string()));
    let out = generate(spec("ComplexTrait"), newtype("ComplexNewType", "AdvancedType"), tr).unwrap();
    assert_eq!(out.items.len(), 3);
    let scale = 10;
    assert_eq!(forwarded(body_of(&out, 2), 0, &[5]) + 3 * scale, 35);
    assert_eq!(out.items[0], ItemOut::Const { ident: "SCALE".to_string(), ty: ty("i32") });
}

#[test]
fn test_multi_assoc_trait() {
    let tr = assoc_trait("MultiAssocTrait", vec![tparam("T")], ty("T"), ty("T"), Ty::SelfAssoc("Output".to_string()));
    let out = generate(i32_spec("MultiAssocTrait"), newtype("MultiAssocNewType", "AdvancedType"), tr).unwrap();
    match &out.items[0] {
        ItemOut::Const { ty: t, .. } => assert_eq!(*t, ty("i32")),
        _ => panic!("associated const expected"),
    }
    assert_eq!(*input_ty(&out, 2, 1), ty("i32"));
    let factor = 2;
    assert_eq!(forwarded(body_of(&out, 2), 0, &[4]) * 5 * factor, 40);
}

#[test]
fn test_constrained_trait() {
    let tr = assoc_trait("ConstrainedTrait", vec![tparam("T")], ty("usize"), ty("T"), Ty::SelfAssoc("Output".to_string()));
    let implr = spec_args("ConstrainedTrait<String>", "ConstrainedTrait", vec![GenericArg::Type(ty("String"))]);
    let out = generate(implr, newtype("ConstrainedNewType", "AdvancedType"), tr).unwrap();
    assert_eq!(*input_ty(&out, 2, 1), ty("String"));
    match &out.items[1] {
        ItemOut::Type { ident, value, .. } => {
            assert_eq!(ident, "Output");
            assert_eq!(*value, AssocValue::Forward);
        },
        _ => panic!("associated type expected"),
    }
    assert_eq!(out.where_preds, vec![pred_bound("AdvancedType", "ConstrainedTrait", vec![ty("String")])]);
}

#[test]
fn test_free_param_complex() {
    let tr = trait_def(
        "FreeParamComplex",
        vec![lparam("'a"), tparam("A"), tparam("B")],
        vec![
            TraitItem::Const { ident: "MULTIPLIER".to_string(), ty: ty("i32") },
            TraitItem::Type { ident: "Output".to_string(), generics: vec![], where_preds: TyList::Nil },
            method(
                "perform",
                vec![recv(true, false), arg("input", Ty::Ref { lifetime: Some(given("'a")), mutable: false, elem: Box::new(ty("A")) })],
                Some(tuple_ty(vec![Ty::SelfAssoc("Output".to_string()), ty("B")])),
            ),
        ],
    );
    let implr = free_param_spec(
        "for<'a, A> FreeParamComplex<'a, A, String> where A: Debug + Clone",
        "FreeParamComplex",
        vec![lparam("'a"), tparam("A")],
        vec![GenericArg::Lifetime(given("'a")), GenericArg::Type(ty("A")), GenericArg::Type(ty("String"))],
    );
    let out = generate(implr, newtype("FreeParamComplexNewType", "AdvancedType"), tr).unwrap();
    assert_eq!(method_of(&out, 2).output, Some(tuple_ty(vec![Ty::SelfAssoc("Output".to_string()), ty("String")])));
    let v = forwarded(body_of(&out, 2), 0, &[7]);
    assert_eq!((v * 3, format!("{:?}", "test")), (21, "\"test\"".to_string()));
}

#[test]
fn bound_parameter_is_replaced_in_text_forms() {
    // trait Arr<T> { fn get(&self, xs: [T; 2]) -> fn(T) -> T; }, forwarded as Arr<i32>
    let arr = |t: Ty| {
        Ty::Opaque(Text::Hole { before: "[".to_string(), hole: Box::new(t), rest: Box::new(Text::Last("; 2]".to_string())) })
    };
    let tr = trait_def("Arr", vec![tparam("T")], vec![method("get", vec![recv(true, false), arg("xs", arr(ty("T")))], None)]);
    let out = generate(i32_spec("Arr"), newtype("N", "Inner"), tr).unwrap();
    assert_eq!(*input_ty(&out, 0, 1), arr(ty("i32")));
}

#[test]
fn missing_trait_argument_is_refused() {
    let tr = trait_def("GenericTrait", vec![tparam("T")], vec![method("get", vec![recv(true, false)], Some(ty("T")))]);
    let err = generate(spec("GenericTrait"), newtype("N", "Inner"), tr).unwrap_err();
    assert_eq!(err, ImplError::Bind(newer_type_core::generics::BindError::Unbound { index: 0 }));
}

#[test]
fn argument_of_wrong_kind_is_refused() {
    let tr = trait_def("WithLifetime", vec![lparam("'a")], vec![method("get", vec![recv(true, false)], None)]);
    let implr = spec_args("WithLifetime<i32>", "WithLifetime", vec![GenericArg::Type(ty("i32"))]);
    let err = generate(implr, newtype("N", "Inner"), tr).unwrap_err();
    assert_eq!(err, ImplError::Bind(newer_type_core::generics::BindError::Mismatch { index: 0 }));
}

#[test]
fn defaulted_parameter_takes_its_default() {
    let rhs = GenericParam { kind: ParamKind::Type, ident: given("Rhs"), bounds: TyList::Nil, default: Some(Ty::SelfTy) };
    let tr = trait_def(
        "PartialEq",
        vec![rhs],
        vec![method("eq", vec![recv(true, false), arg("other", reference(ty("Rhs"), false))], Some(ty("bool")))],
    );
    let out = generate(spec("PartialEq"), newtype("MyString", "String"), tr).unwrap();
    // `other: &Rhs` became `other: &Self`, so it is routed through the field too
    assert_eq!(call_of(body_of(&out, 0)).len(), 2);
    match body_of(&out, 0) {
        Body::Struct { lets, .. } => assert_eq!(lets.len(), 2),
        _ => panic!("struct body expected"),
    }
}

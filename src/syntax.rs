//! Types, patterns and names as plain values.
use vstd::prelude::*;

verus! {

/// What a generated name is for.
#[derive(Clone, Copy, Debug, PartialEq, Eq, Structural)]
pub enum FreshKind {
    /// A binding that replaces a `_` in a parameter pattern.
    Arg,
    /// A renamed lifetime parameter of the container or of the specification.
    Lifetime,
    /// A renamed type or const parameter.
    TypeParam,
    /// The generic parameter that stands for an associated type of a
    /// heterogeneous enum.
    AssocParam,
    /// The binding of the predicate field in a generated body.
    PredParam,
    /// The generic parameter that stands for an associated type the trait
    /// names through `Self::X` but inherits from a supertrait.
    ImplicitAssoc,
}

/// An identifier: one written by the user, or one generated from a base
/// name, a nonce and a counter. Generated names are rendered only when the
/// output is written, so the nonce stays visible as a value.
#[derive(Debug, PartialEq, Eq)]
pub enum Name {
    Given(String),
    Fresh { kind: FreshKind, base: Option<String>, nonce: u64, n: u64 },
}

/// A type, or a term that stands among generic arguments. `Named` is a
/// path with the generic arguments of its last segment; `SelfAssoc(x)` is
/// `Self::x`; `Opaque` is any other form (an array, a slice, a function
/// pointer, `T::Assoc`, a trait object, a const expression, a bound), kept
/// as text with the types it contains cut out as holes; `Lifetime` is a
/// lifetime standing as an argument; `AssocEq` is an associated type
/// binding `name = ty` among generic arguments. `Leaked { nonce, index }` is
/// `<Self as Repeater<nonce, index, ..>>::Type`: a type of the trait routed
/// through the repeater relation of the registration made with `nonce`.
#[derive(Debug, PartialEq, Eq)]
pub enum Ty {
    SelfTy,
    Named { path: Name, args: TyList },
    SelfAssoc(String),
    Ref { lifetime: Option<Name>, mutable: bool, elem: Box<Ty> },
    Tuple(TyList),
    Opaque(Text),
    Lifetime(Name),
    AssocEq { name: String, ty: Box<Ty> },
    Leaked { nonce: u64, index: usize },
}

/// Text with holes: `Last(s)` is `s`; `Hole { before, hole, rest }` is
/// `before`, then the type `hole`, then `rest`. `[T; 2]` is `[`, `T`, `; 2]`.
#[derive(Debug, PartialEq, Eq)]
pub enum Text {
    Last(String),
    Hole { before: String, hole: Box<Ty>, rest: Box<Text> },
}

/// A list of types.
#[derive(Debug, PartialEq, Eq)]
pub enum TyList {
    Nil,
    Cons(Box<Ty>, Box<TyList>),
}

/// The shape of a pattern made of sub-patterns.
#[derive(Clone, Copy, Debug, PartialEq, Eq, Structural)]
pub enum GroupKind {
    Tuple,
    TupleStruct,
    Struct,
    Slice,
    Or,
}

/// A pattern. In a `Group`, `path` is the struct's path where there is one,
/// and each element carries its field name for a struct pattern.
#[derive(Debug, PartialEq, Eq)]
pub enum Pat {
    Ident { by_ref: bool, mutable: bool, ident: Name, subpat: Option<Box<Pat>> },
    Wild,
    Group { kind: GroupKind, path: Option<String>, elems: PatList },
    Ref { mutable: bool, pat: Box<Pat> },
    Paren(Box<Pat>),
    Typed { pat: Box<Pat>, ty: Ty },
    Path(String),
    Lit(String),
    Rest,
    /// A pattern form that forwarding does not handle (a macro, a range).
    Unsupported(String),
}

/// A list of sub-patterns, each with an optional field name.
#[derive(Debug, PartialEq, Eq)]
pub enum PatList {
    Nil,
    Cons { member: Option<String>, pat: Box<Pat>, rest: Box<PatList> },
}

/// Abstract value of a name, by which names are compared.
pub enum NameView {
    Given(Seq<char>),
    Fresh { kind: FreshKind, base: Option<Seq<char>>, nonce: u64, n: u64 },
}

impl View for Name {
    type V = NameView;

    open spec fn view(&self) -> NameView {
        match self {
            Name::Given(s) => NameView::Given(s@),
            Name::Fresh { kind, base, nonce, n } => NameView::Fresh {
                kind: *kind,
                base: match base {
                    Some(b) => Some(b@),
                    None => None,
                },
                nonce: *nonce,
                n: *n,
            },
        }
    }
}

impl Name {
    /// Whether two names are the same.
    pub fn same_as(&self, other: &Name) -> (r: bool)
        ensures
            r == (self@ == other@),
    {
        match (self, other) {
            (Name::Given(a), Name::Given(b)) => *a == *b,
            (
                Name::Fresh { kind: k1, base: b1, nonce: c1, n: n1 },
                Name::Fresh { kind: k2, base: b2, nonce: c2, n: n2 },
            ) => {
                let same_base = match (b1, b2) {
                    (Some(x), Some(y)) => *x == *y,
                    (None, None) => true,
                    _ => false,
                };
                *k1 == *k2 && same_base && *c1 == *c2 && *n1 == *n2
            },
            _ => false,
        }
    }

    pub fn copy(&self) -> (r: Name)
        ensures
            r == *self,
    {
        match self {
            Name::Given(s) => Name::Given(s.clone()),
            Name::Fresh { kind, base, nonce, n } => Name::Fresh {
                kind: *kind,
                base: match base {
                    Some(b) => Some(b.clone()),
                    None => None,
                },
                nonce: *nonce,
                n: *n,
            },
        }
    }
}

pub fn copy_opt_name(o: &Option<Name>) -> (r: Option<Name>)
    ensures
        r == *o,
{
    match o {
        Some(x) => Some(x.copy()),
        None => None,
    }
}

impl Ty {
    pub fn copy(&self) -> (r: Ty)
        ensures
            r == *self,
        decreases self,
    {
        match self {
            Ty::SelfTy => Ty::SelfTy,
            Ty::Named { path, args } => Ty::Named { path: path.copy(), args: args.copy() },
            Ty::SelfAssoc(s) => Ty::SelfAssoc(s.clone()),
            Ty::Ref { lifetime, mutable, elem } => Ty::Ref {
                lifetime: copy_opt_name(lifetime),
                mutable: *mutable,
                elem: Box::new((**elem).copy()),
            },
            Ty::Tuple(l) => Ty::Tuple(l.copy()),
            Ty::Opaque(x) => Ty::Opaque(x.copy()),
            Ty::Lifetime(n) => Ty::Lifetime(n.copy()),
            Ty::AssocEq { name, ty } => Ty::AssocEq { name: name.clone(), ty: Box::new((**ty).copy()) },
            Ty::Leaked { nonce, index } => Ty::Leaked { nonce: *nonce, index: *index },
        }
    }
}

impl Text {
    pub fn copy(&self) -> (r: Text)
        ensures
            r == *self,
        decreases self,
    {
        match self {
            Text::Last(s) => Text::Last(s.clone()),
            Text::Hole { before, hole, rest } => Text::Hole {
                before: before.clone(),
                hole: Box::new((**hole).copy()),
                rest: Box::new((**rest).copy()),
            },
        }
    }
}

impl TyList {
    pub fn copy(&self) -> (r: TyList)
        ensures
            r == *self,
        decreases self,
    {
        match self {
            TyList::Nil => TyList::Nil,
            TyList::Cons(h, t) => TyList::Cons(Box::new((**h).copy()), Box::new((**t).copy())),
        }
    }
}

impl Pat {
    pub fn copy(&self) -> (r: Pat)
        ensures
            r == *self,
        decreases self,
    {
        match self {
            Pat::Ident { by_ref, mutable, ident, subpat } => Pat::Ident {
                by_ref: *by_ref,
                mutable: *mutable,
                ident: ident.copy(),
                subpat: match subpat {
                    Some(p) => Some(Box::new((**p).copy())),
                    None => None,
                },
            },
            Pat::Wild => Pat::Wild,
            Pat::Group { kind, path, elems } => Pat::Group {
                kind: *kind,
                path: match path {
                    Some(p) => Some(p.clone()),
                    None => None,
                },
                elems: elems.copy(),
            },
            Pat::Ref { mutable, pat } => Pat::Ref { mutable: *mutable, pat: Box::new((**pat).copy()) },
            Pat::Paren(p) => Pat::Paren(Box::new((**p).copy())),
            Pat::Typed { pat, ty } => Pat::Typed { pat: Box::new((**pat).copy()), ty: ty.copy() },
            Pat::Path(s) => Pat::Path(s.clone()),
            Pat::Lit(s) => Pat::Lit(s.clone()),
            Pat::Rest => Pat::Rest,
            Pat::Unsupported(s) => Pat::Unsupported(s.clone()),
        }
    }
}

impl PatList {
    pub fn copy(&self) -> (r: PatList)
        ensures
            r == *self,
        decreases self,
    {
        match self {
            PatList::Nil => PatList::Nil,
            PatList::Cons { member, pat, rest } => PatList::Cons {
                member: match member {
                    Some(m) => Some(m.clone()),
                    None => None,
                },
                pat: Box::new((**pat).copy()),
                rest: Box::new((**rest).copy()),
            },
        }
    }
}

} // verus!

verus! {

/// The name with the nonce of a generated name set to zero: two outputs that
/// differ only in the nonce drawn are equal after stripping.
pub open spec fn strip_name(n: Name) -> Name {
    match n {
        Name::Given(_) => n,
        Name::Fresh { kind, base, nonce, n } => Name::Fresh { kind, base, nonce: 0, n },
    }
}

/// The pattern with every bound name stripped of its nonce.
pub open spec fn strip_pat(p: Pat) -> Pat
    decreases p,
{
    match p {
        Pat::Ident { by_ref, mutable, ident, subpat } => Pat::Ident {
            by_ref,
            mutable,
            ident: strip_name(ident),
            subpat: match subpat {
                Some(b) => Some(Box::new(strip_pat(*b))),
                None => None,
            },
        },
        Pat::Group { kind, path, elems } => Pat::Group { kind, path, elems: strip_pat_list(elems) },
        Pat::Ref { mutable, pat } => Pat::Ref { mutable, pat: Box::new(strip_pat(*pat)) },
        Pat::Paren(pat) => Pat::Paren(Box::new(strip_pat(*pat))),
        Pat::Typed { pat, ty } => Pat::Typed { pat: Box::new(strip_pat(*pat)), ty },
        _ => p,
    }
}

pub open spec fn strip_pat_list(l: PatList) -> PatList
    decreases l,
{
    match l {
        PatList::Nil => PatList::Nil,
        PatList::Cons { member, pat, rest } => PatList::Cons {
            member,
            pat: Box::new(strip_pat(*pat)),
            rest: Box::new(strip_pat_list(*rest)),
        },
    }
}

} // verus!

//! Plain-value model of generics and of the forwarding specification (the
//! "implementor") that names a trait.
use crate::syntax::{Name, Ty, TyList};
use vstd::prelude::*;

verus! {

/// The three kinds of generic parameter, and of generic argument.
#[derive(Clone, Copy, Debug, PartialEq, Eq, Structural)]
pub enum ParamKind {
    Lifetime,
    Const,
    Type,
}

/// A generic parameter: its kind, its identifier (a lifetime keeps its
/// leading quote), its bounds (for a const parameter, its one type), and its
/// default, if any. A const parameter's default expression is held as a
/// type-like term (`Ty::Opaque` or a path).
#[derive(Debug, PartialEq, Eq)]
pub struct GenericParam {
    pub kind: ParamKind,
    pub ident: Name,
    pub bounds: TyList,
    pub default: Option<Ty>,
}

/// A generic argument.
#[derive(Debug, PartialEq, Eq)]
pub enum GenericArg {
    Lifetime(Name),
    Type(Ty),
    Const(Ty),
}

/// A forwarding specification: `for<generics> path<args> where preds`.
/// `text` is its canonical token text, by which two specifications are
/// compared; `generics` are the quantified parameters and `args` the
/// generic arguments of the path's last segment (`None` when it has none);
/// `where_preds` are the predicates of its where-clause, each kept as text
/// with the types it names as holes.
#[derive(Debug, PartialEq, Eq)]
pub struct Implementor {
    pub text: String,
    pub generics: Vec<GenericParam>,
    pub path: String,
    pub args: Option<Vec<GenericArg>>,
    pub where_preds: TyList,
}

/// Every part of a forwarding specification, as plain values.
pub ghost struct ImplementorParts {
    pub text: Seq<char>,
    pub generics: Seq<GenericParam>,
    pub path: Seq<char>,
    pub args: Option<Seq<GenericArg>>,
    pub where_preds: TyList,
}

pub open spec fn parts_of(i: Implementor) -> ImplementorParts {
    ImplementorParts {
        text: i.text@,
        generics: i.generics@,
        path: i.path@,
        args: match i.args {
            Some(a) => Some(a@),
            None => None,
        },
        where_preds: i.where_preds,
    }
}

impl View for Implementor {
    type V = Seq<char>;

    open spec fn view(&self) -> Seq<char> {
        self.text@
    }
}

impl GenericParam {
    pub fn copy(&self) -> (r: GenericParam)
        ensures
            r == *self,
    {
        GenericParam {
            kind: self.kind,
            ident: self.ident.copy(),
            bounds: self.bounds.copy(),
            default: match &self.default {
                Some(t) => Some(t.copy()),
                None => None,
            },
        }
    }
}

impl GenericArg {
    pub fn copy(&self) -> (r: GenericArg)
        ensures
            r == *self,
    {
        match self {
            GenericArg::Lifetime(n) => GenericArg::Lifetime(n.copy()),
            GenericArg::Type(t) => GenericArg::Type(t.copy()),
            GenericArg::Const(t) => GenericArg::Const(t.copy()),
        }
    }
}

fn copy_args(v: &Vec<GenericArg>) -> (r: Vec<GenericArg>)
    ensures
        r@ == v@,
{
    let mut out: Vec<GenericArg> = Vec::new();
    let mut i: usize = 0;
    while i < v.len()
        invariant
            i <= v.len(),
            out@ == v@.subrange(0, i as int),
        decreases v.len() - i,
    {
        out.push(v[i].copy());
        i = i + 1;
        proof {
            assert(out@ =~= v@.subrange(0, i as int));
        }
    }
    proof {
        assert(v@.subrange(0, v@.len() as int) =~= v@);
    }
    out
}

impl Implementor {
    /// A copy of the specification.
    pub fn copy(&self) -> (r: Implementor)
        ensures
            parts_of(r) == parts_of(*self),
    {
        Implementor {
            text: self.text.clone(),
            generics: crate::emit::copy_params(&self.generics),
            path: self.path.clone(),
            args: match &self.args {
                Some(a) => Some(copy_args(a)),
                None => None,
            },
            where_preds: self.where_preds.copy(),
        }
    }

    /// Whether two forwarding specifications are the same.
    pub fn same_as(&self, other: &Implementor) -> (r: bool)
        ensures
            r == (self@ == other@),
    {
        self.text == other.text
    }
}

} // verus!

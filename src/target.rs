//! Registering a trait for forwarding: the registration's arguments, the
//! leak table and repeater implementations, and the public form of the trait.
use crate::emit::TraitDef;
use crate::leak::{collect_leaks, emit_repeater_impl, leak_table, repeater_at, RepeaterImpl};
use crate::model::{GenericArg, GenericParam, ParamKind};
use crate::syntax::{Ty, TyList};
use vstd::prelude::*;

verus! {

/// A token of an attribute's argument list. A delimited group is kept whole
/// as its text.
#[derive(Debug, PartialEq, Eq)]
pub enum Tok {
    Ident(String),
    Punct(char),
    Literal(String),
    Group(String),
}

impl Tok {
    pub fn copy(&self) -> (r: Tok)
        ensures
            r == *self,
    {
        match self {
            Tok::Ident(s) => Tok::Ident(s.clone()),
            Tok::Punct(c) => Tok::Punct(*c),
            Tok::Literal(s) => Tok::Literal(s.clone()),
            Tok::Group(s) => Tok::Group(s.clone()),
        }
    }
}

/// The registration's options, each the tokens of its value.
#[derive(Debug, PartialEq, Eq)]
pub struct Argument {
    pub alternative: Option<Vec<Tok>>,
    pub newer_type: Option<Vec<Tok>>,
    pub repeater: Option<Vec<Tok>>,
    pub implementor: Option<Vec<Tok>>,
}

/// Abstract value of the registration's options.
pub ghost struct ArgumentView {
    pub alternative: Option<Seq<Tok>>,
    pub newer_type: Option<Seq<Tok>>,
    pub repeater: Option<Seq<Tok>>,
    pub implementor: Option<Seq<Tok>>,
}

pub open spec fn opt_toks(o: Option<Vec<Tok>>) -> Option<Seq<Tok>> {
    match o {
        Some(v) => Some(v@),
        None => None,
    }
}

impl View for Argument {
    type V = ArgumentView;

    open spec fn view(&self) -> ArgumentView {
        ArgumentView {
            alternative: opt_toks(self.alternative),
            newer_type: opt_toks(self.newer_type),
            repeater: opt_toks(self.repeater),
            implementor: opt_toks(self.implementor),
        }
    }
}

/// A malformed argument list, with the position of the offending token.
#[derive(Clone, Copy, Debug, PartialEq, Eq, Structural)]
pub enum ArgError {
    /// An option's name was expected.
    ExpectedKey { pos: usize },
    /// `=` was expected after an option's name.
    ExpectedEq { pos: usize },
    /// An option whose value is not a path.
    BadValue { pos: usize },
    /// A value followed by something other than `,`.
    ExpectedComma { pos: usize },
    /// A name that is not an option.
    UnknownKey { pos: usize },
}

pub open spec fn is_punct(toks: Seq<Tok>, i: int, c: char) -> bool {
    0 <= i < toks.len() && toks[i] == Tok::Punct(c)
}

pub open spec fn is_ident(toks: Seq<Tok>, i: int) -> bool {
    0 <= i < toks.len() && (toks[i] is Ident)
}

/// The end of the segments `(:: ident)*` that start at `p`.
pub open spec fn segments_end(toks: Seq<Tok>, p: int) -> int
    decreases toks.len() - p,
{
    if p >= 0 && p + 2 < toks.len() && is_punct(toks, p, ':') && is_punct(toks, p + 1, ':') && is_ident(toks, p + 2) {
        segments_end(toks, p + 3)
    } else {
        p
    }
}

/// The position after the `>` that closes generic arguments whose `<` stands
/// before `p`, `depth` levels of `<` deeper; `None` when they are not closed.
pub open spec fn angle_end(toks: Seq<Tok>, p: int, depth: nat) -> Option<int>
    decreases toks.len() - p,
{
    if p < 0 || p >= toks.len() {
        None
    } else if is_punct(toks, p, '>') {
        if depth == 0 {
            Some(p + 1)
        } else {
            angle_end(toks, p + 1, (depth - 1) as nat)
        }
    } else if is_punct(toks, p, '<') {
        angle_end(toks, p + 1, depth + 1)
    } else {
        angle_end(toks, p + 1, depth)
    }
}

/// The end of the path `[::] ident (:: ident)* [<...>]` that starts at
/// `pos`, or `None` where no path starts there.
pub open spec fn path_end(toks: Seq<Tok>, pos: int) -> Option<int> {
    let s = if is_punct(toks, pos, ':') && is_punct(toks, pos + 1, ':') {
        pos + 2
    } else {
        pos
    };
    if !is_ident(toks, s) {
        None
    } else {
        let e = segments_end(toks, s + 1);
        if is_punct(toks, e, '<') {
            angle_end(toks, e + 1, 0)
        } else {
            Some(e)
        }
    }
}

/// The options after setting `key` to `v`; `None` for an unknown key.
pub open spec fn with_option(acc: ArgumentView, key: Seq<char>, v: Seq<Tok>) -> Option<ArgumentView> {
    if key == "alternative"@ {
        Some(ArgumentView { alternative: Some(v), ..acc })
    } else if key == "newer_type"@ {
        Some(ArgumentView { newer_type: Some(v), ..acc })
    } else if key == "repeater"@ {
        Some(ArgumentView { repeater: Some(v), ..acc })
    } else if key == "implementor"@ {
        Some(ArgumentView { implementor: Some(v), ..acc })
    } else {
        None
    }
}

/// Parses `key = value, ...` from `pos` on, on top of the options `acc`; a
/// later value of the same option replaces an earlier one, and a trailing
/// comma is allowed.
pub open spec fn parse_args_from(toks: Seq<Tok>, pos: int, acc: ArgumentView) -> Result<ArgumentView, ArgError>
    decreases toks.len() - pos,
{
    if pos >= toks.len() || pos < 0 {
        Ok(acc)
    } else if !(toks[pos] is Ident) {
        Err(ArgError::ExpectedKey { pos: pos as usize })
    } else if pos + 1 >= toks.len() || toks[pos + 1] != Tok::Punct('=') {
        Err(ArgError::ExpectedEq { pos: (pos + 1) as usize })
    } else {
        match path_end(toks, pos + 2) {
            None => Err(ArgError::BadValue { pos: (pos + 2) as usize }),
            Some(end) => if end <= pos + 2 || end > toks.len() {
                Err(ArgError::BadValue { pos: (pos + 2) as usize })
            } else if end < toks.len() && !is_punct(toks, end, ',') {
                Err(ArgError::ExpectedComma { pos: end as usize })
            } else {
                match with_option(acc, toks[pos]->Ident_0@, toks.subrange(pos + 2, end)) {
                    None => Err(ArgError::UnknownKey { pos: pos as usize }),
                    Some(next) => if end >= toks.len() {
                        Ok(next)
                    } else {
                        parse_args_from(toks, end + 1, next)
                    },
                }
            },
        }
    }
}

pub open spec fn empty_args() -> ArgumentView {
    ArgumentView { alternative: None, newer_type: None, repeater: None, implementor: None }
}

proof fn lemma_segments_end(toks: Seq<Tok>, p: int)
    requires
        0 <= p <= toks.len(),
    ensures
        p <= segments_end(toks, p) <= toks.len(),
    decreases toks.len() - p,
{
    if p + 2 < toks.len() && is_punct(toks, p, ':') && is_punct(toks, p + 1, ':') && is_ident(toks, p + 2) {
        lemma_segments_end(toks, p + 3);
    }
}

proof fn lemma_angle_end(toks: Seq<Tok>, p: int, depth: nat)
    requires
        0 <= p,
    ensures
        angle_end(toks, p, depth) matches Some(e) ==> p < e <= toks.len(),
    decreases toks.len() - p,
{
    if p < toks.len() {
        if is_punct(toks, p, '>') {
            if depth > 0 {
                lemma_angle_end(toks, p + 1, (depth - 1) as nat);
            }
        } else if is_punct(toks, p, '<') {
            lemma_angle_end(toks, p + 1, depth + 1);
        } else {
            lemma_angle_end(toks, p + 1, depth);
        }
    }
}

fn punct_at(toks: &Vec<Tok>, i: usize, c: char) -> (r: bool)
    ensures
        r == is_punct(toks@, i as int, c),
{
    i < toks.len() && match &toks[i] {
        Tok::Punct(d) => *d == c,
        _ => false,
    }
}

fn ident_at(toks: &Vec<Tok>, i: usize) -> (r: bool)
    ensures
        r == is_ident(toks@, i as int),
{
    i < toks.len() && match &toks[i] {
        Tok::Ident(_) => true,
        _ => false,
    }
}

/// Finds the end of the path starting at `pos`; see `path_end`.
#[verifier::loop_isolation(false)]
pub fn scan_path(toks: &Vec<Tok>, pos: usize) -> (r: Option<usize>)
    requires
        pos <= toks.len(),
    ensures
        match r {
            Some(e) => path_end(toks@, pos as int) == Some(e as int) && pos < e <= toks.len(),
            None => path_end(toks@, pos as int) is None,
        },
{
    let s = if toks.len() >= 2 && pos <= toks.len() - 2 && punct_at(toks, pos, ':') && punct_at(toks, pos + 1, ':') {
        pos + 2
    } else {
        pos
    };
    if !ident_at(toks, s) {
        return None;
    }
    let mut e: usize = s + 1;
    while e < toks.len() && toks.len() - e > 2 && punct_at(toks, e, ':') && punct_at(toks, e + 1, ':') && ident_at(
        toks,
        e + 2,
    )
        invariant
            s < e <= toks.len(),
            segments_end(toks@, (s + 1) as int) == segments_end(toks@, e as int),
        decreases toks.len() - e,
    {
        e = e + 3;
    }
    if !punct_at(toks, e, '<') {
        return Some(e);
    }
    let mut p: usize = e + 1;
    let mut depth: usize = 0;
    while p < toks.len()
        invariant
            e < p <= toks.len(),
            depth <= p,
            angle_end(toks@, (e + 1) as int, 0) == angle_end(toks@, p as int, depth as nat),
        decreases toks.len() - p,
    {
        if punct_at(toks, p, '>') {
            if depth == 0 {
                return Some(p + 1);
            }
            depth = depth - 1;
        } else if punct_at(toks, p, '<') {
            depth = depth + 1;
        }
        p = p + 1;
    }
    None
}

fn copy_range(toks: &Vec<Tok>, a: usize, b: usize) -> (r: Vec<Tok>)
    requires
        a <= b <= toks.len(),
    ensures
        r@ == toks@.subrange(a as int, b as int),
{
    let mut out: Vec<Tok> = Vec::new();
    let mut j: usize = a;
    while j < b
        invariant
            a <= j <= b,
            b <= toks.len(),
            out@ == toks@.subrange(a as int, j as int),
        decreases b - j,
    {
        out.push(toks[j].copy());
        j = j + 1;
        proof {
            assert(out@ =~= toks@.subrange(a as int, j as int));
        }
    }
    out
}

fn key_is(s: &String, lit: &str) -> (r: bool)
    ensures
        r == (s@ == lit@),
{
    *s == String::from_str(lit)
}

impl Argument {
    /// Parses the registration's argument list `key = value, ...`. The options
    /// are `alternative`, `newer_type`, `repeater` and `implementor`.
    pub fn parse(toks: &Vec<Tok>) -> (r: Result<Argument, ArgError>)
        ensures
            match r {
                Ok(a) => parse_args_from(toks@, 0, empty_args()) == Ok::<ArgumentView, ArgError>(a@),
                Err(e) => parse_args_from(toks@, 0, empty_args()) == Err::<ArgumentView, ArgError>(e),
            },
    {
        let mut acc = Argument { alternative: None, newer_type: None, repeater: None, implementor: None };
        let mut pos: usize = 0;
        while pos < toks.len()
            invariant
                pos <= toks.len(),
                parse_args_from(toks@, 0, empty_args()) == parse_args_from(toks@, pos as int, acc@),
            decreases toks.len() - pos,
        {
            let key = match &toks[pos] {
                Tok::Ident(s) => s,
                _ => {
                    return Err(ArgError::ExpectedKey { pos });
                },
            };
            let eq_ok = pos + 1 < toks.len() && match &toks[pos + 1] {
                Tok::Punct(c) => *c == '=',
                _ => false,
            };
            if !eq_ok {
                return Err(ArgError::ExpectedEq { pos: pos + 1 });
            }
            let end = match scan_path(toks, pos + 2) {
                None => {
                    return Err(ArgError::BadValue { pos: pos + 2 });
                },
                Some(e) => e,
            };
            if end < toks.len() && !punct_at(toks, end, ',') {
                return Err(ArgError::ExpectedComma { pos: end });
            }
            let v = copy_range(toks, pos + 2, end);
            if key_is(key, "alternative") {
                acc.alternative = Some(v);
            } else if key_is(key, "newer_type") {
                acc.newer_type = Some(v);
            } else if key_is(key, "repeater") {
                acc.repeater = Some(v);
            } else if key_is(key, "implementor") {
                acc.implementor = Some(v);
            } else {
                return Err(ArgError::UnknownKey { pos });
            }
            if end == toks.len() {
                return Ok(acc);
            }
            pos = end + 1;
        }
        Ok(acc)
}
}

/// Why a registration failed.
#[derive(Clone, Copy, Debug, PartialEq, Eq, Structural)]
pub enum TargetError {
    /// The trait has leaked types but neither `repeater` nor `implementor` is given.
    MissingLeakArgument,
}

/// What a registration produces: the trait in its public form, the
/// supertrait arguments (the trait's own parameters) when an alternative
/// trait is implemented instead, the leak table, and one repeater
/// implementation per entry.
#[derive(Debug, PartialEq, Eq)]
pub struct TargetOutput {
    pub public_trait: TraitDef,
    pub alternative_args: Option<Vec<GenericArg>>,
    pub table: Vec<Ty>,
    pub repeaters: Vec<RepeaterImpl>,
}

/// A trait parameter used as an argument.
pub open spec fn param_as_arg(p: GenericParam) -> GenericArg {
    match p.kind {
        ParamKind::Lifetime => GenericArg::Lifetime(p.ident),
        ParamKind::Type => GenericArg::Type(Ty::Named { path: p.ident, args: TyList::Nil }),
        ParamKind::Const => GenericArg::Const(Ty::Named { path: p.ident, args: TyList::Nil }),
    }
}

fn params_as_args(ps: &Vec<GenericParam>) -> (r: Vec<GenericArg>)
    ensures
        r@ == ps@.map_values(|p: GenericParam| param_as_arg(p)),
{
    let mut out: Vec<GenericArg> = Vec::new();
    let mut i: usize = 0;
    while i < ps.len()
        invariant
            i <= ps.len(),
            out@ == ps@.subrange(0, i as int).map_values(|p: GenericParam| param_as_arg(p)),
        decreases ps.len() - i,
    {
        let p = &ps[i];
        let a = match p.kind {
            ParamKind::Lifetime => GenericArg::Lifetime(p.ident.copy()),
            ParamKind::Type => GenericArg::Type(Ty::Named { path: p.ident.copy(), args: TyList::Nil }),
            ParamKind::Const => GenericArg::Const(Ty::Named { path: p.ident.copy(), args: TyList::Nil }),
        };
        out.push(a);
        i = i + 1;
        proof {
            assert(out@ =~= ps@.subrange(0, i as int).map_values(|p: GenericParam| param_as_arg(p)));
        }
    }
    proof {
        assert(ps@.subrange(0, ps@.len() as int) =~= ps@);
    }
    out
}

/// Registers a trait. The leak table is collected; a trait with leaked
/// types needs a `repeater` or an `implementor` option. With an alternative
/// trait, the public trait becomes `unsafe`, loses its members, and takes
/// the alternative, applied to the trait's own parameters, as supertrait.
pub fn target(arg: &Argument, tr: TraitDef, nonce: u64) -> (r: Result<TargetOutput, TargetError>)
    ensures
        match r {
            Ok(out) => {
                &&& (leak_table(tr).len() == 0 || arg.repeater is Some || arg.implementor is Some)
                &&& out.table@ == leak_table(tr)
                &&& out.repeaters@.len() == out.table@.len()
                &&& forall|i: int| 0 <= i < out.table@.len() ==> #[trigger] out.repeaters@[i] == repeater_at(out.table@, nonce, i)
                &&& match arg.alternative {
                    Some(_) => {
                        &&& out.public_trait.ident == tr.ident
                        &&& out.public_trait.generics == tr.generics
                        &&& out.public_trait.supertraits == tr.supertraits
                        &&& out.public_trait.unsafety
                        &&& out.public_trait.items@.len() == 0
                        &&& out.alternative_args matches Some(a) && a@ == tr.generics@.map_values(|p: GenericParam| param_as_arg(p))
                    },
                    None => {
                        &&& out.public_trait == tr
                        &&& out.alternative_args is None
                    },
                }
            },
            Err(TargetError::MissingLeakArgument) => leak_table(tr).len() > 0 && arg.repeater is None
                && arg.implementor is None,
        },
{
    let table = collect_leaks(&tr);
    if table.len() > 0 && arg.repeater.is_none() && arg.implementor.is_none() {
        return Err(TargetError::MissingLeakArgument);
    }
    let repeaters = emit_repeater_impl(&table, nonce);
    let (public_trait, alternative_args) = match &arg.alternative {
        Some(_) => {
            let args = params_as_args(&tr.generics);
            (
                TraitDef {
                    ident: tr.ident,
                    unsafety: true,
                    generics: tr.generics,
                    supertraits: tr.supertraits,
                    items: Vec::new(),
                },
                Some(args),
            )
        },
        None => (tr, None),
    };
    Ok(TargetOutput { public_trait, alternative_args, table, repeaters })
}

} // verus!

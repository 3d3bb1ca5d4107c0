//! Choosing the field (the "predicate") whose implementation is forwarded.
use crate::model::Implementor;
use crate::syntax::Ty;
use vstd::prelude::*;
use vstd::string::*;

verus! {

/// A field of a struct or of an enum variant. `ident` is `None` for a
/// positional field; `implements` lists the forwarding specifications that
/// the field's own attributes name.
#[derive(Debug, PartialEq, Eq)]
pub struct Field {
    pub ident: Option<String>,
    pub ty: Ty,
    pub implements: Vec<Implementor>,
}

/// Why no single predicate field could be chosen.
#[derive(Clone, Copy, Debug, PartialEq, Eq, Structural)]
pub enum PredicateError {
    /// No candidate is left; `empty` tells whether there was no field at all.
    NoPredicate { empty: bool },
    /// `count` candidates are left; the first two are given by position.
    Ambiguous { count: usize, first: usize, second: usize },
}

/// The field's own attributes name this specification.
pub open spec fn is_annotated(implr: Seq<char>, f: Field) -> bool {
    exists|k: int| 0 <= k < f.implements@.len() && #[trigger] f.implements@[k]@ == implr
}

/// A field whose name marks it as ignored: positional, or starting with `_`.
pub open spec fn is_ignored(f: Field) -> bool {
    match f.ident {
        None => true,
        Some(s) => s@.len() > 0 && s@[0] == '_',
    }
}

/// Positions below `n` of the fields annotated with `implr`, in order.
pub open spec fn annotated_indices(implr: Seq<char>, fields: Seq<Field>, n: int) -> Seq<int>
    decreases n,
{
    if n <= 0 {
        Seq::empty()
    } else if is_annotated(implr, fields[n - 1]) {
        annotated_indices(implr, fields, n - 1).push(n - 1)
    } else {
        annotated_indices(implr, fields, n - 1)
    }
}

/// Positions below `n` of the fields that are not ignored, in order.
pub open spec fn named_indices(fields: Seq<Field>, n: int) -> Seq<int>
    decreases n,
{
    if n <= 0 {
        Seq::empty()
    } else if !is_ignored(fields[n - 1]) {
        named_indices(fields, n - 1).push(n - 1)
    } else {
        named_indices(fields, n - 1)
    }
}

/// The candidates for the predicate: the annotated fields if there are any;
/// otherwise the only field; otherwise the fields that are not ignored.
pub open spec fn candidates(implr: Seq<char>, fields: Seq<Field>) -> Seq<int> {
    let annotated = annotated_indices(implr, fields, fields.len() as int);
    if annotated.len() > 0 {
        annotated
    } else if fields.len() == 1 {
        seq![0int]
    } else {
        named_indices(fields, fields.len() as int)
    }
}

/// The predicate field chosen for `implr` among `fields`, or why there is none.
pub open spec fn predicate_of(implr: Seq<char>, fields: Seq<Field>) -> Result<usize, PredicateError> {
    let c = candidates(implr, fields);
    if c.len() == 1 {
        Ok(c[0] as usize)
    } else if c.len() == 0 {
        Err(PredicateError::NoPredicate { empty: fields.len() == 0 })
    } else {
        Err(PredicateError::Ambiguous { count: c.len() as usize, first: c[0] as usize, second: c[1] as usize })
    }
}

proof fn lemma_annotated_bounds(implr: Seq<char>, fields: Seq<Field>, n: int)
    requires
        0 <= n <= fields.len(),
    ensures
        annotated_indices(implr, fields, n).len() <= n,
        forall|j: int|
            0 <= j < annotated_indices(implr, fields, n).len() ==> 0 <= #[trigger] annotated_indices(implr, fields, n)[j] < n,
        forall|j: int, k: int|
            0 <= j < k < annotated_indices(implr, fields, n).len() ==> annotated_indices(implr, fields, n)[j]
                < annotated_indices(implr, fields, n)[k],
    decreases n,
{
    if n > 0 {
        lemma_annotated_bounds(implr, fields, n - 1);
    }
}

proof fn lemma_named_bounds(fields: Seq<Field>, n: int)
    requires
        0 <= n <= fields.len(),
    ensures
        named_indices(fields, n).len() <= n,
        forall|j: int| 0 <= j < named_indices(fields, n).len() ==> 0 <= #[trigger] named_indices(fields, n)[j] < n,
        forall|j: int, k: int|
            0 <= j < k < named_indices(fields, n).len() ==> named_indices(fields, n)[j] < named_indices(fields, n)[k],
    decreases n,
{
    if n > 0 {
        lemma_named_bounds(fields, n - 1);
    }
}

/// Whether the field's attributes name `implr`.
pub fn field_names_implementor(implr: &Implementor, f: &Field) -> (r: bool)
    ensures
        r == is_annotated(implr@, *f),
{
    let mut k: usize = 0;
    while k < f.implements.len()
        invariant
            k <= f.implements@.len(),
            forall|j: int| 0 <= j < k ==> f.implements@[j]@ != implr@,
        decreases f.implements.len() - k,
    {
        if f.implements[k].same_as(implr) {
            return true;
        }
        k = k + 1;
    }
    false
}

/// Whether the field is ignored when choosing a predicate implicitly.
pub fn field_is_ignored(f: &Field) -> (r: bool)
    ensures
        r == is_ignored(*f),
{
    match &f.ident {
        None => true,
        Some(s) => {
            let t = s.as_str();
            t.unicode_len() > 0 && t.get_char(0) == '_'
        },
    }
}

/// Chooses the predicate field for `implr`: the one field annotated with
/// it; else the only field; else the one field that is neither positional
/// nor named with a leading underscore. Any other count is an error.
pub fn find_pred_field(implr: &Implementor, fields: &Vec<Field>) -> (r: Result<usize, PredicateError>)
    ensures
        r == predicate_of(implr@, fields@),
        r is Ok ==> r->Ok_0 < fields.len(),
{
    let mut found: Vec<usize> = Vec::new();
    let mut i: usize = 0;
    while i < fields.len()
        invariant
            i <= fields.len(),
            found@.len() == annotated_indices(implr@, fields@, i as int).len(),
            forall|j: int| 0 <= j < found@.len() ==> found@[j] as int == annotated_indices(implr@, fields@, i as int)[j],
        decreases fields.len() - i,
    {
        if field_names_implementor(implr, &fields[i]) {
            found.push(i);
        }
        i = i + 1;
    }
    proof {
        lemma_annotated_bounds(implr@, fields@, fields@.len() as int);
        lemma_named_bounds(fields@, fields@.len() as int);
    }
    if found.len() == 0 {
        if fields.len() == 1 {
            return Ok(0);
        }
        let mut i: usize = 0;
        while i < fields.len()
            invariant
                i <= fields.len(),
                found@.len() == named_indices(fields@, i as int).len(),
                forall|j: int| 0 <= j < found@.len() ==> found@[j] as int == named_indices(fields@, i as int)[j],
            decreases fields.len() - i,
        {
            if !field_is_ignored(&fields[i]) {
                found.push(i);
            }
            i = i + 1;
        }
    }
    if found.len() == 1 {
        Ok(found[0])
    } else if found.len() == 0 {
        Err(PredicateError::NoPredicate { empty: fields.len() == 0 })
    } else {
        Err(PredicateError::Ambiguous { count: found.len(), first: found[0], second: found[1] })
    }
}

/// Two fields, neither annotated for `implr` nor ignored by name: the choice
/// is ambiguous and fails, naming both fields, rather than picking one.
pub proof fn lemma_two_plain_fields_are_ambiguous(implr: Seq<char>, fields: Seq<Field>)
    requires
        fields.len() == 2,
        !is_annotated(implr, fields[0]),
        !is_annotated(implr, fields[1]),
        !is_ignored(fields[0]),
        !is_ignored(fields[1]),
    ensures
        predicate_of(implr, fields) == Err::<usize, PredicateError>(
            PredicateError::Ambiguous { count: 2, first: 0, second: 1 },
        ),
{
    assert(annotated_indices(implr, fields, 2).len() == 0) by {
        reveal_with_fuel(annotated_indices, 3);
    }
    assert(named_indices(fields, 2) =~= seq![0int, 1int]) by {
        reveal_with_fuel(named_indices, 3);
    }
}

/// A lone field is the predicate whenever no field is annotated.
pub proof fn lemma_single_field_is_predicate(implr: Seq<char>, fields: Seq<Field>)
    requires
        fields.len() == 1,
        !is_annotated(implr, fields[0]),
    ensures
        predicate_of(implr, fields) == Ok::<usize, PredicateError>(0),
{
    assert(annotated_indices(implr, fields, 1).len() == 0) by {
        reveal_with_fuel(annotated_indices, 2);
    }
}

/// The annotation decides: a field annotated with `implr` is chosen when it
/// is the only one so annotated, whatever the other fields are called.
pub proof fn lemma_annotated_field_wins(implr: Seq<char>, fields: Seq<Field>, n: int)
    requires
        0 <= n < fields.len(),
        is_annotated(implr, fields[n]),
        forall|j: int| 0 <= j < fields.len() && j != n ==> !is_annotated(implr, #[trigger] fields[j]),
    ensures
        predicate_of(implr, fields) == Ok::<usize, PredicateError>(n as usize),
{
    lemma_only_annotated(implr, fields, n, fields.len() as int);
}

proof fn lemma_only_annotated(implr: Seq<char>, fields: Seq<Field>, n: int, m: int)
    requires
        0 <= n < fields.len(),
        0 <= m <= fields.len(),
        is_annotated(implr, fields[n]),
        forall|j: int| 0 <= j < fields.len() && j != n ==> !is_annotated(implr, #[trigger] fields[j]),
    ensures
        m <= n ==> annotated_indices(implr, fields, m).len() == 0,
        m > n ==> annotated_indices(implr, fields, m) == seq![n],
    decreases m,
{
    if m > 0 {
        lemma_only_annotated(implr, fields, n, m - 1);
        if m - 1 == n {
            assert(annotated_indices(implr, fields, m) =~= seq![n]);
        }
    }
}

} // verus!

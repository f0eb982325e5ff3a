//! The field list of a record: a punctuated sequence, reached through a few
//! operations whose contracts are taken on trust.

use vstd::prelude::*;
use syn::punctuated::Punctuated;
use syn::token::Comma;
use crate::schema::Field;

verus! {

/// Declares `syn::punctuated::Punctuated`, the sequence of values with
/// punctuation between them. Nothing is known of what is inside one but what
/// the operations below state.
#[verifier::external_type_specification]
#[verifier::external_body]
#[verifier::reject_recursive_types(T)]
#[verifier::reject_recursive_types(P)]
pub struct ExPunctuated<T, P>(Punctuated<T, P>);

/// Declares `syn::token::Comma`, the punctuation of a field list.
#[verifier::external_type_specification]
#[verifier::external_body]
pub struct ExComma(Comma);

/// The fields that a punctuated field list holds, first to last. The
/// punctuation between them, and whether one trails, is no part of it.
pub uninterp spec fn punctuated_fields(p: Punctuated<Field, Comma>) -> Seq<Field>;

/// Calls `Punctuated::new`: the list made holds no field.
#[verifier::external_body]
pub(crate) fn fields_new() -> (p: Punctuated<Field, Comma>)
    ensures
        punctuated_fields(p) == Seq::<Field>::empty(),
{
    Punctuated::new()
}

/// Calls `Punctuated::len`: the number of fields, punctuation not counted.
#[verifier::external_body]
pub(crate) fn fields_len(p: &Punctuated<Field, Comma>) -> (n: usize)
    ensures
        n == punctuated_fields(*p).len(),
{
    p.len()
}

/// Indexes the list, by the `Index<usize>` of `Punctuated`, which panics past
/// the end: the field at position `i`.
#[verifier::external_body]
pub(crate) fn fields_at(p: &Punctuated<Field, Comma>, i: usize) -> (f: &Field)
    requires
        i < punctuated_fields(*p).len(),
    ensures
        *f == punctuated_fields(*p)[i as int],
{
    &p[i]
}

/// Calls `Punctuated::push`, which puts in the punctuation that is wanting
/// and then the value: the field is appended, the others stay.
#[verifier::external_body]
pub(crate) fn fields_push(p: &mut Punctuated<Field, Comma>, f: Field)
    ensures
        punctuated_fields(*final(p)) == punctuated_fields(*old(p)).push(f),
{
    p.push(f)
}

} // verus!

//! The description of a record as the generator reads it, and its
//! mathematical view.

use vstd::prelude::*;
use syn::punctuated::Punctuated;
use syn::token::Comma;
use crate::text::{clone_texts, texts_view};
use crate::types::{clone_type, TypeExpr, TypeView};
use crate::fields::{fields_at, fields_len, fields_new, fields_push, punctuated_fields};

verus! {

/// Who may name an item or read a field.
#[derive(Debug, PartialEq, Eq)]
pub enum Visibility {
    /// No visibility written: fully private.
    Inherited,
    /// Visible everywhere.
    Public,
    /// Visible in the whole crate.
    Crate,
    /// Restricted to the defining module, written out.
    Module,
    /// Restricted to the parent module.
    Parent,
    /// Restricted to the grandparent module.
    Grandparent,
    /// Restricted to the module at the given path.
    Scoped(String),
}

/// The mathematical value of a `Visibility`.
pub enum VisibilityView {
    Inherited,
    Public,
    Crate,
    Module,
    Parent,
    Grandparent,
    Scoped(Seq<char>),
}

impl View for Visibility {
    type V = VisibilityView;

    open spec fn view(&self) -> VisibilityView {
        match *self {
            Visibility::Inherited => VisibilityView::Inherited,
            Visibility::Public => VisibilityView::Public,
            Visibility::Crate => VisibilityView::Crate,
            Visibility::Module => VisibilityView::Module,
            Visibility::Parent => VisibilityView::Parent,
            Visibility::Grandparent => VisibilityView::Grandparent,
            Visibility::Scoped(path) => VisibilityView::Scoped(path@),
        }
    }
}

/// What an annotation carries after its name.
#[derive(Debug, PartialEq, Eq)]
pub enum Arguments {
    /// Nothing: the annotation is a bare marker.
    Absent,
    /// A bracketed list: the name that each entry starts with, and the list
    /// as written.
    Listed { items: Vec<String>, text: String },
    /// A value assigned to the name, as written.
    Assigned(String),
}

/// The mathematical value of `Arguments`.
pub enum ArgumentsView {
    Absent,
    Listed { items: Seq<Seq<char>>, text: Seq<char> },
    Assigned(Seq<char>),
}

impl View for Arguments {
    type V = ArgumentsView;

    open spec fn view(&self) -> ArgumentsView {
        match *self {
            Arguments::Absent => ArgumentsView::Absent,
            Arguments::Listed { items, text } => ArgumentsView::Listed {
                items: texts_view(items@),
                text: text@,
            },
            Arguments::Assigned(value) => ArgumentsView::Assigned(value@),
        }
    }
}

/// An annotation on a record or on a field.
#[derive(Debug, PartialEq, Eq)]
pub struct Annotation {
    /// The path that names the annotation, as written.
    pub name: String,
    pub args: Arguments,
}

/// The mathematical value of an `Annotation`.
pub struct AnnotationView {
    pub name: Seq<char>,
    pub args: ArgumentsView,
}

impl View for Annotation {
    type V = AnnotationView;

    open spec fn view(&self) -> AnnotationView {
        AnnotationView { name: self.name@, args: self.args@ }
    }
}

/// The view of each annotation of a list.
pub open spec fn annotations_view(annotations: Seq<Annotation>) -> Seq<AnnotationView> {
    Seq::new(annotations.len(), |i: int| annotations[i]@)
}

/// The view of a name that may be absent.
pub open spec fn name_view(name: Option<String>) -> Option<Seq<char>> {
    match name {
        Some(n) => Some(n@),
        None => None,
    }
}

/// One field of a record.
#[derive(Debug, PartialEq, Eq)]
pub struct Field {
    /// The field's name; `None` for a positional field.
    pub name: Option<String>,
    pub ty: TypeExpr,
    pub vis: Visibility,
    pub annotations: Vec<Annotation>,
}

/// The mathematical value of a `Field`.
pub struct FieldView {
    pub name: Option<Seq<char>>,
    pub ty: TypeView,
    pub vis: VisibilityView,
    pub annotations: Seq<AnnotationView>,
}

impl View for Field {
    type V = FieldView;

    open spec fn view(&self) -> FieldView {
        FieldView {
            name: name_view(self.name),
            ty: self.ty@,
            vis: self.vis@,
            annotations: annotations_view(self.annotations@),
        }
    }
}

/// The view of each field of a list.
pub open spec fn fields_view(fields: Seq<Field>) -> Seq<FieldView> {
    Seq::new(fields.len(), |i: int| fields[i]@)
}

/// The view of a list with one more field is the view of the list with the
/// view of that field appended.
pub proof fn lemma_fields_view_push(fields: Seq<Field>, f: Field)
    ensures
        fields_view(fields.push(f)) == fields_view(fields).push(f@),
{
    assert(fields_view(fields.push(f)) =~= fields_view(fields).push(f@));
}

/// What kind of definition a description stands for.
#[derive(Clone, Copy, Debug, PartialEq, Eq)]
pub enum Kind {
    /// A record: a product of fields.
    Record,
    /// A sum type.
    Sum,
    /// An untagged union.
    Union,
}

/// The description of a type definition. For a record the order of `fields`
/// is the layout order.
#[derive(Debug, PartialEq, Eq)]
pub struct Record {
    pub kind: Kind,
    pub name: String,
    pub vis: Visibility,
    /// The names of the type parameters, in order.
    pub params: Vec<String>,
    pub annotations: Vec<Annotation>,
    pub fields: Punctuated<Field, Comma>,
}

/// The mathematical value of a `Record`.
pub struct RecordView {
    pub kind: Kind,
    pub name: Seq<char>,
    pub vis: VisibilityView,
    pub params: Seq<Seq<char>>,
    pub annotations: Seq<AnnotationView>,
    pub fields: Seq<FieldView>,
}

impl View for Record {
    type V = RecordView;

    open spec fn view(&self) -> RecordView {
        RecordView {
            kind: self.kind,
            name: self.name@,
            vis: self.vis@,
            params: texts_view(self.params@),
            annotations: annotations_view(self.annotations@),
            fields: fields_view(punctuated_fields(self.fields)),
        }
    }
}

impl Visibility {
    /// A copy of this visibility.
    pub fn duplicate(&self) -> (r: Visibility)
        ensures
            r@ == self@,
    {
        match self {
            Visibility::Inherited => Visibility::Inherited,
            Visibility::Public => Visibility::Public,
            Visibility::Crate => Visibility::Crate,
            Visibility::Module => Visibility::Module,
            Visibility::Parent => Visibility::Parent,
            Visibility::Grandparent => Visibility::Grandparent,
            Visibility::Scoped(path) => Visibility::Scoped(path.clone()),
        }
    }
}

impl Arguments {
    /// A copy of these arguments.
    pub fn duplicate(&self) -> (r: Arguments)
        ensures
            r@ == self@,
    {
        match self {
            Arguments::Absent => Arguments::Absent,
            Arguments::Listed { items, text } => {
                Arguments::Listed { items: clone_texts(items), text: text.clone() }
            },
            Arguments::Assigned(value) => Arguments::Assigned(value.clone()),
        }
    }
}

impl Annotation {
    /// A copy of this annotation.
    pub fn duplicate(&self) -> (r: Annotation)
        ensures
            r@ == self@,
    {
        Annotation { name: self.name.clone(), args: self.args.duplicate() }
    }
}

/// A copy of a list of annotations.
pub fn clone_annotations(annotations: &Vec<Annotation>) -> (r: Vec<Annotation>)
    ensures
        annotations_view(r@) == annotations_view(annotations@),
{
    let mut out: Vec<Annotation> = Vec::new();
    let mut i: usize = 0;
    while i < annotations.len()
        invariant
            i <= annotations.len(),
            out@.len() == i,
            forall|j: int| 0 <= j < i ==> out@[j]@ == annotations@[j]@,
        decreases annotations.len() - i,
    {
        out.push(annotations[i].duplicate());
        i += 1;
    }
    assert(annotations_view(out@) =~= annotations_view(annotations@));
    out
}

/// A copy of a name that may be absent.
pub fn clone_name(name: &Option<String>) -> (r: Option<String>)
    ensures
        name_view(r) == name_view(*name),
{
    match name {
        Some(n) => Some(n.clone()),
        None => None,
    }
}

impl Field {
    /// A copy of this field.
    pub fn duplicate(&self) -> (r: Field)
        ensures
            r@ == self@,
    {
        Field {
            name: clone_name(&self.name),
            ty: clone_type(&self.ty),
            vis: self.vis.duplicate(),
            annotations: clone_annotations(&self.annotations),
        }
    }
}

/// A copy of a field list.
pub fn clone_fields(fields: &Punctuated<Field, Comma>) -> (r: Punctuated<Field, Comma>)
    ensures
        fields_view(punctuated_fields(r)) == fields_view(punctuated_fields(*fields)),
{
    let n = fields_len(fields);
    let mut out = fields_new();
    let mut i: usize = 0;
    while i < n
        invariant
            i <= n,
            n == punctuated_fields(*fields).len(),
            fields_view(punctuated_fields(out)) =~= fields_view(punctuated_fields(*fields)).take(
                i as int,
            ),
        decreases n - i,
    {
        let f = fields_at(fields, i).duplicate();
        proof {
            lemma_fields_view_push(punctuated_fields(out), f);
        }
        fields_push(&mut out, f);
        i += 1;
    }
    assert(fields_view(punctuated_fields(*fields)).take(n as int) =~= fields_view(
        punctuated_fields(*fields),
    ));
    out
}

impl Record {
    /// A copy of this description.
    pub fn duplicate(&self) -> (r: Record)
        ensures
            r@ == self@,
    {
        Record {
            kind: self.kind,
            name: self.name.clone(),
            vis: self.vis.duplicate(),
            params: clone_texts(&self.params),
            annotations: clone_annotations(&self.annotations),
            fields: clone_fields(&self.fields),
        }
    }
}

} // verus!

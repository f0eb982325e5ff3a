//! The generator: from one record description to the three derived shapes,
//! the names of what is generated, and the diagnostics.

use vstd::prelude::*;
use vstd::string::*;
use syn::punctuated::Punctuated;
use syn::token::Comma;
use crate::analyze::{
    find_and_strip_readonly_attrs, has_defined_layout, has_defined_repr,
    lemma_marked_positions, lemma_none_marked, lemma_unmarked_holds_no_marker, marked,
    marked_positions, marker_diagnostics, stripped, stripped_fields,
};
use crate::diagnostics::{Diagnostic, Failure};
use crate::fields::{fields_at, fields_len, fields_new, fields_push, punctuated_fields};
use crate::layout::{
    as_positions, identity, is_key, key_block, layout, layout_order, lemma_block_ascending,
    lemma_layout_len, listed, picked, rearrange_fields, rearranged, value_block,
};
use crate::schema::{
    annotations_view, clone_annotations, clone_name, fields_view, lemma_fields_view_push,
    Annotation, AnnotationView, Arguments, ArgumentsView, Field, FieldView, Kind, Record,
    RecordView, Visibility, VisibilityView,
};
use crate::text::{clone_texts, delimited, letters_of, texts_view, to_snake_case, with_suffix};
use crate::types::{
    clone_type, rewritten, segments_view, types_view, PathSegment, ReplaceSelf, SegmentView,
    TypeExpr, TypeView,
};

verus! {

/// An annotation with a one-entry list, such as `repr(C)`.
pub open spec fn listed_annotation(name: Seq<char>, entry: Seq<char>) -> AnnotationView {
    AnnotationView { name, args: ArgumentsView::Listed { items: seq![entry], text: entry } }
}

/// The annotations of a record, with the default fixed layout imposed where
/// the record declares none.
pub open spec fn pinned(annotations: Seq<AnnotationView>) -> Seq<AnnotationView> {
    if has_defined_layout(annotations) {
        annotations
    } else {
        annotations.push(listed_annotation("repr"@, "C"@))
    }
}

/// The visibility of a field in the emitted record. Where no field is
/// marked, every field becomes private. Otherwise a key field without a
/// visibility of its own takes the record's, and the rest stay as declared.
pub open spec fn emitted_vis(
    declared: VisibilityView,
    record: VisibilityView,
    none_marked: bool,
    key: bool,
) -> VisibilityView {
    if none_marked {
        VisibilityView::Inherited
    } else if key && declared is Inherited {
        record
    } else {
        declared
    }
}

/// The visibility of a key field in the key shape: as declared, but where
/// fields are marked a field without a visibility of its own takes the
/// record's.
pub open spec fn key_vis(
    declared: VisibilityView,
    record: VisibilityView,
    none_marked: bool,
) -> VisibilityView {
    if !none_marked && declared is Inherited {
        record
    } else {
        declared
    }
}

/// The visibility of a field in the read-only shape: a key field is private,
/// a value field stays as declared.
pub open spec fn read_only_vis(declared: VisibilityView, key: bool) -> VisibilityView {
    if key {
        VisibilityView::Inherited
    } else {
        declared
    }
}

/// The visibility of the read-only shape. It lives one scope deeper than the
/// record, so a restriction to the parent scope is widened by one level.
pub open spec fn widened(vis: VisibilityView) -> VisibilityView {
    if vis is Parent {
        VisibilityView::Grandparent
    } else {
        vis
    }
}

/// A type parameter, written as a type.
pub open spec fn param_type(name: Seq<char>) -> TypeView {
    TypeView::Path(seq![SegmentView { name, args: Seq::empty() }])
}

/// The path that names the record from within its own definition: its name,
/// applied to its type parameters.
pub open spec fn self_path(r: RecordView) -> Seq<SegmentView> {
    seq![
        SegmentView {
            name: r.name,
            args: Seq::new(r.params.len(), |k: int| param_type(r.params[k])),
        },
    ]
}

/// The field at declared position `i`, as the emitted record holds it.
pub open spec fn emitted_field(r: RecordView, marked: Seq<usize>, i: int) -> FieldView {
    FieldView {
        vis: emitted_vis(r.fields[i].vis, r.vis, marked.len() == 0, is_key(marked, i)),
        ..stripped(r.fields[i])
    }
}

/// The field at declared position `i`, as the key shape would hold it.
pub open spec fn key_field(r: RecordView, marked: Seq<usize>, i: int) -> FieldView {
    FieldView {
        vis: key_vis(r.fields[i].vis, r.vis, marked.len() == 0),
        ..stripped(r.fields[i])
    }
}

/// The field at declared position `i`, as the read-only shape holds it: its
/// type has the self alias resolved.
pub open spec fn read_only_field(r: RecordView, marked: Seq<usize>, i: int) -> FieldView {
    FieldView {
        ty: rewritten(r.fields[i].ty, self_path(r)),
        vis: read_only_vis(r.fields[i].vis, is_key(marked, i)),
        ..stripped(r.fields[i])
    }
}

/// The fields of the emitted record, in declaration order.
pub open spec fn emitted_fields(r: RecordView, marked: Seq<usize>) -> Seq<FieldView> {
    Seq::new(r.fields.len(), |i: int| emitted_field(r, marked, i))
}

/// Every field as the key shape would hold it, in declaration order.
pub open spec fn key_fields(r: RecordView, marked: Seq<usize>) -> Seq<FieldView> {
    Seq::new(r.fields.len(), |i: int| key_field(r, marked, i))
}

/// Every field as the read-only shape holds it, in declaration order.
pub open spec fn read_only_fields(r: RecordView, marked: Seq<usize>) -> Seq<FieldView> {
    Seq::new(r.fields.len(), |i: int| read_only_field(r, marked, i))
}

/// All the positions of `n` fields, in ascending order.
pub open spec fn all_positions(n: nat) -> Seq<usize> {
    Seq::new(n, |i: int| i as usize)
}

/// The key index set that generation goes by: the marked positions, or every
/// position where no field is marked.
pub open spec fn effective_keys(r: RecordView) -> Seq<usize> {
    let marked = marked_positions(r.fields);
    if marked.len() == 0 {
        all_positions(r.fields.len())
    } else {
        marked
    }
}

/// The emitted record: the record with its key markers stripped, its layout
/// pinned and its field visibilities adjusted. Its `fields` are listed in
/// declaration order; the order in which they are stored is `layout`, which
/// `generated` gives beside it.
pub open spec fn emitted_record(r: RecordView) -> RecordView {
    RecordView {
        annotations: pinned(r.annotations),
        fields: emitted_fields(r, marked_positions(r.fields)),
        ..r
    }
}

/// The key shape: the key fields alone, in declaration order.
pub open spec fn key_shape(r: RecordView) -> RecordView {
    RecordView {
        name: r.name + "Id"@,
        annotations: seq![listed_annotation("doc"@, "hidden"@)] + pinned(r.annotations),
        fields: picked(
            key_fields(r, marked_positions(r.fields)),
            key_block(r.fields.len(), marked_positions(r.fields)),
        ),
        ..r
    }
}

/// The read-only shape: every field, the key block first.
pub open spec fn read_only_shape(r: RecordView) -> RecordView {
    RecordView {
        name: r.name + "ImmutId"@,
        vis: widened(r.vis),
        annotations: seq![
            listed_annotation("derive"@, "Debug"@),
            listed_annotation("doc"@, "hidden"@),
        ] + pinned(r.annotations),
        fields: rearranged(
            read_only_fields(r, marked_positions(r.fields)),
            marked_positions(r.fields),
        ),
        ..r
    }
}

/// The name of the scope that holds the generated shapes.
pub open spec fn scope_name(name: Seq<char>) -> Seq<char> {
    "__"@ + delimited(letters_of(name))
}

/// What is generated for one record.
#[derive(Debug, PartialEq, Eq)]
pub struct Generated {
    /// The record that is emitted in place of the input. Its `fields` are
    /// listed in declaration order; it is written out, and stored, in the
    /// order that `layout` gives.
    pub record: Record,
    /// The lookup handle: the key fields alone.
    pub key_shape: Record,
    /// The view handed out while stored records are changed in place.
    pub read_only: Record,
    /// The name of the scope that holds the two generated shapes.
    pub scope: String,
    /// The key index set that generation went by. The key constructor takes
    /// these fields as its parameters, and the key hash folds them, in this
    /// order.
    pub keys: Vec<usize>,
    /// The fixed layout in which the emitted record and its read-only shape
    /// are both stored: the declared position of the field that stands at
    /// each place, key block first. `read_only.fields` is listed in this
    /// order, `record.fields` is not. The conversions between the two copy
    /// field for field along it.
    pub layout: Vec<usize>,
    /// Whether the key constructor carries a placeholder for the type
    /// parameters of the record. The placeholder has no size: it is no field
    /// of `key_shape`, whose stored layout is the key block alone.
    pub placeholder: bool,
    /// One entry for each key marker that carries arguments.
    pub diagnostics: Vec<Diagnostic>,
}

/// The mathematical value of `Generated`.
pub struct GeneratedView {
    pub record: RecordView,
    pub key_shape: RecordView,
    pub read_only: RecordView,
    pub scope: Seq<char>,
    pub keys: Seq<usize>,
    pub layout: Seq<usize>,
    pub placeholder: bool,
    pub diagnostics: Seq<Diagnostic>,
}

impl View for Generated {
    type V = GeneratedView;

    open spec fn view(&self) -> GeneratedView {
        GeneratedView {
            record: self.record@,
            key_shape: self.key_shape@,
            read_only: self.read_only@,
            scope: self.scope@,
            keys: self.keys@,
            layout: self.layout@,
            placeholder: self.placeholder,
            diagnostics: self.diagnostics@,
        }
    }
}

/// What is generated for the record `r`.
pub open spec fn generated(r: RecordView) -> GeneratedView {
    GeneratedView {
        record: emitted_record(r),
        key_shape: key_shape(r),
        read_only: read_only_shape(r),
        scope: scope_name(r.name),
        keys: effective_keys(r),
        layout: as_positions(layout(r.fields.len(), marked_positions(r.fields))),
        placeholder: r.params.len() > 0,
        diagnostics: marker_diagnostics(r.fields),
    }
}

/// An annotation with a one-entry list.
fn annotation_with_entry(name: &str, entry: &str) -> (r: Annotation)
    ensures
        r@ == listed_annotation(name@, entry@),
{
    let mut items: Vec<String> = Vec::new();
    items.push(String::from_str(entry));
    assert(texts_view(items@) =~= seq![entry@]);
    Annotation {
        name: String::from_str(name),
        args: Arguments::Listed { items, text: String::from_str(entry) },
    }
}

/// The annotations `first`, followed by a copy of `rest`.
fn followed_by(first: Vec<Annotation>, rest: &Vec<Annotation>) -> (r: Vec<Annotation>)
    ensures
        annotations_view(r@) == annotations_view(first@) + annotations_view(rest@),
{
    let ghost head = annotations_view(first@);
    let mut out = first;
    let mut i: usize = 0;
    while i < rest.len()
        invariant
            i <= rest.len(),
            annotations_view(out@) =~= head + annotations_view(rest@).take(i as int),
        decreases rest.len() - i,
    {
        let ghost prev = out@;
        let a = rest[i].duplicate();
        out.push(a);
        assert(annotations_view(out@) =~= annotations_view(prev).push(a@));
        i += 1;
    }
    assert(annotations_view(rest@).take(rest.len() as int) =~= annotations_view(rest@));
    out
}

/// The visibility of a field in the emitted record.
pub fn emit_field_vis(
    declared: &Visibility,
    record: &Visibility,
    none_marked: bool,
    key: bool,
) -> (r: Visibility)
    ensures
        r@ == emitted_vis(declared@, record@, none_marked, key),
{
    if none_marked {
        Visibility::Inherited
    } else {
        match declared {
            Visibility::Inherited => if key {
                record.duplicate()
            } else {
                Visibility::Inherited
            },
            _ => declared.duplicate(),
        }
    }
}

/// The visibility of a key field in the key shape.
pub fn emit_key_vis(declared: &Visibility, record: &Visibility, none_marked: bool) -> (r:
    Visibility)
    ensures
        r@ == key_vis(declared@, record@, none_marked),
{
    match declared {
        Visibility::Inherited => if none_marked {
            Visibility::Inherited
        } else {
            record.duplicate()
        },
        _ => declared.duplicate(),
    }
}

/// The visibility of a field in the read-only shape.
pub fn emit_read_only_vis(declared: &Visibility, key: bool) -> (r: Visibility)
    ensures
        r@ == read_only_vis(declared@, key),
{
    if key {
        Visibility::Inherited
    } else {
        declared.duplicate()
    }
}

/// The visibility of the read-only shape.
pub fn emit_widened(vis: &Visibility) -> (r: Visibility)
    ensures
        r@ == widened(vis@),
{
    match vis {
        Visibility::Parent => Visibility::Grandparent,
        _ => vis.duplicate(),
    }
}

/// The path that names the record from within its own definition.
pub fn emit_self_path(input: &Record) -> (r: Vec<PathSegment>)
    ensures
        segments_view(r@) == self_path(input@),
{
    let mut args: Vec<TypeExpr> = Vec::new();
    let mut k: usize = 0;
    while k < input.params.len()
        invariant
            k <= input.params.len(),
            args@.len() == k,
            forall|j: int| 0 <= j < k ==> args@[j]@ == param_type(input.params@[j]@),
        decreases input.params.len() - k,
    {
        let mut one: Vec<PathSegment> = Vec::new();
        one.push(PathSegment { name: input.params[k].clone(), args: Vec::new() });
        let t = TypeExpr::Path(one);
        assert(t@ == param_type(input.params@[k as int]@)) by {
            assert(types_view(one@[0].args@) =~= Seq::<TypeView>::empty());
            assert(segments_view(one@) =~= seq![
                SegmentView { name: input.params@[k as int]@, args: Seq::empty() },
            ]);
        }
        args.push(t);
        k += 1;
    }
    let mut path: Vec<PathSegment> = Vec::new();
    path.push(PathSegment { name: input.name.clone(), args });
    assert(segments_view(path@) =~= self_path(input@)) by {
        assert(types_view(args@) =~= Seq::new(
            input@.params.len(),
            |k: int| param_type(input@.params[k]),
        ));
    }
    path
}

/// All the positions of `n` fields.
fn positions(n: usize) -> (r: Vec<usize>)
    ensures
        r@ == all_positions(n as nat),
{
    let mut out: Vec<usize> = Vec::new();
    let mut i: usize = 0;
    while i < n
        invariant
            i <= n,
            out@ =~= all_positions(i as nat),
        decreases n - i,
    {
        out.push(i);
        i += 1;
    }
    out
}

/// A field list that holds a copy of each field of `fields`.
fn collect_fields(fields: &Vec<Field>) -> (r: Punctuated<Field, Comma>)
    ensures
        fields_view(punctuated_fields(r)) == fields_view(fields@),
{
    let mut out = fields_new();
    let mut i: usize = 0;
    while i < fields.len()
        invariant
            i <= fields.len(),
            fields_view(punctuated_fields(out)) =~= fields_view(fields@).take(i as int),
        decreases fields.len() - i,
    {
        let f = fields[i].duplicate();
        proof {
            lemma_fields_view_push(punctuated_fields(out), f);
        }
        fields_push(&mut out, f);
        i += 1;
    }
    assert(fields_view(fields@).take(fields.len() as int) =~= fields_view(fields@));
    out
}

/// Generates the derived shapes for one record.
///
/// An input that is not a record, or a record without fields, ends generation
/// with a failure. A record whose field list is empty counts as a record
/// without fields, however it was written. Every key marker is stripped
/// from what is generated. A key marker that carries arguments does not end
/// generation: the field counts as a key field, and one diagnostic for each
/// such marker is reported beside what is generated.
pub fn readonly(input: Record) -> (r: Result<Generated, Failure>)
    ensures
        match r {
            Ok(g) => input@.kind == Kind::Record && input@.fields.len() > 0 && g@ == generated(
                input@,
            ),
            Err(Failure::NotARecord) => input@.kind != Kind::Record,
            Err(Failure::NoFields) => input@.kind == Kind::Record && input@.fields.len() == 0,
        },
{
    match input.kind {
        Kind::Record => {
            if fields_len(&input.fields) == 0 {
                return Err(Failure::NoFields);
            }
        },
        _ => {
            return Err(Failure::NotARecord);
        },
    }
    let ghost before = input@;
    let mut input = input;
    let mut diagnostics: Vec<Diagnostic> = Vec::new();
    let indices = find_and_strip_readonly_attrs(&mut input, &mut diagnostics);
    let ghost marked = indices@;
    assert(diagnostics@ =~= marker_diagnostics(before.fields));

    let mut annotations = clone_annotations(&input.annotations);
    if !has_defined_repr(&input) {
        let ghost prev = annotations@;
        let a = annotation_with_entry("repr", "C");
        annotations.push(a);
        assert(annotations_view(annotations@) =~= annotations_view(prev).push(a@));
    }
    assert(annotations_view(annotations@) == pinned(before.annotations));

    let rewriter = ReplaceSelf::new(emit_self_path(&input));
    assert(self_path(input@) == self_path(before));
    let n = fields_len(&input.fields);
    let none_marked = indices.len() == 0;
    proof {
        assert(input@.fields == stripped_fields(before.fields));
        assert(fields_view(punctuated_fields(input.fields)) == input@.fields);
        assert(stripped_fields(before.fields).len() == before.fields.len());
        assert(fields_view(punctuated_fields(input.fields)).len() == n);
    }
    let mut emitted = fields_new();
    let mut candidates = fields_new();
    let mut read_onlys = fields_new();
    let mut i: usize = 0;
    while i < n
        invariant
            i <= n,
            n == before.fields.len(),
            marked == indices@,
            none_marked == (marked.len() == 0),
            input@.vis == before.vis,
            segments_view(rewriter.with@) == self_path(before),
            fields_view(punctuated_fields(input.fields)).len() == n,
            forall|k: int|
                0 <= k < n ==> #[trigger] fields_view(punctuated_fields(input.fields))[k]
                    == stripped(before.fields[k]),
            fields_view(punctuated_fields(emitted)) =~= emitted_fields(before, marked).take(
                i as int,
            ),
            fields_view(punctuated_fields(candidates)) =~= key_fields(before, marked).take(
                i as int,
            ),
            fields_view(punctuated_fields(read_onlys)) =~= read_only_fields(before, marked).take(
                i as int,
            ),
        decreases n - i,
    {
        let f = fields_at(&input.fields, i);
        assert(f@ == fields_view(punctuated_fields(input.fields))[i as int]);
        let key = none_marked || listed(&indices, i);
        assert(key == is_key(marked, i as int));
        let shown = Field {
            name: clone_name(&f.name),
            ty: clone_type(&f.ty),
            vis: emit_field_vis(&f.vis, &input.vis, none_marked, key),
            annotations: clone_annotations(&f.annotations),
        };
        let candidate = Field {
            name: clone_name(&f.name),
            ty: clone_type(&f.ty),
            vis: emit_key_vis(&f.vis, &input.vis, none_marked),
            annotations: clone_annotations(&f.annotations),
        };
        let read_only = Field {
            name: clone_name(&f.name),
            ty: rewriter.visit_type(&f.ty),
            vis: emit_read_only_vis(&f.vis, key),
            annotations: clone_annotations(&f.annotations),
        };
        proof {
            assert(shown@ == emitted_field(before, marked, i as int));
            assert(candidate@ == key_field(before, marked, i as int));
            assert(read_only@ == read_only_field(before, marked, i as int));
            lemma_fields_view_push(punctuated_fields(emitted), shown);
            lemma_fields_view_push(punctuated_fields(candidates), candidate);
            lemma_fields_view_push(punctuated_fields(read_onlys), read_only);
        }
        fields_push(&mut emitted, shown);
        fields_push(&mut candidates, candidate);
        fields_push(&mut read_onlys, read_only);
        i += 1;
    }
    proof {
        assert(emitted_fields(before, marked).take(n as int) =~= emitted_fields(before, marked));
        assert(key_fields(before, marked).take(n as int) =~= key_fields(before, marked));
        assert(read_only_fields(before, marked).take(n as int) =~= read_only_fields(
            before,
            marked,
        ));
    }
    let order = layout_order(n, &indices);
    let (key_block_fields, _) = rearrange_fields(&mut candidates, &indices);
    let _ = rearrange_fields(&mut read_onlys, &indices);

    let mut key_annotations: Vec<Annotation> = Vec::new();
    key_annotations.push(annotation_with_entry("doc", "hidden"));
    assert(annotations_view(key_annotations@) =~= seq![listed_annotation("doc"@, "hidden"@)]);
    let mut read_only_annotations: Vec<Annotation> = Vec::new();
    read_only_annotations.push(annotation_with_entry("derive", "Debug"));
    read_only_annotations.push(annotation_with_entry("doc", "hidden"));
    assert(annotations_view(read_only_annotations@) =~= seq![
        listed_annotation("derive"@, "Debug"@),
        listed_annotation("doc"@, "hidden"@),
    ]);

    let handle = Record {
        kind: Kind::Record,
        name: with_suffix(&input.name, "Id"),
        vis: input.vis.duplicate(),
        params: clone_texts(&input.params),
        annotations: followed_by(key_annotations, &annotations),
        fields: collect_fields(&key_block_fields),
    };
    let read_only = Record {
        kind: Kind::Record,
        name: with_suffix(&input.name, "ImmutId"),
        vis: emit_widened(&input.vis),
        params: clone_texts(&input.params),
        annotations: followed_by(read_only_annotations, &annotations),
        fields: read_onlys,
    };
    let mut scope = String::from_str("__");
    let snake = to_snake_case(input.name.as_str());
    scope.append(snake.as_str());
    let keys = if none_marked {
        positions(n)
    } else {
        indices
    };
    let placeholder = input.params.len() > 0;
    let record = Record {
        kind: Kind::Record,
        name: input.name,
        vis: input.vis,
        params: input.params,
        annotations,
        fields: emitted,
    };
    proof {
        assert(record@ == emitted_record(before));
        assert(handle@ == key_shape(before));
        assert(read_only@ == read_only_shape(before));
        assert(scope@ == scope_name(before.name));
        assert(keys@ == effective_keys(before));
    }
    Ok(
        Generated {
            record,
            key_shape: handle,
            read_only,
            scope,
            keys,
            layout: order,
            placeholder,
            diagnostics,
        },
    )
}

/// The default without markers: where no field of the record carries a key
/// marker, every field is a key field, and every field of the emitted
/// record is private.
pub proof fn lemma_unmarked_record_is_all_key(r: RecordView)
    requires
        forall|i: int| 0 <= i < r.fields.len() ==> !marked(#[trigger] r.fields[i].annotations),
    ensures
        generated(r).keys == all_positions(r.fields.len()),
        generated(r).record.fields.len() == r.fields.len(),
        forall|i: int|
            0 <= i < r.fields.len() ==> (#[trigger] generated(r).record.fields[i]).vis
                is Inherited,
        key_block(r.fields.len(), marked_positions(r.fields)) == identity(r.fields.len()),
{
    lemma_none_marked(r.fields);
    lemma_all_key(r.fields.len(), marked_positions(r.fields));
}

/// Under an empty key index set the key block holds every position.
proof fn lemma_all_key(n: nat, indices: Seq<usize>)
    requires
        indices.len() == 0,
    ensures
        key_block(n, indices) == identity(n),
    decreases n,
{
    if n > 0 {
        lemma_all_key((n - 1) as nat, indices);
    }
    assert(key_block(n, indices) =~= identity(n));
}

/// The key index set that generation goes by lists the key block: the key
/// constructor takes the key fields in the order of their declaration, which
/// is the order in which the key shape holds them.
pub proof fn lemma_keys_list_key_block(r: RecordView)
    requires
        r.fields.len() <= usize::MAX,
    ensures
        generated(r).keys == as_positions(key_block(r.fields.len(), marked_positions(r.fields))),
{
    let m = marked_positions(r.fields);
    let n = r.fields.len();
    if m.len() == 0 {
        lemma_all_key(n, m);
        assert(all_positions(n) =~= as_positions(identity(n)));
    } else {
        lemma_marked_prefix(r.fields, n);
        assert(r.fields.take(n as int) == r.fields);
    }
}

/// Among the first `k` fields, the key block under the marked positions
/// lists the marked fields.
proof fn lemma_marked_prefix(fields: Seq<FieldView>, k: nat)
    requires
        fields.len() <= usize::MAX,
        k <= fields.len(),
        marked_positions(fields).len() > 0,
    ensures
        as_positions(key_block(k, marked_positions(fields))) == marked_positions(
            fields.take(k as int),
        ),
    decreases k,
{
    let m = marked_positions(fields);
    if k > 0 {
        lemma_marked_prefix(fields, (k - 1) as nat);
        lemma_marked_positions(fields);
        let prefix = fields.take(k as int);
        assert(prefix.drop_last() == fields.take(k - 1));
        assert(prefix.last() == fields[k - 1]);
        if marked(fields[k - 1].annotations) {
            let j = choose|j: int| 0 <= j < m.len() && m[j] == k - 1;
            assert(m[j] == k - 1);
            assert(is_key(m, k - 1));
        } else {
            if is_key(m, k - 1) {
                let j = choose|j: int| 0 <= j < m.len() && m[j] == k - 1;
                assert(marked(fields[m[j] as int].annotations));
            }
        }
    }
    assert(as_positions(key_block(k, m)) =~= marked_positions(fields.take(k as int)));
}

/// The key shape is the front of the read-only shape: its fields are the
/// first fields of the read-only shape, under the same names and in the same
/// order.
pub proof fn lemma_key_shape_is_front_of_read_only(r: RecordView)
    ensures
        generated(r).key_shape.fields.len() <= generated(r).read_only.fields.len(),
        generated(r).read_only.fields.len() == r.fields.len(),
        forall|j: int|
            0 <= j < generated(r).key_shape.fields.len() ==> (#[trigger] generated(
                r,
            ).key_shape.fields[j]).name == generated(r).read_only.fields[j].name,
{
    lemma_layout_len(r.fields.len(), marked_positions(r.fields));
    lemma_block_ascending(r.fields.len(), marked_positions(r.fields), true);
}

/// The read-only shape follows the layout field for field: at each place
/// stands the field that the layout names, under its own name and with its
/// own annotations, its type the declared one with the self alias resolved.
pub proof fn lemma_read_only_follows_layout(r: RecordView)
    ensures
        generated(r).read_only.fields.len() == r.fields.len(),
        generated(r).record.fields.len() == r.fields.len(),
        forall|j: int|
            0 <= j < r.fields.len() ==> {
                let at = layout(r.fields.len(), marked_positions(r.fields))[j];
                let declared = generated(r).record.fields[at];
                let shown = #[trigger] generated(r).read_only.fields[j];
                &&& 0 <= at < r.fields.len()
                &&& shown.name == declared.name
                &&& shown.annotations == declared.annotations
                &&& shown.ty == rewritten(declared.ty, self_path(r))
            },
{
    let n = r.fields.len();
    let m = marked_positions(r.fields);
    lemma_layout_len(n, m);
    lemma_block_ascending(n, m, true);
    lemma_block_ascending(n, m, false);
    assert forall|j: int| 0 <= j < n implies 0 <= #[trigger] layout(n, m)[j] < n by {
        if j < key_block(n, m).len() {
            assert(layout(n, m)[j] == key_block(n, m)[j]);
        } else {
            assert(layout(n, m)[j] == value_block(n, m)[j - key_block(n, m).len()]);
        }
    }
}

/// No key marker is left on what is generated: no field of the emitted
/// record, of the key shape or of the read-only shape carries one.
pub proof fn lemma_shapes_hold_no_marker(r: RecordView)
    ensures
        forall|i: int|
            0 <= i < generated(r).record.fields.len() ==> !marked(
                (#[trigger] generated(r).record.fields[i]).annotations,
            ),
        forall|j: int|
            0 <= j < generated(r).key_shape.fields.len() ==> !marked(
                (#[trigger] generated(r).key_shape.fields[j]).annotations,
            ),
        forall|j: int|
            0 <= j < generated(r).read_only.fields.len() ==> !marked(
                (#[trigger] generated(r).read_only.fields[j]).annotations,
            ),
{
    let n = r.fields.len();
    let m = marked_positions(r.fields);
    lemma_layout_len(n, m);
    lemma_block_ascending(n, m, true);
    lemma_block_ascending(n, m, false);
    assert forall|i: int| 0 <= i < n implies !marked(#[trigger] stripped(r.fields[i]).annotations) by {
        lemma_unmarked_holds_no_marker(r.fields[i].annotations);
    }
    assert forall|j: int| 0 <= j < generated(r).read_only.fields.len() implies !marked(
        (#[trigger] generated(r).read_only.fields[j]).annotations,
    ) by {
        let k = key_block(n, m).len();
        if j < k {
            assert(layout(n, m)[j] == key_block(n, m)[j]);
        } else {
            assert(layout(n, m)[j] == value_block(n, m)[j - k]);
        }
        assert(0 <= layout(n, m)[j] < n);
        assert(generated(r).read_only.fields[j].annotations == stripped(
            r.fields[layout(n, m)[j]],
        ).annotations);
    }
    assert forall|j: int| 0 <= j < generated(r).key_shape.fields.len() implies !marked(
        (#[trigger] generated(r).key_shape.fields[j]).annotations,
    ) by {
        assert(0 <= key_block(n, m)[j] < n);
        assert(generated(r).key_shape.fields[j].annotations == stripped(
            r.fields[key_block(n, m)[j]],
        ).annotations);
    }
}

} // verus!

//! The schema analyzer: which fields are marked as keys, what is wrong with
//! the markers, and whether the record pins its layout.

use vstd::prelude::*;
use syn::punctuated::Punctuated;
use syn::token::Comma;
use crate::diagnostics::Diagnostic;
use crate::fields::{fields_at, fields_len, fields_new, fields_push, punctuated_fields};
use crate::schema::{
    annotations_view, clone_name, fields_view, lemma_fields_view_push, Annotation,
    AnnotationView, Arguments, ArgumentsView, Field, FieldView, Kind, Record, RecordView,
};
use crate::text::{is_word, texts_view};
use crate::types::clone_type;

verus! {

/// Whether an entry of a representation list pins the field layout.
pub open spec fn pins_layout(item: Seq<char>) -> bool {
    item == "C"@ || item == "transparent"@ || item == "packed"@
}

/// Whether an annotation declares an explicit, fixed field layout: a `repr`
/// list with an entry that pins the layout.
pub open spec fn declares_layout(a: AnnotationView) -> bool {
    a.name == "repr"@ && match a.args {
        ArgumentsView::Listed { items, text } => exists|k: int|
            0 <= k < items.len() && pins_layout(#[trigger] items[k]),
        _ => false,
    }
}

/// Whether one of the annotations declares an explicit, fixed field layout.
pub open spec fn has_defined_layout(annotations: Seq<AnnotationView>) -> bool {
    exists|j: int| 0 <= j < annotations.len() && declares_layout(#[trigger] annotations[j])
}

/// Whether one entry of a representation list pins the layout.
fn entry_pins_layout(item: &String) -> (r: bool)
    ensures
        r == pins_layout(item@),
{
    is_word(item, "C") || is_word(item, "transparent") || is_word(item, "packed")
}

/// Whether one annotation declares an explicit, fixed field layout.
fn annotation_declares_layout(a: &Annotation) -> (r: bool)
    ensures
        r == declares_layout(a@),
{
    if !is_word(&a.name, "repr") {
        return false;
    }
    match &a.args {
        Arguments::Listed { items, text } => {
            let mut k: usize = 0;
            while k < items.len()
                invariant
                    k <= items.len(),
                    a@.name == "repr"@,
                    a@.args == (ArgumentsView::Listed { items: texts_view(items@), text: text@ }),
                    forall|j: int| 0 <= j < k ==> !pins_layout(#[trigger] texts_view(items@)[j]),
                decreases items.len() - k,
            {
                if entry_pins_layout(&items[k]) {
                    assert(pins_layout(a@.args->items[k as int]));
                    return true;
                }
                k += 1;
            }
            false
        },
        _ => false,
    }
}

/// Whether the record already declares an explicit, fixed field layout.
pub fn has_defined_repr(input: &Record) -> (r: bool)
    ensures
        r == has_defined_layout(input@.annotations),
{
    let mut j: usize = 0;
    while j < input.annotations.len()
        invariant
            j <= input.annotations.len(),
            forall|k: int|
                0 <= k < j ==> !declares_layout(#[trigger] annotations_view(input.annotations@)[k]),
        decreases input.annotations.len() - j,
    {
        if annotation_declares_layout(&input.annotations[j]) {
            assert(declares_layout(annotations_view(input.annotations@)[j as int]));
            return true;
        }
        j += 1;
    }
    false
}

/// The field list of a record, lent out for reading and writing: it is the
/// record's own list, so what is changed through the result is changed in
/// the record. The call itself changes nothing.
pub fn fields_of_input(input: &mut Record) -> (r: &mut Punctuated<Field, Comma>)
    requires
        old(input).kind == Kind::Record,
    ensures
        *r == old(input).fields,
        final(input).fields == *final(r),
        final(input).kind == old(input).kind,
        final(input).name == old(input).name,
        final(input).vis == old(input).vis,
        final(input).params == old(input).params,
        final(input).annotations == old(input).annotations,
{
    &mut input.fields
}

/// Whether an annotation is a key marker, with or without arguments.
pub open spec fn is_marker(a: AnnotationView) -> bool {
    a.name == "id"@
}

/// Whether a key marker stands among `annotations`.
pub open spec fn marked(annotations: Seq<AnnotationView>) -> bool {
    exists|j: int| 0 <= j < annotations.len() && is_marker(#[trigger] annotations[j])
}

/// Whether an annotation is a key marker that carries arguments, which a
/// marker must not.
pub open spec fn over_argued(a: AnnotationView) -> bool {
    is_marker(a) && !(a.args is Absent)
}

/// The annotations without the key markers. The others stay, in their order.
pub open spec fn unmarked(annotations: Seq<AnnotationView>) -> Seq<AnnotationView> {
    annotations.filter(|a: AnnotationView| !is_marker(a))
}

/// The field without its key markers; the rest of it is unchanged.
pub open spec fn stripped(f: FieldView) -> FieldView {
    FieldView { annotations: unmarked(f.annotations), ..f }
}

/// Each field without its key markers.
pub open spec fn stripped_fields(fields: Seq<FieldView>) -> Seq<FieldView> {
    Seq::new(fields.len(), |i: int| stripped(fields[i]))
}

/// The key index set as marked: the positions of the fields that carry a key
/// marker, in ascending order.
pub open spec fn marked_positions(fields: Seq<FieldView>) -> Seq<usize>
    decreases fields.len(),
{
    if fields.len() == 0 {
        Seq::empty()
    } else {
        let init = marked_positions(fields.drop_last());
        if marked(fields.last().annotations) {
            init.push((fields.len() - 1) as usize)
        } else {
            init
        }
    }
}

/// The diagnostics for one field: one for each of its key markers that
/// carries arguments, in the order of the annotations.
pub open spec fn field_diagnostics(annotations: Seq<AnnotationView>, field: usize) -> Seq<
    Diagnostic,
>
    decreases annotations.len(),
{
    if annotations.len() == 0 {
        Seq::empty()
    } else {
        let init = field_diagnostics(annotations.drop_last(), field);
        if over_argued(annotations.last()) {
            init.push(Diagnostic { field, annotation: (annotations.len() - 1) as usize })
        } else {
            init
        }
    }
}

/// The diagnostics for a record: those of each field, in the order of the
/// fields. Every key marker that carries arguments has one.
pub open spec fn marker_diagnostics(fields: Seq<FieldView>) -> Seq<Diagnostic>
    decreases fields.len(),
{
    if fields.len() == 0 {
        Seq::empty()
    } else {
        marker_diagnostics(fields.drop_last()) + field_diagnostics(
            fields.last().annotations,
            (fields.len() - 1) as usize,
        )
    }
}

/// Taking the markers off a list with one more annotation: the annotation is
/// kept unless it is a marker.
pub proof fn lemma_unmarked_push(annotations: Seq<AnnotationView>, a: AnnotationView)
    ensures
        unmarked(annotations.push(a)) == (if is_marker(a) {
            unmarked(annotations)
        } else {
            unmarked(annotations).push(a)
        }),
{
    reveal(Seq::filter);
    assert(annotations.push(a).drop_last() =~= annotations);
}

/// What is left once the markers are taken off holds no marker.
pub proof fn lemma_unmarked_holds_no_marker(annotations: Seq<AnnotationView>)
    ensures
        !marked(unmarked(annotations)),
        forall|j: int|
            0 <= j < unmarked(annotations).len() ==> !is_marker(#[trigger] unmarked(annotations)[j]),
{
    let keep = |a: AnnotationView| !is_marker(a);
    assert forall|j: int| 0 <= j < unmarked(annotations).len() implies !is_marker(
        #[trigger] unmarked(annotations)[j],
    ) by {
        annotations.lemma_filter_pred(keep, j);
    }
}

/// Annotations without a marker among them are left as they are.
pub proof fn lemma_unmarked_without_marker(annotations: Seq<AnnotationView>)
    requires
        !marked(annotations),
    ensures
        unmarked(annotations) == annotations,
        forall|field: usize| (#[trigger] field_diagnostics(annotations, field)).len() == 0,
    decreases annotations.len(),
{
    reveal(Seq::filter);
    if annotations.len() > 0 {
        let front = annotations.drop_last();
        assert forall|j: int| 0 <= j < front.len() implies !is_marker(#[trigger] front[j]) by {
            assert(front[j] == annotations[j]);
        }
        lemma_unmarked_without_marker(front);
        assert(!is_marker(annotations[annotations.len() - 1]));
        assert(unmarked(annotations) =~= annotations);
        assert forall|field: usize| (#[trigger] field_diagnostics(annotations, field)).len()
            == 0 by {
            assert(field_diagnostics(front, field).len() == 0);
        }
    } else {
        assert(unmarked(annotations) =~= annotations);
    }
}

/// Fields that carry no key marker are left as they are by stripping: no
/// position is marked and nothing is reported.
pub proof fn lemma_strip_of_unmarked(fields: Seq<FieldView>)
    requires
        forall|i: int| 0 <= i < fields.len() ==> !marked(#[trigger] fields[i].annotations),
    ensures
        stripped_fields(fields) == fields,
        marked_positions(fields).len() == 0,
        marker_diagnostics(fields).len() == 0,
{
    assert forall|i: int| 0 <= i < fields.len() implies stripped(fields[i]) == fields[i] by {
        lemma_unmarked_without_marker(fields[i].annotations);
    }
    assert(stripped_fields(fields) =~= fields);
    lemma_none_marked(fields);
    lemma_none_reported(fields);
}

/// Stripping is done in one pass: in stripped fields no key marker is left,
/// so stripping them again changes nothing, marks no position and reports
/// nothing.
pub proof fn lemma_strip_is_idempotent(fields: Seq<FieldView>)
    ensures
        forall|i: int|
            0 <= i < fields.len() ==> !marked((#[trigger] stripped_fields(fields)[i]).annotations),
        stripped_fields(stripped_fields(fields)) == stripped_fields(fields),
        marked_positions(stripped_fields(fields)).len() == 0,
        marker_diagnostics(stripped_fields(fields)).len() == 0,
{
    let once = stripped_fields(fields);
    assert forall|i: int| 0 <= i < once.len() implies !marked((#[trigger] once[i]).annotations) by {
        lemma_unmarked_holds_no_marker(fields[i].annotations);
    }
    lemma_strip_of_unmarked(once);
}

/// Where no field carries a key marker, nothing is reported.
pub proof fn lemma_none_reported(fields: Seq<FieldView>)
    requires
        forall|i: int| 0 <= i < fields.len() ==> !marked(#[trigger] fields[i].annotations),
    ensures
        marker_diagnostics(fields).len() == 0,
    decreases fields.len(),
{
    if fields.len() > 0 {
        let front = fields.drop_last();
        assert forall|i: int| 0 <= i < front.len() implies !marked(
            #[trigger] front[i].annotations,
        ) by {
            assert(front[i] == fields[i]);
        }
        lemma_none_reported(front);
        assert(!marked(fields[fields.len() - 1].annotations));
        lemma_unmarked_without_marker(fields.last().annotations);
    }
}

/// A copy of the annotations without the key markers. Says whether there was
/// a marker, and appends to `errors` one diagnostic for each marker that
/// carries arguments.
pub fn strip_markers(annotations: &Vec<Annotation>, field: usize, errors: &mut Vec<Diagnostic>) -> (r:
    (Vec<Annotation>, bool))
    ensures
        annotations_view(r.0@) == unmarked(annotations_view(annotations@)),
        !marked(annotations_view(r.0@)),
        r.1 == marked(annotations_view(annotations@)),
        final(errors)@ == old(errors)@ + field_diagnostics(annotations_view(annotations@), field),
{
    let ghost all = annotations_view(annotations@);
    let ghost reported = errors@;
    let mut out: Vec<Annotation> = Vec::new();
    let mut found = false;
    let mut j: usize = 0;
    assert(annotations_view(out@) =~= unmarked(all.take(0))) by {
        reveal(Seq::filter);
    }
    while j < annotations.len()
        invariant
            j <= annotations.len(),
            all == annotations_view(annotations@),
            annotations_view(out@) == unmarked(all.take(j as int)),
            found == marked(all.take(j as int)),
            errors@ =~= reported + field_diagnostics(all.take(j as int), field),
        decreases annotations.len() - j,
    {
        let a = &annotations[j];
        let ghost seen = all.take(j as int);
        proof {
            let next = all.take(j + 1);
            assert(next =~= seen.push(a@));
            assert(next.drop_last() =~= seen);
            lemma_unmarked_push(seen, a@);
            if is_marker(a@) {
                assert(is_marker(next[j as int]));
            }
            if marked(seen) {
                let k = choose|k: int| 0 <= k < seen.len() && is_marker(#[trigger] seen[k]);
                assert(is_marker(next[k]));
            }
            if marked(next) && !is_marker(a@) {
                let k = choose|k: int| 0 <= k < next.len() && is_marker(#[trigger] next[k]);
                assert(is_marker(seen[k]));
            }
        }
        if is_word(&a.name, "id") {
            found = true;
            let absent = match &a.args {
                Arguments::Absent => true,
                _ => false,
            };
            if !absent {
                errors.push(Diagnostic { field, annotation: j });
            }
        } else {
            let ghost prev = out@;
            let copy = a.duplicate();
            out.push(copy);
            assert(annotations_view(out@) =~= annotations_view(prev).push(a@));
        }
        j += 1;
    }
    proof {
        assert(all.take(annotations.len() as int) =~= all);
        lemma_unmarked_holds_no_marker(all);
    }
    (out, found)
}

/// A copy of the field without its key markers. Says whether the field is
/// marked, and appends to `errors` one diagnostic for each marker that
/// carries arguments; `position` names the field in them.
pub fn strip_field(f: &Field, position: usize, errors: &mut Vec<Diagnostic>) -> (r: (Field, bool))
    ensures
        r.0@ == stripped(f@),
        !marked(r.0@.annotations),
        r.1 == marked(f@.annotations),
        final(errors)@ == old(errors)@ + field_diagnostics(f@.annotations, position),
{
    let (annotations, found) = strip_markers(&f.annotations, position, errors);
    let g = Field {
        name: clone_name(&f.name),
        ty: clone_type(&f.ty),
        vis: f.vis.duplicate(),
        annotations,
    };
    (g, found)
}

/// Finds the fields that carry a key marker and takes every marker off.
/// Returns the positions of those fields, in ascending order, and appends to
/// `errors` one diagnostic for each marker that carries arguments. A field
/// with such a marker still counts as a key field.
pub fn find_and_strip_readonly_attrs(input: &mut Record, errors: &mut Vec<Diagnostic>) -> (indices:
    Vec<usize>)
    ensures
        final(input)@ == (RecordView {
            fields: stripped_fields(old(input)@.fields),
            ..old(input)@
        }),
        forall|i: int|
            0 <= i < final(input)@.fields.len() ==> !marked(
                (#[trigger] final(input)@.fields[i]).annotations,
            ),
        indices@ == marked_positions(old(input)@.fields),
        final(errors)@ == old(errors)@ + marker_diagnostics(old(input)@.fields),
{
    let ghost before = input@.fields;
    let ghost reported = errors@;
    let n = fields_len(&input.fields);
    let mut indices: Vec<usize> = Vec::new();
    let mut out = fields_new();
    let mut i: usize = 0;
    while i < n
        invariant
            i <= n,
            n == before.len(),
            *input == *old(input),
            before == fields_view(punctuated_fields(input.fields)),
            fields_view(punctuated_fields(out)) =~= stripped_fields(before).take(i as int),
            indices@ == marked_positions(before.take(i as int)),
            errors@ =~= reported + marker_diagnostics(before.take(i as int)),
        decreases n - i,
    {
        let f = fields_at(&input.fields, i);
        let (g, found) = strip_field(f, i, errors);
        proof {
            let next = before.take(i + 1);
            assert(next.drop_last() == before.take(i as int));
            assert(next.last() == before[i as int]);
            lemma_fields_view_push(punctuated_fields(out), g);
        }
        if found {
            indices.push(i);
        }
        fields_push(&mut out, g);
        i += 1;
    }
    proof {
        assert(before.take(n as int) == before);
        assert(stripped_fields(before).take(n as int) =~= stripped_fields(before));
        lemma_strip_is_idempotent(before);
    }
    input.fields = out;
    indices
}

/// The marked positions are exactly the positions of the fields that carry
/// a key marker, in ascending order.
pub proof fn lemma_marked_positions(fields: Seq<FieldView>)
    requires
        fields.len() <= usize::MAX,
    ensures
        marked_positions(fields).len() <= fields.len(),
        forall|k: int|
            0 <= k < marked_positions(fields).len() ==> 0 <= #[trigger] marked_positions(
                fields,
            )[k] < fields.len() && marked(fields[marked_positions(fields)[k] as int].annotations),
        forall|j: int, k: int|
            0 <= j < k < marked_positions(fields).len() ==> marked_positions(fields)[j]
                < marked_positions(fields)[k],
        forall|i: int|
            0 <= i < fields.len() && marked(fields[i].annotations) ==> exists|k: int|
                0 <= k < marked_positions(fields).len() && marked_positions(fields)[k] == i,
    decreases fields.len(),
{
    if fields.len() > 0 {
        let init = marked_positions(fields.drop_last());
        let all = marked_positions(fields);
        lemma_marked_positions(fields.drop_last());
        assert forall|i: int| 0 <= i < fields.len() && marked(fields[i].annotations) implies exists|
            k: int,
        |
            0 <= k < all.len() && all[k] == i by {
            if i < fields.len() - 1 {
                assert(fields.drop_last()[i] == fields[i]);
                let k = choose|k: int| 0 <= k < init.len() && init[k] == i;
                assert(all[k] == i);
            } else {
                assert(all[all.len() - 1] == i);
            }
        }
        assert forall|k: int| 0 <= k < all.len() implies 0 <= #[trigger] all[k] < fields.len()
            && marked(fields[all[k] as int].annotations) by {
            if k < init.len() {
                assert(all[k] == init[k]);
                assert(fields.drop_last()[init[k] as int] == fields[init[k] as int]);
            }
        }
    }
}

/// Where no field carries a key marker, no position is marked.
pub proof fn lemma_none_marked(fields: Seq<FieldView>)
    requires
        forall|i: int| 0 <= i < fields.len() ==> !marked(#[trigger] fields[i].annotations),
    ensures
        marked_positions(fields).len() == 0,
    decreases fields.len(),
{
    if fields.len() > 0 {
        assert forall|i: int| 0 <= i < fields.drop_last().len() implies !marked(
            #[trigger] fields.drop_last()[i].annotations,
        ) by {
            assert(fields.drop_last()[i] == fields[i]);
        }
        lemma_none_marked(fields.drop_last());
        assert(!marked(fields[fields.len() - 1].annotations));
    }
}

/// The diagnostics of one field name exactly its key markers that carry
/// arguments, each once, in the order of the annotations.
pub proof fn lemma_field_diagnostics(annotations: Seq<AnnotationView>, field: usize)
    requires
        annotations.len() <= usize::MAX,
    ensures
        field_diagnostics(annotations, field).len() <= annotations.len(),
        forall|k: int|
            0 <= k < field_diagnostics(annotations, field).len() ==> {
                let d = #[trigger] field_diagnostics(annotations, field)[k];
                &&& d.field == field
                &&& 0 <= d.annotation < annotations.len()
                &&& over_argued(annotations[d.annotation as int])
            },
        forall|j: int, k: int|
            0 <= j < k < field_diagnostics(annotations, field).len() ==> field_diagnostics(
                annotations,
                field,
            )[j].annotation < field_diagnostics(annotations, field)[k].annotation,
        forall|j: int|
            0 <= j < annotations.len() && over_argued(annotations[j]) ==> exists|k: int|
                0 <= k < field_diagnostics(annotations, field).len() && field_diagnostics(
                    annotations,
                    field,
                )[k].annotation == j,
    decreases annotations.len(),
{
    if annotations.len() > 0 {
        let front = annotations.drop_last();
        let init = field_diagnostics(front, field);
        let all = field_diagnostics(annotations, field);
        lemma_field_diagnostics(front, field);
        assert forall|j: int| 0 <= j < annotations.len() && over_argued(annotations[j]) implies exists|
            k: int,
        | 0 <= k < all.len() && all[k].annotation == j by {
            if j < annotations.len() - 1 {
                assert(front[j] == annotations[j]);
                let k = choose|k: int| 0 <= k < init.len() && init[k].annotation == j;
                assert(all[k].annotation == j);
            } else {
                assert(all[all.len() - 1].annotation == j);
            }
        }
        assert forall|k: int| 0 <= k < all.len() implies {
            let d = #[trigger] all[k];
            &&& d.field == field
            &&& 0 <= d.annotation < annotations.len()
            &&& over_argued(annotations[d.annotation as int])
        } by {
            if k < init.len() {
                assert(all[k] == init[k]);
                assert(front[init[k].annotation as int] == annotations[init[k].annotation as int]);
            }
        }
    }
}

/// Every key marker that carries arguments is reported, and nothing else
/// is: each diagnostic names a field and, among its annotations, a key
/// marker that carries arguments; and each such marker has its diagnostic.
pub proof fn lemma_diagnostics_report_all(fields: Seq<FieldView>)
    requires
        fields.len() <= usize::MAX,
        forall|i: int| 0 <= i < fields.len() ==> (#[trigger] fields[i]).annotations.len() <= usize::MAX,
    ensures
        forall|k: int|
            0 <= k < marker_diagnostics(fields).len() ==> {
                let d = #[trigger] marker_diagnostics(fields)[k];
                &&& 0 <= d.field < fields.len()
                &&& 0 <= d.annotation < fields[d.field as int].annotations.len()
                &&& over_argued(fields[d.field as int].annotations[d.annotation as int])
            },
        forall|i: int, j: int|
            0 <= i < fields.len() && 0 <= j < fields[i].annotations.len() && over_argued(
                #[trigger] fields[i].annotations[j],
            ) ==> exists|k: int|
                0 <= k < marker_diagnostics(fields).len() && marker_diagnostics(fields)[k] == (
                Diagnostic { field: i as usize, annotation: j as usize }),
    decreases fields.len(),
{
    if fields.len() > 0 {
        let front = fields.drop_last();
        let last = (fields.len() - 1) as usize;
        let init = marker_diagnostics(front);
        let here = field_diagnostics(fields.last().annotations, last);
        let all = marker_diagnostics(fields);
        assert(all == init + here);
        lemma_diagnostics_report_all(front);
        lemma_field_diagnostics(fields.last().annotations, last);
        assert forall|k: int| 0 <= k < all.len() implies {
            let d = #[trigger] all[k];
            &&& 0 <= d.field < fields.len()
            &&& 0 <= d.annotation < fields[d.field as int].annotations.len()
            &&& over_argued(fields[d.field as int].annotations[d.annotation as int])
        } by {
            if k < init.len() {
                assert(all[k] == init[k]);
                assert(front[init[k].field as int] == fields[init[k].field as int]);
            } else {
                assert(all[k] == here[k - init.len()]);
            }
        }
        assert forall|i: int, j: int|
            0 <= i < fields.len() && 0 <= j < fields[i].annotations.len() && over_argued(
                #[trigger] fields[i].annotations[j],
            ) implies exists|k: int|
            0 <= k < all.len() && all[k] == (Diagnostic {
                field: i as usize,
                annotation: j as usize,
            }) by {
            if i < fields.len() - 1 {
                assert(front[i] == fields[i]);
                let k = choose|k: int|
                    0 <= k < init.len() && init[k] == (Diagnostic {
                        field: i as usize,
                        annotation: j as usize,
                    });
                assert(all[k] == init[k]);
            } else {
                let k = choose|k: int| 0 <= k < here.len() && here[k].annotation == j;
                assert(all[init.len() + k] == here[k]);
            }
        }
    }
}

} // verus!

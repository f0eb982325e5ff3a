//! Type expressions of fields, and the rewriting of the self alias in them.

use vstd::prelude::*;
use crate::text::{clone_texts, is_word, texts_view};

verus! {

/// A type expression as written on a field.
#[derive(Debug, PartialEq, Eq)]
pub enum TypeExpr {
    /// A path such as `a::b<T>`: its segments, outermost first.
    Path(Vec<PathSegment>),
    /// Any other form, such as a reference or a tuple: the operand types in
    /// order, and the text that stands before, between and after them.
    Form { pieces: Vec<String>, parts: Vec<TypeExpr> },
}

/// One segment of a path, with its generic arguments.
#[derive(Debug, PartialEq, Eq)]
pub struct PathSegment {
    pub name: String,
    pub args: Vec<TypeExpr>,
}

/// The mathematical value of a `TypeExpr`.
pub enum TypeView {
    Path(Seq<SegmentView>),
    Form { pieces: Seq<Seq<char>>, parts: Seq<TypeView> },
}

/// The mathematical value of a `PathSegment`.
pub struct SegmentView {
    pub name: Seq<char>,
    pub args: Seq<TypeView>,
}

/// The view of a type expression: the same tree, over mathematical sequences.
pub open spec fn type_view(t: TypeExpr) -> TypeView
    decreases t,
{
    match t {
        TypeExpr::Path(segments) => TypeView::Path(segments_view(segments@)),
        TypeExpr::Form { pieces, parts } => TypeView::Form {
            pieces: texts_view(pieces@),
            parts: types_view(parts@),
        },
    }
}

/// The view of each type expression of a list.
pub open spec fn types_view(ts: Seq<TypeExpr>) -> Seq<TypeView>
    decreases ts,
{
    Seq::new(ts.len(), |i: int| if 0 <= i < ts.len() { type_view(ts[i]) } else { arbitrary() })
}

/// The view of a path segment.
pub open spec fn segment_view(s: PathSegment) -> SegmentView
    decreases s,
{
    SegmentView { name: s.name@, args: types_view(s.args@) }
}

/// The view of each segment of a path.
pub open spec fn segments_view(ss: Seq<PathSegment>) -> Seq<SegmentView>
    decreases ss,
{
    Seq::new(ss.len(), |i: int| if 0 <= i < ss.len() { segment_view(ss[i]) } else { arbitrary() })
}

impl View for TypeExpr {
    type V = TypeView;

    open spec fn view(&self) -> TypeView {
        type_view(*self)
    }
}

impl View for PathSegment {
    type V = SegmentView;

    open spec fn view(&self) -> SegmentView {
        segment_view(*self)
    }
}

/// Copies a type expression.
pub fn clone_type(t: &TypeExpr) -> (r: TypeExpr)
    ensures
        r@ == t@,
    decreases t,
{
    match t {
        TypeExpr::Path(segments) => TypeExpr::Path(clone_segments(segments)),
        TypeExpr::Form { pieces, parts } => {
            TypeExpr::Form { pieces: clone_texts(pieces), parts: clone_types(parts) }
        },
    }
}

/// Copies a list of type expressions.
pub fn clone_types(ts: &Vec<TypeExpr>) -> (r: Vec<TypeExpr>)
    ensures
        types_view(r@) == types_view(ts@),
    decreases ts,
{
    let mut out: Vec<TypeExpr> = Vec::new();
    let mut i: usize = 0;
    while i < ts.len()
        invariant
            i <= ts.len(),
            out@.len() == i,
            forall|j: int| 0 <= j < i ==> out@[j]@ == ts@[j]@,
        decreases ts.len() - i,
    {
        out.push(clone_type(&ts[i]));
        i += 1;
    }
    assert(types_view(out@) =~= types_view(ts@));
    out
}

/// Copies one path segment.
pub fn clone_segment(s: &PathSegment) -> (r: PathSegment)
    ensures
        r@ == s@,
    decreases s,
{
    PathSegment { name: s.name.clone(), args: clone_types(&s.args) }
}

/// Copies the segments of a path.
pub fn clone_segments(ss: &Vec<PathSegment>) -> (r: Vec<PathSegment>)
    ensures
        segments_view(r@) == segments_view(ss@),
    decreases ss,
{
    let mut out: Vec<PathSegment> = Vec::new();
    let mut i: usize = 0;
    while i < ss.len()
        invariant
            i <= ss.len(),
            out@.len() == i,
            forall|j: int| 0 <= j < i ==> out@[j]@ == ss@[j]@,
        decreases ss.len() - i,
    {
        out.push(clone_segment(&ss[i]));
        i += 1;
    }
    assert(segments_view(out@) =~= segments_view(ss@));
    out
}

/// Whether a path is the self alias: the single segment `Self`, without
/// arguments.
pub open spec fn is_self_alias(segments: Seq<SegmentView>) -> bool {
    segments.len() == 1 && segments[0].name == "Self"@ && segments[0].args.len() == 0
}

/// The type expression `t` with each path that is the self alias replaced by
/// the path `with`. Paths inside generic arguments and inside other forms are
/// reached; a segment that merely is spelled `Self` within a longer path is
/// left alone, and so is what `with` itself holds.
pub open spec fn rewritten(t: TypeView, with: Seq<SegmentView>) -> TypeView
    decreases t,
{
    match t {
        TypeView::Path(segments) => if is_self_alias(segments) {
            TypeView::Path(with)
        } else {
            TypeView::Path(rewritten_segments(segments, with))
        },
        TypeView::Form { pieces, parts } => TypeView::Form {
            pieces,
            parts: rewritten_all(parts, with),
        },
    }
}

/// `rewritten`, of each type expression of a list.
pub open spec fn rewritten_all(ts: Seq<TypeView>, with: Seq<SegmentView>) -> Seq<TypeView>
    decreases ts,
{
    Seq::new(
        ts.len(),
        |i: int| if 0 <= i < ts.len() { rewritten(ts[i], with) } else { arbitrary() },
    )
}

/// `rewritten`, of each argument of a path segment.
pub open spec fn rewritten_segment(s: SegmentView, with: Seq<SegmentView>) -> SegmentView
    decreases s,
{
    SegmentView { name: s.name, args: rewritten_all(s.args, with) }
}

/// `rewritten_segment`, of each segment of a path.
pub open spec fn rewritten_segments(ss: Seq<SegmentView>, with: Seq<SegmentView>) -> Seq<
    SegmentView,
>
    decreases ss,
{
    Seq::new(
        ss.len(),
        |i: int| if 0 <= i < ss.len() { rewritten_segment(ss[i], with) } else { arbitrary() },
    )
}

/// The rewriter that resolves the self alias to a concrete path.
pub struct ReplaceSelf {
    pub with: Vec<PathSegment>,
}

impl ReplaceSelf {
    /// A rewriter that puts `with` in place of the self alias.
    pub fn new(with: Vec<PathSegment>) -> (r: ReplaceSelf)
        ensures
            r.with == with,
    {
        ReplaceSelf { with }
    }

    /// The path `segments` after rewriting: the replacement where the path is
    /// the self alias, else the path with its arguments rewritten.
    pub fn visit_path(&self, segments: &Vec<PathSegment>) -> (r: Vec<PathSegment>)
        ensures
            segments_view(r@) == (if is_self_alias(segments_view(segments@)) {
                segments_view(self.with@)
            } else {
                rewritten_segments(segments_view(segments@), segments_view(self.with@))
            }),
        decreases segments, 1nat,
    {
        if segments.len() == 1 && is_word(&segments[0].name, "Self") && segments[0].args.len()
            == 0 {
            clone_segments(&self.with)
        } else {
            let mut out: Vec<PathSegment> = Vec::new();
            let mut i: usize = 0;
            while i < segments.len()
                invariant
                    i <= segments.len(),
                    out@.len() == i,
                    forall|j: int|
                        0 <= j < i ==> out@[j]@ == rewritten_segment(
                            segments@[j]@,
                            segments_view(self.with@),
                        ),
                decreases segments.len() - i,
            {
                let s = &segments[i];
                out.push(PathSegment { name: s.name.clone(), args: self.visit_types(&s.args) });
                i += 1;
            }
            assert(segments_view(out@) =~= rewritten_segments(
                segments_view(segments@),
                segments_view(self.with@),
            ));
            out
        }
    }

    /// The type expression `ty` after rewriting.
    pub fn visit_type(&self, ty: &TypeExpr) -> (r: TypeExpr)
        ensures
            r@ == rewritten(ty@, segments_view(self.with@)),
        decreases ty, 0nat,
    {
        match ty {
            TypeExpr::Path(segments) => TypeExpr::Path(self.visit_path(segments)),
            TypeExpr::Form { pieces, parts } => {
                TypeExpr::Form { pieces: clone_texts(pieces), parts: self.visit_types(parts) }
            },
        }
    }

    /// Each type expression of `ts` after rewriting.
    pub fn visit_types(&self, ts: &Vec<TypeExpr>) -> (r: Vec<TypeExpr>)
        ensures
            types_view(r@) == rewritten_all(types_view(ts@), segments_view(self.with@)),
        decreases ts, 0nat,
    {
        let mut out: Vec<TypeExpr> = Vec::new();
        let mut i: usize = 0;
        while i < ts.len()
            invariant
                i <= ts.len(),
                out@.len() == i,
                forall|j: int|
                    0 <= j < i ==> out@[j]@ == rewritten(ts@[j]@, segments_view(self.with@)),
            decreases ts.len() - i,
        {
            out.push(self.visit_type(&ts[i]));
            i += 1;
        }
        assert(types_view(out@) =~= rewritten_all(types_view(ts@), segments_view(self.with@)));
        out
    }
}

/// Whether the self alias occurs in a type expression, at any depth.
pub open spec fn mentions_self(t: TypeView) -> bool
    decreases t,
{
    match t {
        TypeView::Path(segments) => is_self_alias(segments) || path_mentions_self(segments),
        TypeView::Form { pieces, parts } => any_mentions_self(parts),
    }
}

/// Whether the self alias occurs in one of the type expressions.
pub open spec fn any_mentions_self(ts: Seq<TypeView>) -> bool
    decreases ts,
{
    exists|k: int| 0 <= k < ts.len() && mentions_self(#[trigger] ts[k])
}

/// Whether the self alias occurs in an argument of one of the segments.
pub open spec fn path_mentions_self(ss: Seq<SegmentView>) -> bool
    decreases ss,
{
    exists|i: int| 0 <= i < ss.len() && any_mentions_self((#[trigger] ss[i]).args)
}

/// A type expression in which the self alias does not occur is left as it
/// is.
pub proof fn lemma_rewrite_without_alias(t: TypeView, with: Seq<SegmentView>)
    requires
        !mentions_self(t),
    ensures
        rewritten(t, with) == t,
    decreases t,
{
    match t {
        TypeView::Path(segments) => {
            assert forall|i: int| 0 <= i < segments.len() implies rewritten_segment(
                segments[i],
                with,
            ) == segments[i] by {
                assert(!any_mentions_self(segments[i].args));
                lemma_rewrite_all_without_alias(segments[i].args, with);
            }
            assert(rewritten_segments(segments, with) =~= segments);
        },
        TypeView::Form { pieces, parts } => {
            lemma_rewrite_all_without_alias(parts, with);
        },
    }
}

/// Type expressions in none of which the self alias occurs are left as they
/// are.
pub proof fn lemma_rewrite_all_without_alias(ts: Seq<TypeView>, with: Seq<SegmentView>)
    requires
        !any_mentions_self(ts),
    ensures
        rewritten_all(ts, with) == ts,
    decreases ts,
{
    assert forall|k: int| 0 <= k < ts.len() implies rewritten(ts[k], with) == ts[k] by {
        assert(!mentions_self(ts[k]));
        lemma_rewrite_without_alias(ts[k], with);
    }
    assert(rewritten_all(ts, with) =~= ts);
}

/// Where the replacement itself is free of the self alias, rewriting leaves
/// no self alias behind.
pub proof fn lemma_rewrite_resolves_alias(t: TypeView, with: Seq<SegmentView>)
    requires
        !mentions_self(TypeView::Path(with)),
    ensures
        !mentions_self(rewritten(t, with)),
    decreases t,
{
    match t {
        TypeView::Path(segments) => {
            if !is_self_alias(segments) {
                let out = rewritten_segments(segments, with);
                assert forall|i: int| 0 <= i < out.len() implies !any_mentions_self(
                    (#[trigger] out[i]).args,
                ) by {
                    lemma_rewrite_all_resolves_alias(segments[i].args, with);
                }
                assert(!is_self_alias(out)) by {
                    if out.len() == 1 {
                        assert(out[0].name == segments[0].name);
                        assert(out[0].args.len() == segments[0].args.len());
                    }
                }
            }
        },
        TypeView::Form { pieces, parts } => {
            lemma_rewrite_all_resolves_alias(parts, with);
        },
    }
}

/// `lemma_rewrite_resolves_alias`, of each type expression of a list.
pub proof fn lemma_rewrite_all_resolves_alias(ts: Seq<TypeView>, with: Seq<SegmentView>)
    requires
        !mentions_self(TypeView::Path(with)),
    ensures
        !any_mentions_self(rewritten_all(ts, with)),
    decreases ts,
{
    let out = rewritten_all(ts, with);
    assert forall|k: int| 0 <= k < out.len() implies !mentions_self(#[trigger] out[k]) by {
        lemma_rewrite_resolves_alias(ts[k], with);
    }
}

} // verus!

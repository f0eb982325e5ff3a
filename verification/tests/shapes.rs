use mut_set_derive::expand::{
    emit_field_vis, emit_key_vis, emit_read_only_vis, emit_self_path, emit_widened,
};
use mut_set_derive::schema::{
    clone_annotations, clone_fields, clone_name, Annotation, Arguments, Field, Kind, Record,
    Visibility,
};
use mut_set_derive::text::{clone_texts, is_word, with_suffix};
use mut_set_derive::types::{PathSegment, TypeExpr};
use syn::punctuated::Punctuated;

fn all_visibilities() -> Vec<Visibility> {
    vec![
        Visibility::Inherited,
        Visibility::Public,
        Visibility::Crate,
        Visibility::Module,
        Visibility::Parent,
        Visibility::Grandparent,
        Visibility::Scoped("crate::a".to_string()),
    ]
}

fn sample_field() -> Field {
    Field {
        name: Some("a".to_string()),
        ty: TypeExpr::Form {
            pieces: vec!["&".to_string(), "".to_string()],
            parts: vec![TypeExpr::Path(vec![PathSegment { name: "str".to_string(), args: vec![] }])],
        },
        vis: Visibility::Scoped("crate::m".to_string()),
        annotations: vec![
            Annotation { name: "id".to_string(), args: Arguments::Absent },
            Annotation { name: "doc".to_string(), args: Arguments::Assigned("\"x\"".to_string()) },
            Annotation {
                name: "cfg".to_string(),
                args: Arguments::Listed { items: vec!["test".to_string()], text: "test".to_string() },
            },
        ],
    }
}

#[test]
fn duplicates_equal_their_sources() {
    for v in all_visibilities() {
        assert_eq!(v.duplicate(), v);
    }
    let f = sample_field();
    assert_eq!(f.duplicate(), f);
    for a in &f.annotations {
        assert_eq!(a.duplicate(), *a);
        assert_eq!(a.args.duplicate(), a.args);
    }
    assert_eq!(clone_annotations(&f.annotations), f.annotations);
    assert_eq!(clone_name(&f.name), f.name);
    assert_eq!(clone_name(&None), None);
    let texts = vec!["a".to_string(), "".to_string(), "bc".to_string()];
    assert_eq!(clone_texts(&texts), texts);
}

#[test]
fn record_duplicate_copies_every_part() {
    let mut fields = Punctuated::new();
    fields.push(sample_field());
    fields.push(sample_field());
    let r = Record {
        kind: Kind::Union,
        name: "R".to_string(),
        vis: Visibility::Crate,
        params: vec!["'a".to_string(), "T".to_string()],
        annotations: sample_field().annotations,
        fields,
    };
    assert_eq!(r.duplicate(), r);
    assert_eq!(clone_fields(&r.fields), r.fields);
}

#[test]
fn is_word_compares_whole_text() {
    assert!(is_word(&"id".to_string(), "id"));
    assert!(!is_word(&"id ".to_string(), "id"));
    assert!(!is_word(&"Id".to_string(), "id"));
    assert!(!is_word(&"".to_string(), "id"));
    assert!(is_word(&"".to_string(), ""));
}

#[test]
fn with_suffix_appends() {
    assert_eq!(with_suffix(&"Row".to_string(), "Id"), "RowId");
    assert_eq!(with_suffix(&"".to_string(), "ImmutId"), "ImmutId");
    assert_eq!(with_suffix(&"Row".to_string(), ""), "Row");
}

#[test]
fn field_visibility_in_emitted_record() {
    let record = Visibility::Crate;
    for declared in all_visibilities() {
        assert_eq!(emit_field_vis(&declared, &record, true, true), Visibility::Inherited);
        assert_eq!(emit_field_vis(&declared, &record, true, false), Visibility::Inherited);
        assert_eq!(emit_field_vis(&declared, &record, false, false), declared);
        let expected =
            if declared == Visibility::Inherited { Visibility::Crate } else { declared.duplicate() };
        assert_eq!(emit_field_vis(&declared, &record, false, true), expected);
    }
}

#[test]
fn field_visibility_in_key_shape() {
    let record = Visibility::Parent;
    for declared in all_visibilities() {
        assert_eq!(emit_key_vis(&declared, &record, true), declared);
        let expected =
            if declared == Visibility::Inherited { Visibility::Parent } else { declared.duplicate() };
        assert_eq!(emit_key_vis(&declared, &record, false), expected);
    }
}

#[test]
fn field_visibility_in_read_only_shape() {
    for declared in all_visibilities() {
        assert_eq!(emit_read_only_vis(&declared, true), Visibility::Inherited);
        assert_eq!(emit_read_only_vis(&declared, false), declared);
    }
}

#[test]
fn only_parent_visibility_is_widened() {
    for vis in all_visibilities() {
        let expected =
            if vis == Visibility::Parent { Visibility::Grandparent } else { vis.duplicate() };
        assert_eq!(emit_widened(&vis), expected);
    }
}

#[test]
fn self_path_applies_name_to_type_parameters() {
    let r = Record {
        kind: Kind::Record,
        name: "Node".to_string(),
        vis: Visibility::Public,
        params: vec!["'a".to_string(), "T".to_string()],
        annotations: vec![],
        fields: Punctuated::new(),
    };
    let param = |n: &str| TypeExpr::Path(vec![PathSegment { name: n.to_string(), args: vec![] }]);
    assert_eq!(
        emit_self_path(&r),
        vec![PathSegment { name: "Node".to_string(), args: vec![param("'a"), param("T")] }]
    );
    let plain = Record { params: vec![], ..r };
    assert_eq!(emit_self_path(&plain), vec![PathSegment { name: "Node".to_string(), args: vec![] }]);
}

use mut_set_derive::diagnostics::{Diagnostic, Failure};
use mut_set_derive::expand::{readonly, Generated};
use mut_set_derive::schema::{Annotation, Arguments, Field, Kind, Record, Visibility};
use mut_set_derive::types::{PathSegment, TypeExpr};
use syn::punctuated::Punctuated;
use syn::token::Comma;

fn ty(name: &str) -> TypeExpr {
    TypeExpr::Path(vec![PathSegment { name: name.to_string(), args: vec![] }])
}

fn marker() -> Annotation {
    Annotation { name: "id".to_string(), args: Arguments::Absent }
}

fn listed(name: &str, entry: &str) -> Annotation {
    Annotation {
        name: name.to_string(),
        args: Arguments::Listed { items: vec![entry.to_string()], text: entry.to_string() },
    }
}

fn field(name: &str, t: TypeExpr, vis: Visibility, annotations: Vec<Annotation>) -> Field {
    Field { name: Some(name.to_string()), ty: t, vis, annotations }
}

fn record(name: &str, vis: Visibility, params: &[&str], fields: Vec<Field>) -> Record {
    let mut list: Punctuated<Field, Comma> = Punctuated::new();
    for f in fields {
        list.push(f);
    }
    Record {
        kind: Kind::Record,
        name: name.to_string(),
        vis,
        params: params.iter().map(|p| p.to_string()).collect(),
        annotations: vec![],
        fields: list,
    }
}

fn names(r: &Record) -> Vec<String> {
    r.fields.iter().map(|f| f.name.clone().unwrap()).collect()
}

fn visibilities(r: &Record) -> Vec<&Visibility> {
    r.fields.iter().map(|f| &f.vis).collect()
}

fn example() -> Generated {
    let input = record(
        "Entry",
        Visibility::Public,
        &["T", "U"],
        vec![
            field("id1", ty("i32"), Visibility::Inherited, vec![marker()]),
            field("ctx1", ty("T"), Visibility::Public, vec![]),
            field("ctx2", ty("U"), Visibility::Inherited, vec![]),
            field("id2", ty("String"), Visibility::Inherited, vec![marker()]),
        ],
    );
    readonly(input).unwrap()
}

#[test]
fn key_shape_holds_key_fields_in_declaration_order() {
    let g = example();
    assert_eq!(names(&g.key_shape), vec!["id1", "id2"]);
}

#[test]
fn read_only_shape_puts_key_block_first() {
    let g = example();
    assert_eq!(names(&g.read_only), vec!["id1", "id2", "ctx1", "ctx2"]);
    assert_eq!(g.layout, vec![0, 3, 1, 2]);
}

#[test]
fn key_constructor_takes_key_fields_in_declaration_order() {
    let g = example();
    assert_eq!(g.keys, vec![0, 3]);
    let params: Vec<String> =
        g.keys.iter().map(|&i| g.record.fields[i].name.clone().unwrap()).collect();
    assert_eq!(params, vec!["id1", "id2"]);
}

#[test]
fn emitted_record_keeps_declaration_order() {
    let g = example();
    assert_eq!(names(&g.record), vec!["id1", "ctx1", "ctx2", "id2"]);
}

#[test]
fn markers_are_stripped_from_every_shape() {
    let g = example();
    for shape in [&g.record, &g.key_shape, &g.read_only] {
        for f in shape.fields.iter() {
            assert!(f.annotations.is_empty());
        }
    }
}

#[test]
fn other_annotations_pass_through() {
    let keep = listed("serde", "skip");
    let input = record(
        "Entry",
        Visibility::Public,
        &[],
        vec![
            field("a", ty("u8"), Visibility::Public, vec![listed("doc", "x"), marker(), keep]),
            field("b", ty("u8"), Visibility::Public, vec![listed("doc", "y")]),
        ],
    );
    let g = readonly(input).unwrap();
    assert_eq!(g.record.fields[0].annotations, vec![listed("doc", "x"), listed("serde", "skip")]);
    assert_eq!(g.record.fields[1].annotations, vec![listed("doc", "y")]);
    assert_eq!(g.key_shape.fields[0].annotations, vec![listed("doc", "x"), listed("serde", "skip")]);
    assert_eq!(g.read_only.fields[1].annotations, vec![listed("doc", "y")]);
}

#[test]
fn every_marker_of_a_field_is_stripped() {
    let input = record(
        "Entry",
        Visibility::Public,
        &[],
        vec![
            field("a", ty("u8"), Visibility::Public, vec![marker(), marker()]),
            field("b", ty("u8"), Visibility::Public, vec![marker(), listed("doc", "x"), marker()]),
        ],
    );
    let g = readonly(input).unwrap();
    assert_eq!(g.record.fields[0].annotations, vec![]);
    assert_eq!(g.record.fields[1].annotations, vec![listed("doc", "x")]);
    assert_eq!(g.key_shape.fields[0].annotations, vec![]);
    assert_eq!(g.key_shape.fields[1].annotations, vec![listed("doc", "x")]);
    assert_eq!(g.read_only.fields[0].annotations, vec![]);
    assert_eq!(g.read_only.fields[1].annotations, vec![listed("doc", "x")]);
    assert_eq!(g.keys, vec![0, 1]);
    assert_eq!(g.diagnostics, vec![]);
}

#[test]
fn every_over_argued_marker_of_a_field_is_reported() {
    let with_list = Annotation {
        name: "id".to_string(),
        args: Arguments::Listed { items: vec!["x".to_string()], text: "x".to_string() },
    };
    let with_value = Annotation { name: "id".to_string(), args: Arguments::Assigned("1".to_string()) };
    let input = record(
        "Entry",
        Visibility::Public,
        &[],
        vec![
            field("a", ty("u8"), Visibility::Public, vec![]),
            field(
                "b",
                ty("u8"),
                Visibility::Public,
                vec![with_list, marker(), listed("doc", "x"), with_value],
            ),
        ],
    );
    let g = readonly(input).unwrap();
    assert_eq!(
        g.diagnostics,
        vec![Diagnostic { field: 1, annotation: 0 }, Diagnostic { field: 1, annotation: 3 }]
    );
    assert_eq!(g.keys, vec![1]);
    assert_eq!(g.record.fields[1].annotations, vec![listed("doc", "x")]);
}

#[test]
fn generated_names_derive_from_record_name() {
    let g = example();
    assert_eq!(g.record.name, "Entry");
    assert_eq!(g.key_shape.name, "EntryId");
    assert_eq!(g.read_only.name, "EntryImmutId");
    assert_eq!(g.scope, "__entry");
}

#[test]
fn scope_name_is_snake_case_of_record_name() {
    let input = record(
        "MyBigItem",
        Visibility::Public,
        &[],
        vec![field("a", ty("u8"), Visibility::Public, vec![marker()])],
    );
    assert_eq!(readonly(input).unwrap().scope, "__my_big_item");
}

#[test]
fn inherited_key_field_takes_record_visibility_in_emitted_record() {
    let g = example();
    assert_eq!(
        visibilities(&g.record),
        vec![
            &Visibility::Public,
            &Visibility::Public,
            &Visibility::Inherited,
            &Visibility::Public
        ]
    );
}

#[test]
fn explicit_key_field_visibility_is_kept_in_emitted_record() {
    let input = record(
        "Entry",
        Visibility::Public,
        &[],
        vec![
            field("a", ty("u8"), Visibility::Crate, vec![marker()]),
            field("b", ty("u8"), Visibility::Inherited, vec![]),
        ],
    );
    let g = readonly(input).unwrap();
    assert_eq!(visibilities(&g.record), vec![&Visibility::Crate, &Visibility::Inherited]);
    assert_eq!(visibilities(&g.key_shape), vec![&Visibility::Crate]);
}

#[test]
fn read_only_shape_hides_key_fields_and_keeps_value_fields() {
    let g = example();
    assert_eq!(
        visibilities(&g.read_only),
        vec![
            &Visibility::Inherited,
            &Visibility::Inherited,
            &Visibility::Public,
            &Visibility::Inherited
        ]
    );
}

#[test]
fn key_shape_fields_are_readable_as_in_emitted_record() {
    let g = example();
    assert_eq!(visibilities(&g.key_shape), vec![&Visibility::Public, &Visibility::Public]);
}

#[test]
fn no_marker_makes_every_field_a_key() {
    let input = record(
        "Entry",
        Visibility::Public,
        &[],
        vec![
            field("a", ty("u8"), Visibility::Public, vec![]),
            field("b", ty("u8"), Visibility::Crate, vec![]),
            field("c", ty("u8"), Visibility::Inherited, vec![]),
        ],
    );
    let g = readonly(input).unwrap();
    assert_eq!(g.keys, vec![0, 1, 2]);
    assert_eq!(g.layout, vec![0, 1, 2]);
    assert_eq!(
        visibilities(&g.record),
        vec![&Visibility::Inherited, &Visibility::Inherited, &Visibility::Inherited]
    );
    assert_eq!(names(&g.key_shape), vec!["a", "b", "c"]);
    assert_eq!(names(&g.read_only), vec!["a", "b", "c"]);
    assert_eq!(
        visibilities(&g.read_only),
        vec![&Visibility::Inherited, &Visibility::Inherited, &Visibility::Inherited]
    );
    assert_eq!(
        visibilities(&g.key_shape),
        vec![&Visibility::Public, &Visibility::Crate, &Visibility::Inherited]
    );
}

#[test]
fn two_over_argued_markers_give_two_diagnostics() {
    let with_list = Annotation {
        name: "id".to_string(),
        args: Arguments::Listed { items: vec!["x".to_string()], text: "x".to_string() },
    };
    let with_value = Annotation { name: "id".to_string(), args: Arguments::Assigned("1".to_string()) };
    let input = record(
        "Entry",
        Visibility::Public,
        &[],
        vec![
            field("a", ty("u8"), Visibility::Public, vec![with_list]),
            field("b", ty("u8"), Visibility::Public, vec![]),
            field("c", ty("u8"), Visibility::Public, vec![listed("doc", "x"), with_value]),
        ],
    );
    let g = readonly(input).unwrap();
    assert_eq!(
        g.diagnostics,
        vec![Diagnostic { field: 0, annotation: 0 }, Diagnostic { field: 2, annotation: 1 }]
    );
    assert_eq!(g.keys, vec![0, 2]);
    assert_eq!(names(&g.key_shape), vec!["a", "c"]);
    assert_eq!(g.record.fields[0].annotations, vec![]);
    assert_eq!(g.record.fields[2].annotations, vec![listed("doc", "x")]);
}

#[test]
fn well_formed_markers_give_no_diagnostic() {
    assert_eq!(example().diagnostics, vec![]);
}

#[test]
fn sum_type_is_refused() {
    let mut input = record("Entry", Visibility::Public, &[], vec![]);
    input.kind = Kind::Sum;
    assert_eq!(readonly(input), Err(Failure::NotARecord));
}

#[test]
fn union_is_refused() {
    let mut input = record(
        "Entry",
        Visibility::Public,
        &[],
        vec![field("a", ty("u8"), Visibility::Public, vec![marker()])],
    );
    input.kind = Kind::Union;
    assert_eq!(readonly(input), Err(Failure::NotARecord));
}

#[test]
fn record_without_fields_is_refused() {
    let input = record("Entry", Visibility::Public, &[], vec![]);
    assert_eq!(readonly(input), Err(Failure::NoFields));
}

#[test]
fn failure_messages() {
    assert_eq!(Failure::NotARecord.message(), "input must be a struct");
    assert_eq!(Failure::NoFields.message(), "input must be a struct with fields");
}

#[test]
fn layout_is_pinned_when_record_declares_none() {
    let g = example();
    assert_eq!(g.record.annotations, vec![listed("repr", "C")]);
    assert_eq!(g.key_shape.annotations, vec![listed("doc", "hidden"), listed("repr", "C")]);
    assert_eq!(
        g.read_only.annotations,
        vec![listed("derive", "Debug"), listed("doc", "hidden"), listed("repr", "C")]
    );
}

#[test]
fn declared_layout_is_left_alone() {
    let mut input = record(
        "Entry",
        Visibility::Public,
        &[],
        vec![field("a", ty("u8"), Visibility::Public, vec![marker()])],
    );
    input.annotations = vec![listed("derive", "Clone"), listed("repr", "transparent")];
    let g = readonly(input).unwrap();
    assert_eq!(g.record.annotations, vec![listed("derive", "Clone"), listed("repr", "transparent")]);
    assert_eq!(
        g.key_shape.annotations,
        vec![listed("doc", "hidden"), listed("derive", "Clone"), listed("repr", "transparent")]
    );
}

#[test]
fn parent_visibility_is_widened_for_read_only_shape() {
    let input = record(
        "Entry",
        Visibility::Parent,
        &[],
        vec![field("a", ty("u8"), Visibility::Inherited, vec![marker()])],
    );
    let g = readonly(input).unwrap();
    assert_eq!(g.read_only.vis, Visibility::Grandparent);
    assert_eq!(g.key_shape.vis, Visibility::Parent);
    assert_eq!(g.record.vis, Visibility::Parent);
    assert_eq!(g.record.fields[0].vis, Visibility::Parent);
}

#[test]
fn other_visibilities_are_not_widened() {
    for vis in [
        Visibility::Public,
        Visibility::Crate,
        Visibility::Inherited,
        Visibility::Module,
        Visibility::Grandparent,
        Visibility::Scoped("super".to_string()),
    ] {
        let expected = match &vis {
            Visibility::Scoped(p) => Visibility::Scoped(p.clone()),
            Visibility::Public => Visibility::Public,
            Visibility::Crate => Visibility::Crate,
            Visibility::Inherited => Visibility::Inherited,
            Visibility::Module => Visibility::Module,
            _ => Visibility::Grandparent,
        };
        let input =
            record("Entry", vis, &[], vec![field("a", ty("u8"), Visibility::Public, vec![marker()])]);
        assert_eq!(readonly(input).unwrap().read_only.vis, expected);
    }
}

#[test]
fn placeholder_follows_type_parameters() {
    assert!(example().placeholder);
    let plain = record(
        "Entry",
        Visibility::Public,
        &[],
        vec![field("a", ty("u8"), Visibility::Public, vec![marker()])],
    );
    assert!(!readonly(plain).unwrap().placeholder);
}

#[test]
fn shapes_keep_type_parameters() {
    let g = example();
    assert_eq!(g.key_shape.params, vec!["T", "U"]);
    assert_eq!(g.read_only.params, vec!["T", "U"]);
    assert_eq!(g.record.params, vec!["T", "U"]);
}

#[test]
fn self_alias_is_resolved_in_read_only_shape_only() {
    let boxed_self = TypeExpr::Path(vec![PathSegment {
        name: "Option".to_string(),
        args: vec![TypeExpr::Path(vec![PathSegment {
            name: "Box".to_string(),
            args: vec![ty("Self")],
        }])],
    }]);
    let input = record(
        "Node",
        Visibility::Public,
        &["T"],
        vec![
            field("id", ty("T"), Visibility::Public, vec![marker()]),
            field("next", boxed_self, Visibility::Public, vec![]),
        ],
    );
    let g = readonly(input).unwrap();
    let node_t = TypeExpr::Path(vec![PathSegment { name: "Node".to_string(), args: vec![ty("T")] }]);
    let resolved = TypeExpr::Path(vec![PathSegment {
        name: "Option".to_string(),
        args: vec![TypeExpr::Path(vec![PathSegment {
            name: "Box".to_string(),
            args: vec![node_t],
        }])],
    }]);
    assert_eq!(g.read_only.fields[1].ty, resolved);
    assert_ne!(g.record.fields[1].ty, resolved);
    assert_eq!(g.read_only.fields[0].ty, ty("T"));
}

#[test]
fn positional_fields_are_bucketed_by_position() {
    let mut list: Punctuated<Field, Comma> = Punctuated::new();
    list.push(Field { name: None, ty: ty("u8"), vis: Visibility::Inherited, annotations: vec![] });
    list.push(Field {
        name: None,
        ty: ty("u16"),
        vis: Visibility::Inherited,
        annotations: vec![marker()],
    });
    let input = Record {
        kind: Kind::Record,
        name: "Pair".to_string(),
        vis: Visibility::Public,
        params: vec![],
        annotations: vec![],
        fields: list,
    };
    let g = readonly(input).unwrap();
    assert_eq!(g.keys, vec![1]);
    assert_eq!(g.layout, vec![1, 0]);
    assert_eq!(g.read_only.fields[0].ty, ty("u16"));
    assert_eq!(g.read_only.fields[1].ty, ty("u8"));
    assert_eq!(g.key_shape.fields.len(), 1);
}

#[test]
fn test() {
    let derivative = Annotation {
        name: "derivative".to_string(),
        args: Arguments::Listed {
            items: vec!["Default".to_string()],
            text: "Default(value = \"8\")".to_string(),
        },
    };
    let mut input = record(
        "MyItem",
        Visibility::Parent,
        &["T1", "T2"],
        vec![
            field("id1", ty("usize"), Visibility::Module, vec![marker(), derivative]),
            field("ctx1", ty("T1"), Visibility::Crate, vec![]),
            field("ctx2", ty("T2"), Visibility::Parent, vec![]),
            field("id2", ty("String"), Visibility::Public, vec![marker()]),
        ],
    );
    input.annotations = vec![listed("derive", "Debug"), listed("derivative", "Default")];
    let g = readonly(input).unwrap();
    println!("{:?}", g);
    assert_eq!(g.key_shape.name, "MyItemId");
    assert_eq!(g.read_only.name, "MyItemImmutId");
    assert_eq!(g.scope, "__my_item");
    assert_eq!(g.keys, vec![0, 3]);
    assert_eq!(g.layout, vec![0, 3, 1, 2]);
    assert_eq!(names(&g.key_shape), vec!["id1", "id2"]);
    assert_eq!(names(&g.read_only), vec!["id1", "id2", "ctx1", "ctx2"]);
    assert_eq!(visibilities(&g.key_shape), vec![&Visibility::Module, &Visibility::Public]);
    assert_eq!(
        visibilities(&g.read_only),
        vec![&Visibility::Inherited, &Visibility::Inherited, &Visibility::Crate, &Visibility::Parent]
    );
    assert_eq!(g.read_only.vis, Visibility::Grandparent);
    assert_eq!(g.record.fields[0].annotations.len(), 1);
    assert_eq!(g.record.fields[0].annotations[0].name, "derivative");
    assert!(g.placeholder);
    assert!(g.diagnostics.is_empty());
    assert_eq!(
        g.record.annotations,
        vec![listed("derive", "Debug"), listed("derivative", "Default"), listed("repr", "C")]
    );
}

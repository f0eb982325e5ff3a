use mut_set_derive::expand::readonly;
use mut_set_derive::schema::{Annotation, Arguments, Field, Kind, Record, Visibility};
use mut_set_derive::types::{PathSegment, TypeExpr};
use std::collections::hash_map::DefaultHasher;
use std::hash::{Hash, Hasher};
use syn::punctuated::Punctuated;

fn record(marked: &[bool]) -> Record {
    let mut fields = Punctuated::new();
    for (i, &m) in marked.iter().enumerate() {
        let annotations = if m {
            vec![Annotation { name: "id".to_string(), args: Arguments::Absent }]
        } else {
            vec![]
        };
        fields.push(Field {
            name: Some(format!("f{}", i)),
            ty: TypeExpr::Path(vec![PathSegment { name: "u64".to_string(), args: vec![] }]),
            vis: Visibility::Public,
            annotations,
        });
    }
    Record {
        kind: Kind::Record,
        name: "Row".to_string(),
        vis: Visibility::Public,
        params: vec![],
        annotations: vec![],
        fields,
    }
}

fn to_read_only(values: &[u64], layout: &[usize]) -> Vec<u64> {
    layout.iter().map(|&p| values[p]).collect()
}

fn from_read_only(shape: &[u64], layout: &[usize]) -> Vec<u64> {
    (0..shape.len()).map(|i| shape[layout.iter().position(|&p| p == i).unwrap()]).collect()
}

fn key_hash(values: &[u64], keys: &[usize]) -> u64 {
    let mut state = DefaultHasher::new();
    for &k in keys {
        values[k].hash(&mut state);
    }
    state.finish()
}

#[test]
fn conversion_to_read_only_and_back_gives_the_record() {
    let g = readonly(record(&[false, true, false, true, false])).unwrap();
    assert_eq!(g.layout, vec![1, 3, 0, 2, 4]);
    let values = [10, 20, 30, 40, 50];
    let shape = to_read_only(&values, &g.layout);
    assert_eq!(shape, vec![20, 40, 10, 30, 50]);
    assert_eq!(from_read_only(&shape, &g.layout), values);
}

#[test]
fn layout_holds_every_position_once() {
    for marked in [
        vec![true],
        vec![false],
        vec![false, false, true],
        vec![true, false, true, false],
        vec![true, true, true],
    ] {
        let n = marked.len();
        let g = readonly(record(&marked)).unwrap();
        let mut seen = g.layout.clone();
        seen.sort();
        assert_eq!(seen, (0..n).collect::<Vec<usize>>());
    }
}

#[test]
fn key_hash_is_the_same_when_only_value_fields_differ() {
    let g = readonly(record(&[true, false, false, true])).unwrap();
    let a = [1, 2, 3, 4];
    let b = [1, 99, 77, 4];
    assert_eq!(key_hash(&a, &g.keys), key_hash(&b, &g.keys));
    let c = [1, 2, 3, 5];
    assert_ne!(key_hash(&a, &g.keys), key_hash(&c, &g.keys));
}

#[test]
fn key_is_the_front_of_the_read_only_shape() {
    let g = readonly(record(&[false, true, true, false])).unwrap();
    let values = [5, 6, 7, 8];
    let key: Vec<u64> = g.keys.iter().map(|&k| values[k]).collect();
    let shape = to_read_only(&values, &g.layout);
    assert_eq!(key, vec![6, 7]);
    assert_eq!(&shape[..key.len()], &key[..]);
}

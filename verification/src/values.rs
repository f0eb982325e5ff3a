//! What the generated capabilities compute on the value of a record: its
//! key, its hash, and its conversion to the read-only shape and back. A
//! record value is given by the values of its fields, in declaration order.

use vstd::prelude::*;
use crate::layout::{
    is_key, key_block, layout, lemma_block_ascending, lemma_layout_covers,
    lemma_layout_len, picked, rearranged,
};

verus! {

/// The value of a record in its read-only shape: the field values in layout
/// order.
pub open spec fn to_read_only<V>(values: Seq<V>, indices: Seq<usize>) -> Seq<V> {
    rearranged(values, indices)
}

/// The place in the layout of the field declared at position `i`.
pub open spec fn place_of(n: nat, indices: Seq<usize>, i: int) -> int {
    choose|j: int| 0 <= j < layout(n, indices).len() && layout(n, indices)[j] == i
}

/// The value of a record, taken back from its value in the read-only shape.
pub open spec fn from_read_only<V>(shape: Seq<V>, indices: Seq<usize>) -> Seq<V> {
    Seq::new(shape.len(), |i: int| shape[place_of(shape.len(), indices, i)])
}

/// The key of a record: the values of its key fields, in key-block order.
pub open spec fn key_of<V>(values: Seq<V>, indices: Seq<usize>) -> Seq<V> {
    picked(values, key_block(values.len(), indices))
}

/// The key-only hash: the key fields folded into the hasher state one by one,
/// in key-block order, and nothing else.
pub open spec fn key_hash<V, S>(key: Seq<V>, start: S, step: spec_fn(S, V) -> S) -> S {
    key.fold_left(start, step)
}

/// The hash of a record: the hash of the key that it lends.
pub open spec fn record_hash<V, S>(
    values: Seq<V>,
    indices: Seq<usize>,
    start: S,
    step: spec_fn(S, V) -> S,
) -> S {
    key_hash(key_of(values, indices), start, step)
}

/// Round-trip conversion: a record converted to the read-only shape and back
/// is the record it was, field for field.
pub proof fn lemma_round_trip<V>(values: Seq<V>, indices: Seq<usize>)
    ensures
        to_read_only(values, indices).len() == values.len(),
        from_read_only(to_read_only(values, indices), indices) == values,
{
    let n = values.len();
    let shape = to_read_only(values, indices);
    lemma_layout_len(n, indices);
    assert(shape.len() == n);
    assert forall|i: int| 0 <= i < n implies from_read_only(shape, indices)[i] == values[i] by {
        lemma_layout_covers(n, indices, i);
        let j = place_of(n, indices, i);
        assert(0 <= j < layout(n, indices).len() && layout(n, indices)[j] == i);
        assert(shape[j] == values[layout(n, indices)[j]]);
    }
    assert(from_read_only(shape, indices) =~= values);
}

/// Key-hash independence from value fields: two records that agree on every
/// key field have the same key, and so the same hash, whatever their value
/// fields hold.
pub proof fn lemma_key_hash_ignores_value_fields<V, S>(
    a: Seq<V>,
    b: Seq<V>,
    indices: Seq<usize>,
    start: S,
    step: spec_fn(S, V) -> S,
)
    requires
        a.len() == b.len(),
        forall|i: int| 0 <= i < a.len() && is_key(indices, i) ==> a[i] == b[i],
    ensures
        key_of(a, indices) == key_of(b, indices),
        record_hash(a, indices, start, step) == record_hash(b, indices, start, step),
{
    lemma_block_ascending(a.len(), indices, true);
    assert(key_of(a, indices) =~= key_of(b, indices));
}

/// The key of a record is the front of its read-only shape: the key block
/// stands first in the layout.
pub proof fn lemma_key_is_front_of_read_only<V>(values: Seq<V>, indices: Seq<usize>)
    ensures
        key_of(values, indices).len() <= to_read_only(values, indices).len(),
        key_of(values, indices) == to_read_only(values, indices).take(
            key_of(values, indices).len() as int,
        ),
{
    assert(key_of(values, indices) =~= to_read_only(values, indices).take(
        key_of(values, indices).len() as int,
    ));
}

} // verus!

//! The layout transformer: fields are bucketed into a key block and a value
//! block, each in declaration order, and laid out key block first.

use vstd::prelude::*;
use syn::punctuated::Punctuated;
use syn::token::Comma;
use crate::fields::{fields_at, fields_len, fields_new, fields_push, punctuated_fields};
use crate::schema::{fields_view, lemma_fields_view_push, Field};

verus! {

/// Whether position `i` belongs to the key block under the key index set
/// `indices`. An empty set marks no field, and then every field is a key.
pub open spec fn is_key(indices: Seq<usize>, i: int) -> bool {
    indices.len() == 0 || exists|k: int| 0 <= k < indices.len() && indices[k] == i
}

/// The positions below `n` that fall in the key block (`key` true) or in the
/// value block (`key` false), in ascending order.
pub open spec fn block(n: nat, indices: Seq<usize>, key: bool) -> Seq<int>
    decreases n,
{
    if n == 0 {
        Seq::empty()
    } else {
        let init = block((n - 1) as nat, indices, key);
        if is_key(indices, n - 1) == key {
            init.push(n - 1)
        } else {
            init
        }
    }
}

/// The positions of the key fields among `n` fields, in declaration order.
pub open spec fn key_block(n: nat, indices: Seq<usize>) -> Seq<int> {
    block(n, indices, true)
}

/// The positions of the value fields among `n` fields, in declaration order.
pub open spec fn value_block(n: nat, indices: Seq<usize>) -> Seq<int> {
    block(n, indices, false)
}

/// The layout order of `n` fields: for each place in the layout, the declared
/// position of the field that stands there. The key block comes first.
pub open spec fn layout(n: nat, indices: Seq<usize>) -> Seq<int> {
    key_block(n, indices) + value_block(n, indices)
}

/// The items found at the given positions, in the order of the positions.
pub open spec fn picked<T>(items: Seq<T>, positions: Seq<int>) -> Seq<T> {
    Seq::new(positions.len(), |j: int| items[positions[j]])
}

/// The items in layout order.
pub open spec fn rearranged<T>(items: Seq<T>, indices: Seq<usize>) -> Seq<T> {
    picked(items, layout(items.len(), indices))
}

/// Picking at one more position appends the item found there.
pub proof fn lemma_picked_push<T>(items: Seq<T>, positions: Seq<int>, p: int)
    ensures
        picked(items, positions.push(p)) == picked(items, positions).push(items[p]),
{
    assert(picked(items, positions.push(p)) =~= picked(items, positions).push(items[p]));
}

/// Whether `i` is listed in `indices`.
pub fn listed(indices: &Vec<usize>, i: usize) -> (r: bool)
    ensures
        r == exists|k: int| 0 <= k < indices@.len() && indices@[k] == i,
{
    let mut k: usize = 0;
    while k < indices.len()
        invariant
            k <= indices.len(),
            forall|j: int| 0 <= j < k ==> indices@[j] != i,
        decreases indices.len() - k,
    {
        if indices[k] == i {
            return true;
        }
        k += 1;
    }
    false
}

/// Positions as machine integers.
pub open spec fn as_positions(positions: Seq<int>) -> Seq<usize> {
    Seq::new(positions.len(), |j: int| positions[j] as usize)
}

/// The layout order of `n` fields: the declared position of the field that
/// stands at each place of the layout.
pub fn layout_order(n: usize, indices: &Vec<usize>) -> (r: Vec<usize>)
    ensures
        r@ == as_positions(layout(n as nat, indices@)),
{
    let every = indices.len() == 0;
    let mut out: Vec<usize> = Vec::new();
    let mut i: usize = 0;
    while i < n
        invariant
            i <= n,
            every == (indices@.len() == 0),
            out@ =~= as_positions(key_block(i as nat, indices@)),
        decreases n - i,
    {
        if every || listed(indices, i) {
            out.push(i);
        }
        i += 1;
    }
    let mut i: usize = 0;
    while i < n
        invariant
            i <= n,
            every == (indices@.len() == 0),
            out@ =~= as_positions(key_block(n as nat, indices@) + value_block(i as nat, indices@)),
        decreases n - i,
    {
        if !(every || listed(indices, i)) {
            out.push(i);
        }
        i += 1;
    }
    out
}

/// Rearranges a field list into layout order, and returns the key fields and
/// the value fields, each in declaration order. A field is a key field where
/// its position is listed in `indices`; positions past the end of the list
/// name no field. Where `indices` is empty every field is a key field.
pub fn rearrange_fields(fields: &mut Punctuated<Field, Comma>, indices: &Vec<usize>) -> (r: (
    Vec<Field>,
    Vec<Field>,
))
    ensures
        fields_view(punctuated_fields(*final(fields))) == rearranged(
            fields_view(punctuated_fields(*old(fields))),
            indices@,
        ),
        fields_view(r.0@) == picked(
            fields_view(punctuated_fields(*old(fields))),
            key_block(punctuated_fields(*old(fields)).len(), indices@),
        ),
        fields_view(r.1@) == picked(
            fields_view(punctuated_fields(*old(fields))),
            value_block(punctuated_fields(*old(fields)).len(), indices@),
        ),
{
    let ghost before = fields_view(punctuated_fields(*fields));
    let n = fields_len(fields);
    let every = indices.len() == 0;
    let mut keys: Vec<Field> = Vec::new();
    let mut values: Vec<Field> = Vec::new();
    let mut i: usize = 0;
    while i < n
        invariant
            i <= n,
            n == punctuated_fields(*fields).len(),
            before == fields_view(punctuated_fields(*fields)),
            every == (indices@.len() == 0),
            fields_view(keys@) =~= picked(before, key_block(i as nat, indices@)),
            fields_view(values@) =~= picked(before, value_block(i as nat, indices@)),
        decreases n - i,
    {
        let f = fields_at(fields, i).duplicate();
        proof {
            lemma_picked_push(before, key_block(i as nat, indices@), i as int);
            lemma_picked_push(before, value_block(i as nat, indices@), i as int);
            lemma_fields_view_push(keys@, f);
            lemma_fields_view_push(values@, f);
        }
        if every || listed(indices, i) {
            keys.push(f);
        } else {
            values.push(f);
        }
        i += 1;
    }
    let mut out = fields_new();
    let mut j: usize = 0;
    while j < keys.len()
        invariant
            j <= keys.len(),
            fields_view(punctuated_fields(out)) =~= fields_view(keys@).take(j as int),
        decreases keys.len() - j,
    {
        let f = keys[j].duplicate();
        proof {
            lemma_fields_view_push(punctuated_fields(out), f);
        }
        fields_push(&mut out, f);
        j += 1;
    }
    let mut j: usize = 0;
    while j < values.len()
        invariant
            j <= values.len(),
            fields_view(punctuated_fields(out)) =~= fields_view(keys@) + fields_view(values@).take(
                j as int,
            ),
        decreases values.len() - j,
    {
        let f = values[j].duplicate();
        proof {
            lemma_fields_view_push(punctuated_fields(out), f);
        }
        fields_push(&mut out, f);
        j += 1;
    }
    *fields = out;
    (keys, values)
}

/// The first `n` positions, each in its own place.
pub open spec fn identity(n: nat) -> Seq<int> {
    Seq::new(n, |i: int| i)
}

/// A block lists exactly the positions of its bucket, in ascending order.
pub proof fn lemma_block_ascending(n: nat, indices: Seq<usize>, key: bool)
    ensures
        block(n, indices, key).len() <= n,
        forall|j: int|
            0 <= j < block(n, indices, key).len() ==> 0 <= #[trigger] block(n, indices, key)[j]
                < n && is_key(indices, block(n, indices, key)[j]) == key,
        forall|j: int, k: int|
            0 <= j < k < block(n, indices, key).len() ==> block(n, indices, key)[j] < block(
                n,
                indices,
                key,
            )[k],
        forall|i: int|
            0 <= i < n && is_key(indices, i) == key ==> exists|j: int|
                0 <= j < block(n, indices, key).len() && block(n, indices, key)[j] == i,
    decreases n,
{
    if n > 0 {
        let init = block((n - 1) as nat, indices, key);
        lemma_block_ascending((n - 1) as nat, indices, key);
        let b = block(n, indices, key);
        assert forall|i: int| 0 <= i < n && is_key(indices, i) == key implies exists|j: int|
            0 <= j < b.len() && b[j] == i by {
            if i < n - 1 {
                let j = choose|j: int| 0 <= j < init.len() && init[j] == i;
                assert(b[j] == i);
            } else {
                assert(b[b.len() - 1] == i);
            }
        }
    }
}

/// The two blocks together hold as many positions as there are fields.
pub proof fn lemma_layout_len(n: nat, indices: Seq<usize>)
    ensures
        layout(n, indices).len() == n,
    decreases n,
{
    if n > 0 {
        lemma_layout_len((n - 1) as nat, indices);
    }
}

/// Order preservation within buckets: the fields of the key block are the
/// fields at the key positions, in the order in which they were declared, and
/// none is left out; likewise the fields of the value block.
pub proof fn lemma_bucket_order_preserved<T>(items: Seq<T>, indices: Seq<usize>, key: bool)
    ensures
        ({
            let at = block(items.len(), indices, key);
            let bucket = picked(items, at);
            &&& bucket.len() == at.len()
            &&& forall|j: int|
                0 <= j < at.len() ==> 0 <= #[trigger] at[j] < items.len() && is_key(indices, at[j])
                    == key && bucket[j] == items[at[j]]
            &&& forall|j: int, k: int| 0 <= j < k < at.len() ==> at[j] < at[k]
            &&& forall|i: int|
                0 <= i < items.len() && is_key(indices, i) == key ==> exists|j: int|
                    0 <= j < at.len() && at[j] == i
        }),
{
    lemma_block_ascending(items.len(), indices, key);
}

/// Every declared position stands at some place of the layout.
pub proof fn lemma_layout_covers(n: nat, indices: Seq<usize>, i: int)
    requires
        0 <= i < n,
    ensures
        exists|j: int| 0 <= j < layout(n, indices).len() && layout(n, indices)[j] == i,
{
    let lay = layout(n, indices);
    let kb = key_block(n, indices);
    let vb = value_block(n, indices);
    lemma_block_ascending(n, indices, true);
    lemma_block_ascending(n, indices, false);
    if is_key(indices, i) {
        let j = choose|j: int| 0 <= j < kb.len() && kb[j] == i;
        assert(lay[j] == i);
    } else {
        let j = choose|j: int| 0 <= j < vb.len() && vb[j] == i;
        assert(lay[kb.len() + j] == i);
    }
}

/// Where the keys are exactly the positions below `k`, the key block is the
/// first `k` positions and the value block is the rest.
proof fn lemma_blocks_of_prefix_keys(n: nat, indices: Seq<usize>, k: nat)
    requires
        forall|i: int| 0 <= i < n ==> is_key(indices, i) == (i < k),
    ensures
        key_block(n, indices) == identity(if n <= k { n } else { k }),
        value_block(n, indices) == Seq::new((if n <= k { 0 } else { n - k }) as nat, |j: int| k + j),
    decreases n,
{
    if n > 0 {
        lemma_blocks_of_prefix_keys((n - 1) as nat, indices, k);
        assert(key_block(n, indices) =~= identity(if n <= k { n } else { k }));
        assert(value_block(n, indices) =~= Seq::new(
            (if n <= k { 0 } else { n - k }) as nat,
            |j: int| k + j,
        ));
    } else {
        assert(key_block(n, indices) =~= identity(0));
        assert(value_block(n, indices) =~= Seq::new(0, |j: int| k + j));
    }
}

/// Whether `carried` is the key index set `indices` as it reads once the
/// fields stand in layout order: it marks a place of the layout exactly where
/// the field that stands there is a key field.
pub open spec fn carries_keys(n: nat, indices: Seq<usize>, carried: Seq<usize>) -> bool {
    forall|j: int|
        0 <= j < n ==> is_key(carried, j) == is_key(indices, #[trigger] layout(n, indices)[j])
}

/// Idempotent bucketing: fields that already stand in layout order stay as
/// they are when they are rearranged again by the same keys.
pub proof fn lemma_rearrange_idempotent<T>(
    items: Seq<T>,
    indices: Seq<usize>,
    carried: Seq<usize>,
)
    requires
        carries_keys(items.len(), indices, carried),
    ensures
        rearranged(rearranged(items, indices), carried) == rearranged(items, indices),
{
    let n = items.len();
    let once = rearranged(items, indices);
    let lay = layout(n, indices);
    let k = key_block(n, indices).len();
    lemma_layout_len(n, indices);
    lemma_block_ascending(n, indices, true);
    lemma_block_ascending(n, indices, false);
    assert(once.len() == n);
    assert forall|j: int| 0 <= j < n implies is_key(carried, j) == (j < k) by {
        if j < k {
            assert(lay[j] == key_block(n, indices)[j]);
        } else {
            assert(lay[j] == value_block(n, indices)[j - k]);
        }
    }
    lemma_blocks_of_prefix_keys(n, carried, k);
    assert(layout(n, carried) =~= identity(n));
    assert(rearranged(once, carried) =~= once);
}

/// The first `k` places, as a key index set.
pub open spec fn front_places(k: nat) -> Seq<usize> {
    Seq::new(k, |j: int| j as usize)
}

/// Once the fields stand in layout order, the key fields are the first ones:
/// where there is a key field at all, the places of the key block carry the
/// keys.
pub proof fn lemma_front_places_carry_keys(n: nat, indices: Seq<usize>)
    requires
        n <= usize::MAX,
        key_block(n, indices).len() > 0,
    ensures
        carries_keys(n, indices, front_places(key_block(n, indices).len())),
{
    let k = key_block(n, indices).len();
    let front = front_places(k);
    let lay = layout(n, indices);
    lemma_layout_len(n, indices);
    lemma_block_ascending(n, indices, true);
    lemma_block_ascending(n, indices, false);
    assert forall|j: int| 0 <= j < n implies is_key(front, j) == is_key(
        indices,
        #[trigger] lay[j],
    ) by {
        if j < k {
            assert(lay[j] == key_block(n, indices)[j]);
            assert(front[j] == j);
        } else {
            assert(lay[j] == value_block(n, indices)[j - k]);
        }
    }
}

/// Idempotent bucketing, for any key index set: once the fields stand in
/// layout order, rearranging them again with the places of the key block as
/// keys changes nothing. Where the set names no field at all, the second
/// pass takes every field for a key and still leaves the order as it is.
pub proof fn lemma_rearrange_twice<T>(items: Seq<T>, indices: Seq<usize>)
    requires
        items.len() <= usize::MAX,
    ensures
        rearranged(
            rearranged(items, indices),
            front_places(key_block(items.len(), indices).len()),
        ) == rearranged(items, indices),
{
    let n = items.len();
    let k = key_block(n, indices).len();
    let front = front_places(k);
    let once = rearranged(items, indices);
    if k > 0 {
        lemma_front_places_carry_keys(n, indices);
        lemma_rearrange_idempotent(items, indices, front);
    } else {
        lemma_layout_len(n, indices);
        assert(once.len() == n);
        lemma_blocks_of_prefix_keys(n, front, n);
        assert(layout(n, front) =~= identity(n));
        assert(rearranged(once, front) =~= once);
    }
}

} // verus!

//! Feature sets: insertion-ordered, duplicate-free collections of feature
//! names, held in `indexmap::IndexSet<String>`.
//!
//! The set's contents are modeled as the sequence of its elements' character
//! sequences, in insertion order; inserting a value that is already present
//! leaves the set unchanged.

use crate::features::{seq_views, split_features};
use crate::features::parse_feature;
use vstd::prelude::*;

verus! {

/// Relies on `indexmap::IndexSet` being an insertion-ordered set; the type
/// is opaque here, read only through the wrappers below.
#[verifier::external_type_specification]
#[verifier::external_body]
#[verifier::reject_recursive_types(T)]
#[verifier::reject_recursive_types(S)]
pub struct ExIndexSet<T, S>(indexmap::IndexSet<T, S>);

/// The elements a feature set holds, in insertion order.
pub uninterp spec fn feature_set_elems(s: indexmap::IndexSet<String>) -> Seq<Seq<char>>;

/// Inserting into an insertion-ordered set: appended at the end when absent,
/// left where it is when already present.
pub open spec fn ordered_insert(acc: Seq<Seq<char>>, x: Seq<char>) -> Seq<Seq<char>> {
    if acc.contains(x) {
        acc
    } else {
        acc.push(x)
    }
}

/// `ordered_insert` of each element of `xs` in turn, starting from `acc`.
pub open spec fn insert_all(acc: Seq<Seq<char>>, xs: Seq<Seq<char>>) -> Seq<Seq<char>>
    decreases xs.len(),
{
    if xs.len() == 0 {
        acc
    } else {
        insert_all(ordered_insert(acc, xs[0]), xs.skip(1))
    }
}

/// The feature names collected from the raw feature-list values `vals`:
/// each value split into names, all names inserted in order with duplicates
/// removed.
pub open spec fn collect_features_from(acc: Seq<Seq<char>>, vals: Seq<Seq<char>>) -> Seq<
    Seq<char>,
>
    decreases vals.len(),
{
    if vals.len() == 0 {
        acc
    } else {
        collect_features_from(insert_all(acc, split_features(vals[0])), vals.skip(1))
    }
}

/// The feature names held by a shared feature-list modifier given as the raw
/// values `vals`.
pub open spec fn collect_features(vals: Seq<Seq<char>>) -> Seq<Seq<char>> {
    collect_features_from(Seq::<Seq<char>>::empty(), vals)
}

pub proof fn lemma_insert_all_push(acc: Seq<Seq<char>>, xs: Seq<Seq<char>>, x: Seq<char>)
    ensures
        insert_all(acc, xs.push(x)) == ordered_insert(insert_all(acc, xs), x),
    decreases xs.len(),
{
    if xs.len() == 0 {
        assert(xs.push(x)[0] == x);
        assert(xs.push(x).skip(1) =~= Seq::<Seq<char>>::empty());
        assert(insert_all(acc, xs.push(x)) == insert_all(
            ordered_insert(acc, x),
            xs.push(x).skip(1),
        ));
        assert(insert_all(ordered_insert(acc, x), Seq::<Seq<char>>::empty()) == ordered_insert(
            acc,
            x,
        ));
    } else {
        assert(xs.push(x)[0] == xs[0]);
        assert(xs.push(x).skip(1) =~= xs.skip(1).push(x));
        assert(insert_all(acc, xs.push(x)) == insert_all(
            ordered_insert(acc, xs[0]),
            xs.skip(1).push(x),
        ));
        lemma_insert_all_push(ordered_insert(acc, xs[0]), xs.skip(1), x);
        assert(insert_all(acc, xs) == insert_all(ordered_insert(acc, xs[0]), xs.skip(1)));
    }
}

pub proof fn lemma_collect_features_from_push(
    acc: Seq<Seq<char>>,
    vals: Seq<Seq<char>>,
    v: Seq<char>,
)
    ensures
        collect_features_from(acc, vals.push(v)) == insert_all(
            collect_features_from(acc, vals),
            split_features(v),
        ),
    decreases vals.len(),
{
    if vals.len() == 0 {
        assert(vals.push(v)[0] == v);
        assert(vals.push(v).skip(1) =~= Seq::<Seq<char>>::empty());
        assert(collect_features_from(acc, vals.push(v)) == collect_features_from(
            insert_all(acc, split_features(v)),
            vals.push(v).skip(1),
        ));
        assert(collect_features_from(insert_all(acc, split_features(v)), Seq::<Seq<char>>::empty())
            == insert_all(acc, split_features(v)));
    } else {
        assert(vals.push(v)[0] == vals[0]);
        assert(vals.push(v).skip(1) =~= vals.skip(1).push(v));
        assert(collect_features_from(acc, vals.push(v)) == collect_features_from(
            insert_all(acc, split_features(vals[0])),
            vals.skip(1).push(v),
        ));
        lemma_collect_features_from_push(
            insert_all(acc, split_features(vals[0])),
            vals.skip(1),
            v,
        );
        assert(collect_features_from(acc, vals) == collect_features_from(
            insert_all(acc, split_features(vals[0])),
            vals.skip(1),
        ));
    }
}

/// Relies on `indexmap::IndexSet::new`: creates an empty set.
#[verifier::external_body]
pub(crate) fn feature_set_new() -> (s: indexmap::IndexSet<String>)
    ensures
        feature_set_elems(s) == Seq::<Seq<char>>::empty(),
{
    indexmap::IndexSet::new()
}

/// Relies on `indexmap::IndexSet::insert`: a value equal to a present element
/// is dropped without altering the insertion order; a new value is appended
/// at the end; the result says which happened.
#[verifier::external_body]
pub(crate) fn feature_set_insert(s: &mut indexmap::IndexSet<String>, value: String) -> (r: bool)
    ensures
        feature_set_elems(*final(s)) == ordered_insert(feature_set_elems(*old(s)), value@),
        r == !feature_set_elems(*old(s)).contains(value@),
{
    s.insert(value)
}

/// Relies on `indexmap::IndexSet`'s `Clone`: the clone holds the same
/// elements in the same order.
#[verifier::external_body]
pub(crate) fn feature_set_clone(s: &indexmap::IndexSet<String>) -> (r: indexmap::IndexSet<String>)
    ensures
        feature_set_elems(r) == feature_set_elems(*s),
{
    s.clone()
}

/// Relies on `indexmap::IndexSet::len`: the number of elements.
#[verifier::external_body]
pub(crate) fn feature_set_len(s: &indexmap::IndexSet<String>) -> (n: usize)
    ensures
        n == feature_set_elems(*s).len(),
{
    s.len()
}

/// Relies on `indexmap::IndexSet::get_index`: elements are indexed compactly
/// in insertion order, so a valid index returns the element at that place.
#[verifier::external_body]
pub(crate) fn feature_set_get<'a>(s: &'a indexmap::IndexSet<String>, i: usize) -> (r: &'a String)
    requires
        i < feature_set_elems(*s).len(),
    ensures
        r@ == feature_set_elems(*s)[i as int],
{
    s.get_index(i).unwrap()
}

/// Build the feature set a shared feature-list modifier describes: split each
/// raw value into feature names and insert them in order, removing
/// duplicates.
pub fn collect_feature_set(values: &Vec<String>) -> (s: indexmap::IndexSet<String>)
    ensures
        feature_set_elems(s) == collect_features(seq_views(values@)),
{
    let mut s = feature_set_new();
    let mut i: usize = 0;
    proof {
        assert(seq_views(values@).take(0) =~= Seq::<Seq<char>>::empty());
    }
    while i < values.len()
        invariant
            i <= values.len(),
            feature_set_elems(s) == collect_features_from(
                Seq::<Seq<char>>::empty(),
                seq_views(values@).take(i as int),
            ),
        decreases values.len() - i,
    {
        let ghost vals = seq_views(values@);
        let parts = parse_feature(values[i].as_str());
        let mut j: usize = 0;
        proof {
            assert(split_features(values@[i as int]@).take(0) =~= Seq::<Seq<char>>::empty());
        }
        while j < parts.len()
            invariant
                j <= parts.len(),
                seq_views(parts@) == split_features(values@[i as int]@),
                i < values.len(),
                feature_set_elems(s) == insert_all(
                    collect_features_from(
                        Seq::<Seq<char>>::empty(),
                        seq_views(values@).take(i as int),
                    ),
                    split_features(values@[i as int]@).take(j as int),
                ),
            decreases parts.len() - j,
        {
            let ghost frag = split_features(values@[i as int]@);
            let ghost before = feature_set_elems(s);
            let part = parts[j].clone();
            proof {
                assert(part@ == seq_views(parts@)[j as int]);
                lemma_insert_all_push(
                    collect_features_from(
                        Seq::<Seq<char>>::empty(),
                        seq_views(values@).take(i as int),
                    ),
                    frag.take(j as int),
                    frag[j as int],
                );
                assert(frag.take(j as int).push(frag[j as int]) =~= frag.take(j as int + 1));
            }
            feature_set_insert(&mut s, part);
            j = j + 1;
        }
        proof {
            let vals = seq_views(values@);
            let frag = split_features(values@[i as int]@);
            assert(frag.take(parts@.len() as int) =~= frag);
            lemma_collect_features_from_push(
                Seq::<Seq<char>>::empty(),
                vals.take(i as int),
                vals[i as int],
            );
            assert(vals.take(i as int).push(vals[i as int]) =~= vals.take(i as int + 1));
            assert(vals[i as int] == values@[i as int]@);
        }
        i = i + 1;
    }
    proof {
        assert(seq_views(values@).take(values@.len() as int) =~= seq_views(values@));
    }
    s
}

} // verus!

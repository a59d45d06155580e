//! Startup reconciliation: which items must be produced (missing) and which
//! output files have no metadata left (surplus).

use vstd::prelude::*;
use crate::ids::{
    all_dec_digits, all_hex_digits, dec_value, first_occurrence_at, hex_value,
    item_id_from_metadata_name, item_id_from_output_name, json_suffix, occurs_at, IdError,
};
use crate::idset::IdSet;

verus! {

/// The name marks a metadata entry: `".json"` first occurs right after a
/// 64-byte stem.
pub open spec fn metadata_candidate(s: Seq<u8>) -> bool {
    first_occurrence_at(s, json_suffix(), 64)
}

/// The metadata entry named `s` carries the item id `x`.
pub open spec fn metadata_yields(s: Seq<u8>, x: u128) -> bool {
    metadata_candidate(s) && all_hex_digits(s.subrange(32, 64)) && x == hex_value(
        s.subrange(32, 64),
    )
}

/// The name matches the metadata convention but its id digits do not parse.
pub open spec fn metadata_malformed(s: Seq<u8>) -> bool {
    metadata_candidate(s) && !all_hex_digits(s.subrange(32, 64))
}

/// The output file named `s` (under extension `ext`) is the output for `x`.
pub open spec fn output_yields(s: Seq<u8>, ext: Seq<u8>, x: u128) -> bool {
    exists|i: int|
        #[trigger] first_occurrence_at(s, ext, i) && i >= 1 && all_dec_digits(s.take(i))
            && dec_value(s.take(i)) <= u128::MAX && x == dec_value(s.take(i))
}

/// The name holds the extension but its stem is not a decimal id.
pub open spec fn output_malformed(s: Seq<u8>, ext: Seq<u8>) -> bool {
    exists|i: int|
        #[trigger] first_occurrence_at(s, ext, i) && (i == 0 || !all_dec_digits(s.take(i))
            || dec_value(s.take(i)) > u128::MAX)
}

/// Two first occurrences of the same pattern are the same occurrence.
proof fn lemma_first_occurrence_unique(s: Seq<u8>, pat: Seq<u8>, i: int, j: int)
    requires
        first_occurrence_at(s, pat, i),
        first_occurrence_at(s, pat, j),
    ensures
        i == j,
{
    if i < j {
        assert(occurs_at(s, pat, i));
    } else if j < i {
        assert(occurs_at(s, pat, j));
    }
}

/// The expected set: every id carried by a metadata entry name, each once.
/// Fails with the fatal `MalformedIdentifier` exactly when some entry matches
/// the metadata convention but its digits do not parse.
pub fn expected_ids_from_names(names: &Vec<Vec<u8>>) -> (r: Result<IdSet, IdError>)
    ensures
        match r {
            Ok(s) => s.wf() && (forall|x: u128|
                s@.contains(x) <==> exists|i: int|
                    0 <= i < names@.len() && metadata_yields(#[trigger] names@[i]@, x)) && (forall|
                i: int,
            |
                0 <= i < names@.len() ==> !metadata_malformed(#[trigger] names@[i]@)),
            Err(e) => (exists|i: int|
                0 <= i < names@.len() && metadata_malformed(#[trigger] names@[i]@)) && e
                == IdError::MalformedIdentifier,
        },
{
    let mut s = IdSet::new();
    let n = names.len();
    let mut i: usize = 0;
    while i < n
        invariant
            n == names@.len(),
            i <= n,
            s.wf(),
            s@.len() <= i,
            forall|x: u128|
                s@.contains(x) <==> exists|j: int|
                    0 <= j < i && metadata_yields(#[trigger] names@[j]@, x),
            forall|j: int| 0 <= j < i ==> !metadata_malformed(#[trigger] names@[j]@),
        decreases n - i,
    {
        match item_id_from_metadata_name(&names[i]) {
            Ok(Some(v)) => {
                let ghost pre = s;
                s.insert(v);
                proof {
                    assert(metadata_yields(names@[i as int]@, v));
                    assert forall|x: u128| s@.contains(x) implies exists|j: int|
                        0 <= j < i + 1 && metadata_yields(#[trigger] names@[j]@, x) by {
                        if pre@.contains(x) {
                            let j = choose|j: int|
                                0 <= j < i && metadata_yields(#[trigger] names@[j]@, x);
                            assert(metadata_yields(names@[j]@, x));
                        } else {
                            assert(x == v);
                            assert(metadata_yields(names@[i as int]@, x));
                        }
                    }
                }
            },
            Ok(None) => {
                proof {
                    if metadata_malformed(names@[i as int]@) {
                        let k = choose|k: int|
                            #[trigger] first_occurrence_at(names@[i as int]@, json_suffix(), k)
                                && k != 64;
                        lemma_first_occurrence_unique(names@[i as int]@, json_suffix(), k, 64);
                    }
                    assert forall|x: u128| s@.contains(x) implies exists|j: int|
                        0 <= j < i + 1 && metadata_yields(#[trigger] names@[j]@, x) by {
                        let j = choose|j: int|
                            0 <= j < i && metadata_yields(#[trigger] names@[j]@, x);
                        assert(metadata_yields(names@[j]@, x));
                    }
                }
            },
            Err(e) => {
                return Err(e);
            },
        }
        i = i + 1;
    }
    Ok(s)
}

/// The actual set: every id named by an output file, each once. Fails with
/// the fatal `MalformedIdentifier` exactly when some file holds the
/// extension but its stem is not a decimal id.
pub fn actual_ids_from_names(names: &Vec<Vec<u8>>, ext: &Vec<u8>) -> (r: Result<IdSet, IdError>)
    requires
        ext@.len() >= 1,
    ensures
        match r {
            Ok(s) => s.wf() && (forall|x: u128|
                s@.contains(x) <==> exists|i: int|
                    0 <= i < names@.len() && output_yields(#[trigger] names@[i]@, ext@, x)) && (
            forall|i: int|
                0 <= i < names@.len() ==> !output_malformed(#[trigger] names@[i]@, ext@)),
            Err(e) => (exists|i: int|
                0 <= i < names@.len() && output_malformed(#[trigger] names@[i]@, ext@)) && e
                == IdError::MalformedIdentifier,
        },
{
    let mut s = IdSet::new();
    let n = names.len();
    let mut i: usize = 0;
    while i < n
        invariant
            n == names@.len(),
            ext@.len() >= 1,
            i <= n,
            s.wf(),
            s@.len() <= i,
            forall|x: u128|
                s@.contains(x) <==> exists|j: int|
                    0 <= j < i && output_yields(#[trigger] names@[j]@, ext@, x),
            forall|j: int| 0 <= j < i ==> !output_malformed(#[trigger] names@[j]@, ext@),
        decreases n - i,
    {
        match item_id_from_output_name(&names[i], ext) {
            Ok(Some(v)) => {
                let ghost pre = s;
                s.insert(v);
                proof {
                    assert(output_yields(names@[i as int]@, ext@, v));
                    assert forall|j: int|
                        0 <= j < i + 1 implies !output_malformed(
                        #[trigger] names@[j]@,
                        ext@,
                    ) by {
                        if j == i {
                            if output_malformed(names@[i as int]@, ext@) {
                                let a = choose|a: int|
                                    #[trigger] first_occurrence_at(names@[i as int]@, ext@, a) && (
                                    a == 0 || !all_dec_digits(names@[i as int]@.take(a))
                                        || dec_value(names@[i as int]@.take(a)) > u128::MAX);
                                let b = choose|b: int|
                                    #[trigger] first_occurrence_at(names@[i as int]@, ext@, b) && b
                                        >= 1 && all_dec_digits(names@[i as int]@.take(b))
                                        && dec_value(names@[i as int]@.take(b)) <= u128::MAX;
                                lemma_first_occurrence_unique(names@[i as int]@, ext@, a, b);
                            }
                        }
                    }
                    assert forall|x: u128| s@.contains(x) implies exists|j: int|
                        0 <= j < i + 1 && output_yields(#[trigger] names@[j]@, ext@, x) by {
                        if pre@.contains(x) {
                            let j = choose|j: int|
                                0 <= j < i && output_yields(#[trigger] names@[j]@, ext@, x);
                            assert(output_yields(names@[j]@, ext@, x));
                        } else {
                            assert(output_yields(names@[i as int]@, ext@, x));
                        }
                    }
                }
            },
            Ok(None) => {
                proof {
                    assert(!output_malformed(names@[i as int]@, ext@));
                    assert forall|x: u128| s@.contains(x) implies exists|j: int|
                        0 <= j < i + 1 && output_yields(#[trigger] names@[j]@, ext@, x) by {
                        let j = choose|j: int|
                            0 <= j < i && output_yields(#[trigger] names@[j]@, ext@, x);
                        assert(output_yields(names@[j]@, ext@, x));
                    }
                }
            },
            Err(e) => {
                return Err(e);
            },
        }
        i = i + 1;
    }
    Ok(s)
}

/// What a run must do: produce every missing id, delete every surplus file.
pub struct ReconcilePlan {
    pub missing: IdSet,
    pub surplus: IdSet,
}

/// Missing = Expected − Actual, Surplus = Actual − Expected.
pub fn reconcile(expected: &IdSet, actual: &IdSet) -> (p: ReconcilePlan)
    requires
        expected.wf(),
        actual.wf(),
    ensures
        p.missing.wf(),
        p.surplus.wf(),
        forall|x: u128|
            #[trigger] p.missing@.contains(x) <==> (expected@.contains(x) && !actual@.contains(x)),
        forall|x: u128|
            #[trigger] p.surplus@.contains(x) <==> (actual@.contains(x) && !expected@.contains(x)),
        p.missing.as_set() == expected.as_set().difference(actual.as_set()),
        p.surplus.as_set() == actual.as_set().difference(expected.as_set()),
        p.missing@.len() <= expected@.len(),
{
    let missing = expected.difference(actual);
    let surplus = actual.difference(expected);
    proof {
        assert(missing.as_set() =~= expected.as_set().difference(actual.as_set()));
        assert(surplus.as_set() =~= actual.as_set().difference(expected.as_set()));
    }
    ReconcilePlan { missing, surplus }
}

/// Deleting the surplus files leaves the store holding exactly the ids that
/// are both present and expected: Actual − (Actual − Expected) = Actual ∩
/// Expected.
pub proof fn lemma_surplus_deletion(e: Set<u128>, a: Set<u128>)
    ensures
        a.difference(a.difference(e)) == a.intersect(e),
{
    assert(a.difference(a.difference(e)) =~= a.intersect(e));
}

/// After a fully successful run the store holds the surviving ids plus every
/// missing one — exactly the expected set — so reconciling again finds
/// nothing missing and nothing surplus: the second run captures nothing.
pub proof fn lemma_rerun_is_idle(e: Set<u128>, a: Set<u128>)
    ensures
        a.intersect(e).union(e.difference(a)) == e,
        e.difference(e) == Set::<u128>::empty(),
{
    assert(a.intersect(e).union(e.difference(a)) =~= e);
    assert(e.difference(e) =~= Set::<u128>::empty());
}

} // verus!

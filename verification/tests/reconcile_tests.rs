use capture_engine::idset::IdSet;
use capture_engine::ids::IdError;
use capture_engine::reconcile::{
    actual_ids_from_names, expected_ids_from_names, reconcile,
};

fn set_of(ids: &[u128]) -> IdSet {
    let mut s = IdSet::new();
    for &id in ids {
        s.insert(id);
    }
    s
}

fn ids_of(s: &IdSet) -> Vec<u128> {
    let mut out = Vec::new();
    for k in 0..s.len() {
        out.push(s.get(k));
    }
    out
}

#[test]
fn reconcile_concrete_scenario() {
    // Expected {1,2,3,5} against actual {2,4}.
    let expected = set_of(&[1, 2, 3, 5]);
    let actual = set_of(&[2, 4]);
    let plan = reconcile(&expected, &actual);
    assert_eq!(ids_of(&plan.missing), vec![1, 3, 5]);
    assert_eq!(ids_of(&plan.surplus), vec![4]);
}

#[test]
fn reconcile_after_successful_run_finds_nothing() {
    // The store now holds exactly the expected set: nothing missing, nothing
    // surplus — the second run captures zero items.
    let expected = set_of(&[1, 2, 3, 5]);
    let actual = set_of(&[1, 2, 3, 5]);
    let plan = reconcile(&expected, &actual);
    assert_eq!(plan.missing.len(), 0);
    assert_eq!(plan.surplus.len(), 0);
}

#[test]
fn reconcile_empty_actual_misses_everything() {
    let expected = set_of(&[10, 20]);
    let actual = IdSet::new();
    let plan = reconcile(&expected, &actual);
    assert_eq!(ids_of(&plan.missing), vec![10, 20]);
    assert_eq!(plan.surplus.len(), 0);
}

#[test]
fn idset_insert_ignores_duplicates() {
    let s = set_of(&[5, 1, 5, 3, 1]);
    assert_eq!(ids_of(&s), vec![1, 3, 5]);
}

#[test]
fn idset_contains() {
    let s = set_of(&[2, 9]);
    assert!(s.contains(2));
    assert!(s.contains(9));
    assert!(!s.contains(5));
}

#[test]
fn expected_ids_collects_metadata_ids() {
    let names = vec![
        format!("{}{}.json", "0".repeat(32), format!("{:0>32}", "3")).into_bytes(),
        format!("{}{}.json", "b".repeat(32), format!("{:0>32}", "1")).into_bytes(),
        b"README.md".to_vec(),
        format!("{}{}.json", "0".repeat(32), format!("{:0>32}", "3")).into_bytes(),
    ];
    let s = expected_ids_from_names(&names).unwrap();
    assert_eq!(ids_of(&s), vec![1, 3]);
}

#[test]
fn expected_ids_fails_on_malformed_candidate() {
    let names = vec![
        format!("{}{}.json", "0".repeat(32), format!("{:0>32}", "3")).into_bytes(),
        format!("{}{}.json", "0".repeat(32), format!("{:->32}", "5")).into_bytes(),
    ];
    let r = expected_ids_from_names(&names);
    assert_eq!(r.err(), Some(IdError::MalformedIdentifier));
}

#[test]
fn actual_ids_collects_output_ids() {
    let names = vec![
        b"4.jpeg".to_vec(),
        b"2.jpeg".to_vec(),
        b"notes.txt".to_vec(),
    ];
    let ext = b".jpeg".to_vec();
    let s = actual_ids_from_names(&names, &ext).unwrap();
    assert_eq!(ids_of(&s), vec![2, 4]);
}

#[test]
fn actual_ids_fails_on_bad_stem() {
    let names = vec![b"old.jpeg".to_vec()];
    let ext = b".jpeg".to_vec();
    let r = actual_ids_from_names(&names, &ext);
    assert_eq!(r.err(), Some(IdError::MalformedIdentifier));
}

#[test]
fn full_reconcile_from_store_listings() {
    // Metadata names carry ids {1,2,3,5}; the output store holds {2,4}.
    let metadata: Vec<Vec<u8>> = [1u128, 2, 3, 5]
        .iter()
        .map(|id| format!("{}{:0>32x}.json", "0".repeat(32), id).into_bytes())
        .collect();
    let outputs = vec![b"2.jpeg".to_vec(), b"4.jpeg".to_vec()];
    let ext = b".jpeg".to_vec();
    let expected = expected_ids_from_names(&metadata).unwrap();
    let actual = actual_ids_from_names(&outputs, &ext).unwrap();
    let plan = reconcile(&expected, &actual);
    assert_eq!(ids_of(&plan.missing), vec![1, 3, 5]);
    assert_eq!(ids_of(&plan.surplus), vec![4]);
}

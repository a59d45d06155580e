use capture_engine::idset::IdSet;
use capture_engine::queue::TaskQueue;

fn set_of(ids: &[u128]) -> IdSet {
    let mut s = IdSet::new();
    for &id in ids {
        s.insert(id);
    }
    s
}

#[test]
fn queue_holds_exactly_the_missing_ids_in_order() {
    let missing = set_of(&[5, 1, 3]);
    let mut q = TaskQueue::from_missing(&missing);
    assert_eq!(q.len(), 3);
    assert_eq!(q.drain(), vec![1, 3, 5]);
    assert_eq!(q.len(), 0);
}

#[test]
fn pop_is_fifo_and_empties() {
    let missing = set_of(&[2, 7]);
    let mut q = TaskQueue::from_missing(&missing);
    assert_eq!(q.pop(), Some(2));
    assert_eq!(q.pop(), Some(7));
    assert_eq!(q.pop(), None);
    assert_eq!(q.pop(), None);
}

#[test]
fn interleaved_workers_take_disjoint_union() {
    // Two workers pop alternately; together they take every id exactly once.
    let ids: Vec<u128> = (100..110).collect();
    let missing = set_of(&ids);
    let mut q = TaskQueue::from_missing(&missing);
    let mut worker_a = Vec::new();
    let mut worker_b = Vec::new();
    loop {
        match q.pop() {
            Some(v) => worker_a.push(v),
            None => break,
        }
        match q.pop() {
            Some(v) => worker_b.push(v),
            None => break,
        }
    }
    let mut union: Vec<u128> = worker_a.iter().chain(worker_b.iter()).cloned().collect();
    union.sort();
    assert_eq!(union, ids);
    for v in &worker_a {
        assert!(!worker_b.contains(v));
    }
}

#[test]
fn into_inner_is_the_crossbeam_queue() {
    let missing = set_of(&[8, 9]);
    let q = TaskQueue::from_missing(&missing).into_inner();
    let shared = std::sync::Arc::new(q);
    assert_eq!(shared.pop(), Some(8));
    assert_eq!(shared.pop(), Some(9));
    assert_eq!(shared.pop(), None);
}

use graph_node::history::History;
use graph_node::types::{BlockPointer, H256};

fn entry(number: u8) -> BlockPointer {
    BlockPointer {
        number: number as u64,
        hash: H256([number; 32]),
        parent_hash: H256([number.wrapping_sub(1); 32]),
    }
}

fn contents(history: &History) -> Vec<u64> {
    let mut numbers = Vec::new();
    let mut i = 0;
    while let Some(e) = history.get(i) {
        numbers.push(e.number);
        i += 1;
    }
    numbers
}

#[test]
fn a_new_history_is_empty() {
    let history = History::new(4);
    assert_eq!(history.len(), 0);
    assert!(history.is_empty());
    assert_eq!(history.capacity(), 4);
    assert_eq!(history.newest(), None);
    assert_eq!(history.oldest(), None);
    assert_eq!(history.get(0), None);
}

#[test]
fn the_oldest_entry_is_evicted_at_capacity() {
    let mut history = History::new(3);
    for n in 1..=3 {
        history.push(entry(n));
    }
    assert_eq!(contents(&history), vec![1, 2, 3]);
    history.push(entry(4));
    assert_eq!(contents(&history), vec![2, 3, 4]);
    history.push(entry(5));
    history.push(entry(6));
    history.push(entry(7));
    assert_eq!(contents(&history), vec![5, 6, 7]);
    assert_eq!(history.len(), 3);
    assert_eq!(history.oldest(), Some(entry(5)));
    assert_eq!(history.newest(), Some(entry(7)));
    assert_eq!(history.get(1), Some(entry(6)));
    assert_eq!(history.get(3), None);
}

#[test]
fn truncate_keeps_the_oldest_entries() {
    let mut history = History::new(4);
    for n in 1..=6 {
        history.push(entry(n));
    }
    assert_eq!(contents(&history), vec![3, 4, 5, 6]);
    history.truncate(2);
    assert_eq!(contents(&history), vec![3, 4]);
    history.truncate(5);
    assert_eq!(contents(&history), vec![3, 4]);
    // The ring goes on after a truncation.
    history.push(entry(7));
    history.push(entry(8));
    history.push(entry(9));
    assert_eq!(contents(&history), vec![4, 7, 8, 9]);
    history.truncate(0);
    assert!(history.is_empty());
    history.push(entry(1));
    assert_eq!(contents(&history), vec![1]);
}

#[test]
fn truncate_before_the_ring_is_full() {
    let mut history = History::new(5);
    history.push(entry(1));
    history.push(entry(2));
    history.push(entry(3));
    history.truncate(1);
    history.push(entry(4));
    history.push(entry(5));
    assert_eq!(contents(&history), vec![1, 4, 5]);
    history.push(entry(6));
    history.push(entry(7));
    history.push(entry(8));
    assert_eq!(contents(&history), vec![4, 5, 6, 7, 8]);
}

#[test]
fn a_history_of_capacity_zero_retains_nothing() {
    let mut history = History::new(0);
    history.push(entry(1));
    assert!(history.is_empty());
    assert_eq!(history.newest(), None);
}

#[test]
fn a_history_of_capacity_one_keeps_the_newest() {
    let mut history = History::new(1);
    history.push(entry(1));
    history.push(entry(2));
    assert_eq!(contents(&history), vec![2]);
}

#[test]
fn the_newest_entry_with_a_hash_is_found() {
    let mut history = History::new(4);
    for n in 1..=6 {
        history.push(entry(n));
    }
    assert_eq!(history.position_of_hash(&H256([5; 32])), Some(2));
    assert_eq!(history.position_of_hash(&H256([3; 32])), Some(0));
    assert_eq!(history.position_of_hash(&H256([2; 32])), None);
    let twin = BlockPointer { number: 7, hash: H256([4; 32]), parent_hash: H256([6; 32]) };
    history.push(twin);
    // 4, 5, 6 and the twin of 4: the newer one is found.
    assert_eq!(history.position_of_hash(&H256([4; 32])), Some(3));
}

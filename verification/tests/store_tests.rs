use pastebin::store::BoundedStore;

#[test]
fn capacity_invariant_many_inserts() {
    let mut s = BoundedStore::new(3);
    for i in 0..10 {
        s.insert(format!("id{}", i), vec![i as u8]);
        assert!(s.len() <= 3);
        assert_eq!(s.capacity(), 3);
    }
}

#[test]
fn fifo_eviction_keeps_last_n() {
    let mut s = BoundedStore::new(3);
    for i in 0..5 {
        s.insert(format!("id{}", i), vec![i as u8]);
    }
    assert_eq!(s.len(), 3);
    assert_eq!(s.lookup("id0"), None);
    assert_eq!(s.lookup("id1"), None);
    assert_eq!(s.lookup("id2"), Some(vec![2]));
    assert_eq!(s.lookup("id3"), Some(vec![3]));
    assert_eq!(s.lookup("id4"), Some(vec![4]));
}

#[test]
fn scenario_buffer_of_two() {
    let mut s = BoundedStore::new(2);
    s.insert("a".to_string(), vec![1]);
    s.insert("b".to_string(), vec![2]);
    s.insert("c".to_string(), vec![3]);
    assert_eq!(s.len(), 2);
    assert_eq!(s.lookup("a"), None);
    assert_eq!(s.lookup("b"), Some(vec![2]));
    assert_eq!(s.lookup("c"), Some(vec![3]));
}

#[test]
fn read_your_write() {
    let mut s = BoundedStore::new(10);
    let payload = b"hello there, paste".to_vec();
    s.insert("key".to_string(), payload.clone());
    assert_eq!(s.lookup("key"), Some(payload));
}

#[test]
fn absence_when_never_inserted() {
    let mut s = BoundedStore::new(4);
    assert_eq!(s.lookup("nothing"), None);
    s.insert("something".to_string(), vec![7]);
    assert_eq!(s.lookup("nothing"), None);
}

#[test]
fn eviction_causes_absence() {
    let mut s = BoundedStore::new(1);
    s.insert("first".to_string(), vec![1]);
    s.insert("second".to_string(), vec![2]);
    assert_eq!(s.lookup("first"), None);
    assert_eq!(s.lookup("second"), Some(vec![2]));
}

#[test]
fn overwrite_replaces_and_refreshes() {
    let mut s = BoundedStore::new(2);
    s.insert("a".to_string(), vec![1]);
    s.insert("b".to_string(), vec![2]);
    // Re-binding "a" evicts nothing, replaces the payload, and refreshes
    // "a" to the most-recent position.
    s.insert("a".to_string(), vec![9]);
    assert_eq!(s.len(), 2);
    assert_eq!(s.lookup("a"), Some(vec![9]));
    assert_eq!(s.lookup("b"), Some(vec![2]));
    // "b" is now the oldest, so the next fresh insert evicts it.
    s.insert("c".to_string(), vec![3]);
    assert_eq!(s.lookup("b"), None);
    assert_eq!(s.lookup("a"), Some(vec![9]));
    assert_eq!(s.lookup("c"), Some(vec![3]));
}

#[test]
fn reading_does_not_promote() {
    let mut s = BoundedStore::new(2);
    s.insert("a".to_string(), vec![1]);
    s.insert("b".to_string(), vec![2]);
    // Reading "a" must not refresh it: it stays the oldest.
    assert_eq!(s.lookup("a"), Some(vec![1]));
    s.insert("c".to_string(), vec![3]);
    assert_eq!(s.lookup("a"), None);
    assert_eq!(s.lookup("b"), Some(vec![2]));
}

#[test]
fn final_size_is_min_of_submissions_and_capacity() {
    // Four submitters with five distinct pastes each, run to completion:
    // the store ends at min(20, capacity) and every resident entry is
    // retrievable with its own content.
    let mut small = BoundedStore::new(7);
    let mut large = BoundedStore::new(100);
    for worker in 0..4 {
        for item in 0..5 {
            let id = format!("w{}i{}", worker, item);
            let payload = vec![worker as u8, item as u8];
            small.insert(id.clone(), payload.clone());
            large.insert(id, payload);
        }
    }
    assert_eq!(small.len(), 7);
    assert_eq!(large.len(), 20);
    for worker in 0..4 {
        for item in 0..5 {
            let id = format!("w{}i{}", worker, item);
            assert_eq!(large.lookup(&id), Some(vec![worker as u8, item as u8]));
        }
    }
    // The small store retains exactly the last seven submissions.
    let mut retained = 0;
    for worker in 0..4 {
        for item in 0..5 {
            let id = format!("w{}i{}", worker, item);
            if let Some(payload) = small.lookup(&id) {
                assert_eq!(payload, vec![worker as u8, item as u8]);
                retained += 1;
            }
        }
    }
    assert_eq!(retained, 7);
}

use pastebin::io::{generate_id, get_paste, id_from_candidate, new_paste_store, store_paste, submit};

fn is_alnum(c: char) -> bool {
    c.is_ascii_alphanumeric()
}

#[test]
fn store_and_get_through_the_lock() {
    let store = new_paste_store(1000);
    store_paste(&store, "abc".to_string(), b"payload".to_vec());
    assert_eq!(get_paste(&store, "abc"), Some(b"payload".to_vec()));
    assert_eq!(get_paste(&store, "missing"), None);
}

#[test]
fn submit_then_retrieve_roundtrip() {
    let store = new_paste_store(1000);
    let payload = b"some bytes \x00\xff in the middle".to_vec();
    let id = submit(&store, payload.clone());
    assert_eq!(get_paste(&store, &id), Some(payload));
}

#[test]
fn lock_store_evicts_like_the_sequential_one() {
    let store = new_paste_store(2);
    store_paste(&store, "a".to_string(), vec![1]);
    store_paste(&store, "b".to_string(), vec![2]);
    store_paste(&store, "c".to_string(), vec![3]);
    assert_eq!(get_paste(&store, "a"), None);
    assert_eq!(get_paste(&store, "b"), Some(vec![2]));
    assert_eq!(get_paste(&store, "c"), Some(vec![3]));
}

#[test]
fn fallback_identifier_shape() {
    // The word generator forced to fail: the fallback is six characters,
    // all ASCII letters or digits.
    let id = id_from_candidate(None);
    assert_eq!(id.chars().count(), 6);
    assert!(id.chars().all(is_alnum));
}

#[test]
fn candidate_passes_through_unchanged() {
    let id = id_from_candidate(Some("ventsim".to_string()));
    assert_eq!(id, "ventsim");
}

#[test]
fn fallback_identifiers_vary() {
    // Uniform draws: sixty-two choices per character make a repeat of a
    // whole six-character identifier across twenty draws vanishingly rare.
    let ids: Vec<String> = (0..20).map(|_| id_from_candidate(None)).collect();
    let first = &ids[0];
    assert!(ids.iter().any(|other| other != first));
    for id in &ids {
        assert_eq!(id.chars().count(), 6);
        assert!(id.chars().all(is_alnum));
    }
}

#[test]
fn generated_identifier_shape() {
    for _ in 0..20 {
        let id = generate_id();
        assert!(id.chars().count() <= 10);
        assert!(id.chars().all(is_alnum));
    }
}

use sae::error::SessionError;
use sae::key::{KeyDemand, KeyMaterial, KeyQueue};
use std::collections::VecDeque;

fn key(id: &str, bytes: &[u8]) -> KeyMaterial {
    KeyMaterial { id: id.to_string(), bytes: bytes.to_vec() }
}

fn batch(keys: &[KeyMaterial]) -> VecDeque<KeyMaterial> {
    keys.iter().cloned().collect()
}

#[test]
fn new_queue_is_empty() {
    let queue = KeyQueue::new();
    assert!(queue.is_empty());
    assert_eq!(queue.len(), 0);
}

#[test]
fn empty_queue_asks_for_a_batch() {
    let mut queue = KeyQueue::new();
    assert_eq!(queue.pop_one(5, 8192), KeyDemand::Fetch { count: 5, bits_per_key: 8192 });
    assert!(queue.is_empty());
}

#[test]
fn empty_queue_refill_scenario() {
    let mut queue = KeyQueue::new();
    let supplied = [key("a", &[1]), key("b", &[2]), key("c", &[3])];
    let mut fetches: usize = 0;
    let mut handed_out: Vec<KeyMaterial> = Vec::new();
    for _ in 0..3 {
        match queue.pop_one(3, 8) {
            KeyDemand::Ready(k) => handed_out.push(k),
            KeyDemand::Fetch { count, bits_per_key } => {
                assert_eq!((count, bits_per_key), (3, 8));
                fetches += 1;
                handed_out.push(queue.pop_refilled(batch(&supplied)).unwrap());
            }
        }
    }
    assert_eq!(handed_out, supplied.to_vec());
    assert_eq!(fetches, 1);
    assert!(queue.is_empty());
    assert_eq!(queue.pop_one(3, 8), KeyDemand::Fetch { count: 3, bits_per_key: 8 });
}

#[test]
fn refill_with_nothing_fails() {
    let mut queue = KeyQueue::new();
    assert_eq!(queue.pop_refilled(VecDeque::new()), Err(SessionError::NoKeyAvailable));
    assert!(queue.is_empty());
}

#[test]
fn refill_keeps_the_order_of_arrival() {
    let mut queue = KeyQueue::new();
    let first = queue.pop_refilled(batch(&[key("z", &[9]), key("a", &[1]), key("m", &[5])]));
    assert_eq!(first, Ok(key("z", &[9])));
    assert_eq!(queue.len(), 2);
    assert_eq!(queue.pop_one(1, 1), KeyDemand::Ready(key("a", &[1])));
    assert_eq!(queue.pop_one(1, 1), KeyDemand::Ready(key("m", &[5])));
    assert_eq!(queue.len(), 0);
}

#[test]
fn buffered_keys_go_before_a_new_batch() {
    let mut queue = KeyQueue::new();
    assert_eq!(queue.pop_refilled(batch(&[key("1", &[1]), key("2", &[2])])), Ok(key("1", &[1])));
    assert_eq!(queue.pop_refilled(batch(&[key("3", &[3])])), Ok(key("2", &[2])));
    assert_eq!(queue.pop_refilled(VecDeque::new()), Ok(key("3", &[3])));
    assert_eq!(queue.pop_refilled(VecDeque::new()), Err(SessionError::NoKeyAvailable));
}

#[test]
fn a_key_is_handed_out_once() {
    let mut queue = KeyQueue::new();
    let supplied: Vec<KeyMaterial> =
        (0..20u8).map(|i| key(&format!("key-{}", i), &[i, i, i])).collect();
    let mut seen: Vec<String> = Vec::new();
    seen.push(queue.pop_refilled(batch(&supplied)).unwrap().id);
    while let KeyDemand::Ready(k) = queue.pop_one(20, 24) {
        assert!(!seen.contains(&k.id));
        seen.push(k.id);
    }
    let ids: Vec<String> = supplied.iter().map(|k| k.id.clone()).collect();
    assert_eq!(seen, ids);
}

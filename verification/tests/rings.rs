use cleats_tui_core::keyed::KeyedRing;
use cleats_tui_core::ring::LogRing;

#[test]
fn ring_keeps_newest_within_limit() {
    let mut ring = LogRing::new(3);
    for i in 0..10 {
        ring.push(format!("line-{i}"));
        assert!(ring.len() <= 3);
    }
    let items = ring.items();
    assert_eq!(items.len(), 3);
    assert_eq!(items[0], "line-7");
    assert_eq!(items[1], "line-8");
    assert_eq!(items[2], "line-9");
    assert_eq!(ring.back().unwrap(), "line-9");
}

#[test]
fn ring_below_limit_keeps_everything() {
    let mut ring = LogRing::new(5);
    ring.push("a".to_string());
    ring.push("b".to_string());
    assert_eq!(ring.len(), 2);
    assert_eq!(ring.items()[0], "a");
    assert_eq!(ring.items()[1], "b");
}

#[test]
fn keyed_ring_updates_in_place() {
    let mut ring = KeyedRing::new(4);
    ring.upsert("j1".to_string(), "running".to_string());
    ring.upsert("j2".to_string(), "running".to_string());
    ring.upsert("j1".to_string(), "done".to_string());
    assert_eq!(ring.len(), 2);
    assert_eq!(ring.get(&"j1".to_string()).unwrap(), "done");
    assert_eq!(ring.get(&"j2".to_string()).unwrap(), "running");
    let (first_key, _) = ring.entry_at(0);
    assert_eq!(first_key, "j1");
}

#[test]
fn keyed_ring_evicts_oldest_key_and_record() {
    let mut ring = KeyedRing::new(2);
    ring.upsert("a".to_string(), "1".to_string());
    ring.upsert("b".to_string(), "2".to_string());
    ring.upsert("c".to_string(), "3".to_string());
    assert_eq!(ring.len(), 2);
    assert!(ring.get(&"a".to_string()).is_none());
    assert_eq!(ring.get(&"b".to_string()).unwrap(), "2");
    assert_eq!(ring.get(&"c".to_string()).unwrap(), "3");
    let (first_key, _) = ring.entry_at(0);
    assert_eq!(first_key, "b");
}

#[test]
fn keyed_ring_update_does_not_evict() {
    let mut ring = KeyedRing::new(2);
    ring.upsert("a".to_string(), "1".to_string());
    ring.upsert("b".to_string(), "2".to_string());
    ring.upsert("b".to_string(), "22".to_string());
    assert_eq!(ring.len(), 2);
    assert_eq!(ring.get(&"a".to_string()).unwrap(), "1");
    assert_eq!(ring.get(&"b".to_string()).unwrap(), "22");
}

use shev::lru::LRU;

#[test]
fn insert_beyond_capacity_evicts_least_recently_used() {
    let mut lru: LRU<String, u32> = LRU::with_capacity(3);
    lru.insert(String::from("a"), 1);
    lru.insert(String::from("b"), 2);
    lru.insert(String::from("c"), 3);
    lru.insert(String::from("d"), 4);
    assert!(!lru.contains_key(&String::from("a")));
    assert_eq!(lru.get(&String::from("b")), Some(&2));
    assert_eq!(lru.get(&String::from("c")), Some(&3));
    assert_eq!(lru.get(&String::from("d")), Some(&4));
}

#[test]
fn get_promotes_key_and_changes_eviction_order() {
    let mut lru: LRU<String, u32> = LRU::with_capacity(3);
    lru.insert(String::from("a"), 1);
    lru.insert(String::from("b"), 2);
    lru.insert(String::from("c"), 3);
    assert_eq!(lru.get(&String::from("a")), Some(&1));
    lru.insert(String::from("d"), 4);
    assert!(lru.contains_key(&String::from("a")));
    assert!(!lru.contains_key(&String::from("b")));
}

#[test]
fn contains_key_promotes_key() {
    let mut lru: LRU<String, u32> = LRU::with_capacity(2);
    lru.insert(String::from("a"), 1);
    lru.insert(String::from("b"), 2);
    assert!(lru.contains_key(&String::from("a")));
    lru.insert(String::from("c"), 3);
    assert!(lru.contains_key(&String::from("a")));
    assert!(!lru.contains_key(&String::from("b")));
    assert!(lru.contains_key(&String::from("c")));
}

#[test]
fn insert_existing_key_updates_value_without_eviction() {
    let mut lru: LRU<String, u32> = LRU::with_capacity(2);
    lru.insert(String::from("a"), 1);
    lru.insert(String::from("b"), 2);
    lru.insert(String::from("a"), 10);
    assert_eq!(lru.get(&String::from("a")), Some(&10));
    assert_eq!(lru.get(&String::from("b")), Some(&2));
}

#[test]
fn missing_key_is_none() {
    let mut lru: LRU<String, u32> = LRU::with_capacity(2);
    assert_eq!(lru.get(&String::from("x")), None);
    assert!(!lru.contains_key(&String::from("x")));
}

#[test]
fn capacity_one_keeps_only_latest() {
    let mut lru: LRU<String, u32> = LRU::with_capacity(1);
    lru.insert(String::from("a"), 1);
    lru.insert(String::from("b"), 2);
    assert_eq!(lru.get(&String::from("a")), None);
    assert_eq!(lru.get(&String::from("b")), Some(&2));
}

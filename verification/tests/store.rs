use radish::store::SafeMap;

#[test]
fn set_without_ttl_is_permanent() {
    let mut m = SafeMap::new(false);
    let r = m.set("k".to_string(), "v".to_string(), None, 1_000);
    assert_eq!(r, Some("v".to_string()));
    assert_eq!(m.get("k", 1_000), Some("v".to_string()));
    assert_eq!(m.get("k", u128::MAX - 20_000_000_000_000_000_000_000), Some("v".to_string()));
}

#[test]
fn set_with_zero_ttl_is_permanent() {
    let mut m = SafeMap::new(false);
    m.set("k".to_string(), "v".to_string(), Some(0), 1_000);
    assert_eq!(m.get("k", 1_000_000_000), Some("v".to_string()));
}

#[test]
fn set_with_ttl_alive_then_gone() {
    let mut m = SafeMap::new(false);
    m.set("k".to_string(), "v".to_string(), Some(5_000), 1_000);
    assert_eq!(m.get("k", 1_000), Some("v".to_string()));
    assert_eq!(m.get("k", 5_999), Some("v".to_string()));
    assert_eq!(m.get("k", 6_001), None);
    // the expired entry was removed by the read itself
    assert_eq!(m.get("k", 1_000), None);
}

#[test]
fn expiry_boundary_is_inclusive() {
    let mut m = SafeMap::new(false);
    m.set("k".to_string(), "v".to_string(), Some(5_000), 1_000);
    // the expiration instant is 6000; a read exactly then finds nothing
    assert_eq!(m.get("k", 6_000), None);
}

#[test]
fn overwrite_leaves_no_trace() {
    let mut m = SafeMap::new(false);
    m.set("k".to_string(), "v1".to_string(), Some(1_000), 1_000);
    m.set("k".to_string(), "v2".to_string(), Some(10_000), 1_000);
    // past the first ttl, but within the second: only the second counts
    assert_eq!(m.get("k", 5_000), Some("v2".to_string()));
    assert_eq!(m.get("k", 11_000), None);
}

#[test]
fn sweep_removes_expired_entries_unread() {
    let mut m = SafeMap::new(true);
    m.set("gone".to_string(), "a".to_string(), Some(1_000), 1_000);
    m.set("kept".to_string(), "b".to_string(), None, 1_000);
    m.set("later".to_string(), "c".to_string(), Some(60_000), 1_000);
    m.sweep(10_000);
    assert_eq!(m.get("gone", 1_500), None);
    assert_eq!(m.get("kept", 10_000), Some("b".to_string()));
    assert_eq!(m.get("later", 10_000), Some("c".to_string()));
}

#[test]
fn sweep_at_exact_expiration_removes() {
    let mut m = SafeMap::new(true);
    m.set("k".to_string(), "v".to_string(), Some(5_000), 1_000);
    m.sweep(6_000);
    assert_eq!(m.get("k", 1_000), None);
}

#[test]
fn disjoint_keys_do_not_interfere() {
    let mut m = SafeMap::new(false);
    let n: usize = 16;
    for i in 0..n {
        m.set(format!("key-{}", i), format!("val-{}", i), None, 1_000);
    }
    for i in 0..n {
        assert_eq!(m.get(&format!("key-{}", i), 2_000), Some(format!("val-{}", i)));
    }
}

#[test]
fn get_missing_key_is_none() {
    let mut m = SafeMap::new(false);
    assert_eq!(m.get("missing", 0), None);
}

#[test]
fn auto_evict_flag_is_kept() {
    let m = SafeMap::new(true);
    assert!(m.auto_evict());
    let m2 = SafeMap::new(false);
    assert!(!m2.auto_evict());
}

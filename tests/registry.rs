use safekeeper::registry::{TimelineKey, TimelineRegistry};

fn key(tenant: u128, timeline: u128) -> TimelineKey {
    TimelineKey { tenant, timeline }
}

#[test]
fn load_twice_gives_same_set() {
    let persisted = vec![key(1, 1), key(1, 2), key(2, 1), key(1, 1)];
    let mut r = TimelineRegistry::new();
    r.load_all(&persisted);
    let first = r.keys();
    assert_eq!(r.count(), 3);
    r.load_all(&persisted);
    assert_eq!(r.keys(), first);
    assert_eq!(r.count(), 3);
    let mut fresh = TimelineRegistry::new();
    fresh.load_all(&persisted);
    assert_eq!(fresh.keys(), first);
}

#[test]
fn registry_contains_loaded_only() {
    let mut r = TimelineRegistry::new();
    assert!(r.is_empty());
    r.load_all(&[key(5, 6)]);
    assert!(r.contains(key(5, 6)));
    assert!(!r.contains(key(6, 5)));
    assert!(!r.is_empty());
}

#[test]
fn peer_pull_only_for_empty_registry_with_recovery() {
    let mut r = TimelineRegistry::new();
    assert!(r.needs_peer_pull(true));
    assert!(!r.needs_peer_pull(false));
    r.load_all(&[key(1, 2)]);
    assert!(!r.needs_peer_pull(true));
    assert!(!r.needs_peer_pull(false));
}

use wirekit::ringhash::HashRing;

#[derive(Hash, Debug, PartialEq)]
struct RemoteCache {
    addr: [u8; 4],
}

fn caches() -> Vec<RemoteCache> {
    vec![
        RemoteCache { addr: [127, 0, 0, 1] },
        RemoteCache { addr: [127, 0, 0, 2] },
        RemoteCache { addr: [127, 0, 0, 3] },
    ]
}

#[test]
fn add_nodes() {
    let caches = caches();

    let mut ring: HashRing<RemoteCache> = HashRing::new();

    assert_eq!(ring.len(), 0);

    for cache in caches {
        ring.add(cache);
    }

    assert_eq!(ring.len(), 3);
}

#[test]
fn remove_node() {
    let caches = caches();

    let mut ring: HashRing<RemoteCache> = HashRing::new();

    for cache in caches {
        ring.add(cache);
    }

    let present_cache = RemoteCache { addr: [127, 0, 0, 1] };
    let nonpresent_cache = RemoteCache { addr: [127, 0, 0, 24] };

    let present_ref = ring.remove(&present_cache);
    assert!(present_ref.is_some());

    let nonpresent_ref = ring.remove(&nonpresent_cache);
    assert!(nonpresent_ref.is_none());
}

#[test]
fn get_node() {
    let caches = caches();

    let mut ring: HashRing<RemoteCache> = HashRing::new();

    for cache in caches {
        ring.add(cache);
    }

    assert!(ring.get(b"test key").is_some());
    assert!(ring.get(b"another key").is_some());
}

#[test]
fn removed_node_is_the_one_added() {
    let mut ring: HashRing<RemoteCache> = HashRing::new();
    for cache in caches() {
        ring.add(cache);
    }
    let taken = ring.remove(&RemoteCache { addr: [127, 0, 0, 2] });
    assert_eq!(taken, Some(RemoteCache { addr: [127, 0, 0, 2] }));
    assert_eq!(ring.len(), 2);
    assert_eq!(ring.remove(&RemoteCache { addr: [127, 0, 0, 2] }), None);
    assert_eq!(ring.len(), 2);
}

#[test]
fn same_key_goes_to_the_same_node() {
    let mut ring: HashRing<RemoteCache> = HashRing::new();
    for cache in caches() {
        ring.add(cache);
    }
    let first = ring.get(&"some key").map(|n| n.addr);
    let second = ring.get(&"some key").map(|n| n.addr);
    assert_eq!(first, second);
    assert_eq!(ring.len(), 3);
}

#[test]
fn empty_ring_owns_nothing() {
    let mut ring: HashRing<u32> = HashRing::new();
    assert_eq!(ring.get(&7u8), None);
    assert_eq!(ring.owner(7), None);
    assert_eq!(ring.remove(&7u8), None);
    assert_eq!(ring.displace(7), None);
}

#[test]
fn owner_is_the_first_node_at_or_after_the_position() {
    let mut ring: HashRing<&str> = HashRing::new();
    ring.place(300, "c");
    ring.place(100, "a");
    ring.place(200, "b");
    assert_eq!(ring.len(), 3);
    assert_eq!(ring.owner(0), Some(&"a"));
    assert_eq!(ring.owner(100), Some(&"a"));
    assert_eq!(ring.owner(101), Some(&"b"));
    assert_eq!(ring.owner(200), Some(&"b"));
    assert_eq!(ring.owner(201), Some(&"c"));
    assert_eq!(ring.owner(300), Some(&"c"));
    assert_eq!(ring.owner(301), Some(&"a"));
    assert_eq!(ring.owner(u64::MAX), Some(&"a"));
}

#[test]
fn nodes_at_one_position_keep_their_order() {
    let mut ring: HashRing<&str> = HashRing::new();
    ring.place(5, "first");
    ring.place(5, "second");
    ring.place(1, "low");
    ring.place(5, "third");
    ring.place(9, "high");
    assert_eq!(ring.owner(2), Some(&"first"));
    assert_eq!(ring.displace(5), Some("first"));
    assert_eq!(ring.owner(5), Some(&"second"));
    assert_eq!(ring.displace(5), Some("second"));
    assert_eq!(ring.displace(5), Some("third"));
    assert_eq!(ring.displace(5), None);
    assert_eq!(ring.owner(5), Some(&"high"));
    assert_eq!(ring.displace(4), None);
    assert_eq!(ring.displace(1), Some("low"));
    assert_eq!(ring.displace(9), Some("high"));
    assert_eq!(ring.len(), 0);
}

use std::hash::Hasher as _;

use connector::consistent_hash::ConsistentHashRing;

fn xx(s: &str) -> u64 {
    let mut h = twox_hash::XxHash64::with_seed(0);
    h.write(s.as_bytes());
    h.finish()
}

/// The lookup rule, computed directly from the reference hasher: the owner
/// of the least virtual hash at or above the key's hash, wrapping around.
fn expected_owner(nodes: &[&str], replicas: usize, key: &str) -> Option<String> {
    let mut points: Vec<(u64, &str)> = Vec::new();
    for n in nodes {
        for i in 0..replicas {
            points.push((xx(&format!("{}-{}", n, i)), n));
        }
    }
    if points.is_empty() {
        return None;
    }
    points.sort();
    let h = xx(key);
    for (p, n) in &points {
        if *p >= h {
            return Some(n.to_string());
        }
    }
    Some(points[0].1.to_string())
}

#[test]
fn empty_ring_returns_no_node() {
    let ring = ConsistentHashRing::new(5);
    assert_eq!(ring.get_node("anything"), None);
    assert_eq!(ring.len(), 0);
}

#[test]
fn single_node_owns_every_key() {
    let mut ring = ConsistentHashRing::new(3);
    ring.add_node("only");
    assert_eq!(ring.len(), 3);
    for key in ["a", "b", "c", "zebra"] {
        assert_eq!(ring.get_node(key).as_deref(), Some("only"));
    }
}

#[test]
fn lookup_matches_reference_hasher() {
    let nodes = ["alpha", "beta", "gamma"];
    let replicas = 7;
    let mut ring = ConsistentHashRing::new(replicas);
    for n in nodes {
        ring.add_node(n);
    }
    assert_eq!(ring.len(), nodes.len() * replicas);
    for key in ["u1", "u2", "chan-42", "some longer key", ""] {
        assert_eq!(ring.get_node(key), expected_owner(&nodes, replicas, key));
    }
}

#[test]
fn add_then_remove_is_identity() {
    let mut ring = ConsistentHashRing::new(5);
    ring.add_node("stay");
    let before: Vec<Option<String>> =
        ["k1", "k2", "k3"].iter().map(|k| ring.get_node(k)).collect();
    ring.add_node("gone");
    ring.remove_node("gone");
    assert_eq!(ring.len(), 5);
    let after: Vec<Option<String>> =
        ["k1", "k2", "k3"].iter().map(|k| ring.get_node(k)).collect();
    assert_eq!(before, after);
}

#[test]
fn remove_absent_node_changes_nothing() {
    let mut ring = ConsistentHashRing::new(4);
    ring.add_node("a");
    ring.remove_node("never-added");
    assert_eq!(ring.len(), 4);
    assert_eq!(ring.get_node("k").as_deref(), Some("a"));
}

#[test]
fn clear_empties_the_ring() {
    let mut ring = ConsistentHashRing::new(4);
    ring.add_node("a");
    ring.add_node("b");
    ring.clear();
    assert_eq!(ring.len(), 0);
    assert_eq!(ring.get_node("k"), None);
}

#[test]
fn lookups_are_stable_between_mutations() {
    let mut ring = ConsistentHashRing::new(6);
    ring.add_node("n1");
    ring.add_node("n2");
    let first = ring.get_node("user-77");
    let second = ring.get_node("user-77");
    assert_eq!(first, second);
}

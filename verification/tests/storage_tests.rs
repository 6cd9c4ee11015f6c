use cita_gossip::storage::{copy_nodes, mark_dead, Node};

fn node(id: &str, ip: &str, ts: &str) -> Node {
    Node::new(id, ip, ts)
}

fn triples(v: &Vec<Node>) -> Vec<(String, String, String)> {
    v.iter()
        .map(|n| (n.id().clone(), n.ip().clone(), n.timestamp().clone()))
        .collect()
}

#[test]
fn node_new_keeps_fields() {
    let n = node("a", "10.0.0.1:443", "1700");
    assert_eq!(n.id(), "a");
    assert_eq!(n.ip(), "10.0.0.1:443");
    assert_eq!(n.timestamp(), "1700");
    let d = n.duplicate();
    assert_eq!(d.id(), "a");
    assert_eq!(d.ip(), "10.0.0.1:443");
    assert_eq!(d.timestamp(), "1700");
}

#[test]
fn copy_nodes_copies_in_order() {
    let v = vec![node("a", "1", "t1"), node("b", "2", "t2")];
    assert_eq!(triples(&copy_nodes(&v)), triples(&v));
    assert!(copy_nodes(&Vec::new()).is_empty());
}

#[test]
fn mark_dead_sets_stars_on_matching_member_only() {
    let v = vec![node("a", "1", "t1"), node("b", "2", "t2"), node("c", "3", "t3")];
    let r = mark_dead(&v, &node("b", "ignored", "ignored"));
    assert_eq!(
        triples(&r),
        vec![
            ("a".to_string(), "1".to_string(), "t1".to_string()),
            ("b".to_string(), "2".to_string(), "***".to_string()),
            ("c".to_string(), "3".to_string(), "t3".to_string()),
        ]
    );
}

#[test]
fn mark_dead_marks_every_member_with_the_identity() {
    let v = vec![node("a", "1", "t1"), node("a", "9", "t9")];
    let r = mark_dead(&v, &node("a", "", ""));
    assert_eq!(r[0].timestamp(), "***");
    assert_eq!(r[1].timestamp(), "***");
    assert_eq!(r[1].ip(), "9");
}

#[test]
fn mark_dead_unknown_member_changes_nothing() {
    let v = vec![node("a", "1", "t1")];
    let r = mark_dead(&v, &node("z", "", ""));
    assert_eq!(triples(&r), triples(&v));
    assert!(mark_dead(&Vec::new(), &node("z", "", "")).is_empty());
}

#[test]
fn mark_dead_twice_is_marking_once() {
    let v = vec![node("a", "1", "t1"), node("b", "2", "t2")];
    let once = mark_dead(&v, &node("a", "", ""));
    let twice = mark_dead(&once, &node("a", "", ""));
    assert_eq!(triples(&once), triples(&twice));
}

#[test]
fn mark_dead_order_does_not_matter() {
    let v = vec![node("a", "1", "t1"), node("b", "2", "t2"), node("c", "3", "t3")];
    let ab = mark_dead(&mark_dead(&v, &node("a", "", "")), &node("b", "", ""));
    let ba = mark_dead(&mark_dead(&v, &node("b", "", "")), &node("a", "", ""));
    assert_eq!(triples(&ab), triples(&ba));
    assert_eq!(ab[2].timestamp(), "t3");
}

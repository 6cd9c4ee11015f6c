use cita_gossip::filter::{filter, pick_target, random_filter, spread_at, Gossip_Send, Spread};
use cita_gossip::msg::Payload;
use cita_gossip::storage::{mark_dead, Node};

fn list() -> Vec<Node> {
    vec![
        Node::new("a", "10.0.0.1:443", "t1"),
        Node::new("b", "10.0.0.2:443", "t2"),
        Node::new("c", "10.0.0.3:443", "t3"),
    ]
}

#[test]
fn filter_finds_address_by_identity() {
    let l = list();
    let target = Node::new("b", "elsewhere", "");
    assert_eq!(filter(&l, &target), Some("10.0.0.2:443".to_string()));
}

#[test]
fn filter_unknown_identity_is_none() {
    assert_eq!(filter(&list(), &Node::new("x", "", "")), None);
    assert_eq!(filter(&Vec::new(), &Node::new("a", "", "")), None);
}

#[test]
fn filter_last_member_with_identity_wins() {
    let mut l = list();
    l.push(Node::new("a", "10.9.9.9:443", "t4"));
    assert_eq!(filter(&l, &Node::new("a", "", "")), Some("10.9.9.9:443".to_string()));
}

#[test]
fn marking_dead_keeps_addresses() {
    let l = list();
    let marked = mark_dead(&l, &Node::new("b", "", ""));
    for id in ["a", "b", "c", "x"] {
        let t = Node::new(id, "", "");
        assert_eq!(filter(&marked, &t), filter(&l, &t));
    }
}

#[test]
fn pick_target_by_position() {
    let l = list();
    assert_eq!(pick_target(&l, 1).map(|n| n.id().clone()), Some("b".to_string()));
    assert_eq!(pick_target(&l, 2).map(|n| n.id().clone()), Some("c".to_string()));
    assert!(pick_target(&l, 3).is_none());
}

#[test]
fn random_filter_draws_a_member() {
    let l = list();
    let mut seen = [false; 3];
    for _ in 0..300 {
        let n = random_filter(&l);
        match n.id().as_str() {
            "a" => seen[0] = true,
            "b" => seen[1] = true,
            "c" => seen[2] = true,
            other => panic!("not a member: {}", other),
        }
    }
    assert!(seen.iter().all(|s| *s));
    let single = vec![Node::new("only", "1", "")];
    for _ in 0..20 {
        assert_eq!(random_filter(&single).id(), "only");
    }
}

#[test]
fn spread_at_position_sends_gossip_data() {
    let l = list();
    let me = Node::new("a", "10.0.0.1:443", "t1");
    let (m, t) = spread_at(&me, &l, "block 42".to_string(), 2).expect("member at position 2");
    assert_eq!(m.receive(), "block 42");
    assert_eq!(t.ip, "10.0.0.3:443");
    match t.payload {
        Payload::Gossip(d) => assert_eq!(d, "block 42"),
        _ => panic!("gossip payload expected"),
    }
    assert!(spread_at(&me, &l, "x".to_string(), 3).is_none());
}

#[test]
fn spread_always_reaches_a_member() {
    let l = list();
    let me = Node::new("a", "10.0.0.1:443", "t1");
    let mut reached_first = false;
    for _ in 0..300 {
        let (_m, t) = Spread(&me, &l, "d".to_string());
        assert!(t.ip == "10.0.0.1:443" || t.ip == "10.0.0.2:443" || t.ip == "10.0.0.3:443");
        assert!(matches!(t.payload, Payload::Gossip(ref d) if d == "d"));
        reached_first |= t.ip == "10.0.0.1:443";
    }
    assert!(reached_first);
    let single = vec![Node::new("only", "9.9.9.9:1", "")];
    assert_eq!(Spread(&me, &single, "d".to_string()).1.ip, "9.9.9.9:1");
}

#[test]
fn gossip_send_goes_to_the_given_member() {
    let l = list();
    let me = Node::new("a", "10.0.0.1:443", "t1");
    let (m, t) = Gossip_Send(&me, &l, &Node::new("c", "", ""), "v1".to_string());
    assert_eq!(m.receive(), "v1");
    let t = t.unwrap();
    assert_eq!(t.ip, "10.0.0.3:443");
    assert!(matches!(t.payload, Payload::Gossip(ref d) if d == "v1"));
    assert!(Gossip_Send(&me, &l, &Node::new("q", "", ""), "v1".to_string()).1.is_none());
}

use cita_gossip::msg::{Gossip_msg, HeartBeat_msg, List_msg, Payload, Short_msg};
use cita_gossip::storage::Node;

fn list() -> Vec<Node> {
    vec![Node::new("a", "10.0.0.1:443", "t1"), Node::new("b", "10.0.0.2:443", "t2")]
}

fn me() -> Node {
    Node::new("a", "10.0.0.1:443", "t1")
}

#[test]
fn short_msg_send_is_an_empty_transfer() {
    let mut m = Short_msg::new(me());
    let t = m.send(&list(), &Node::new("b", "", "")).unwrap();
    assert_eq!(t.ip, "10.0.0.2:443");
    assert!(matches!(t.payload, Payload::Empty));
    assert!(m.send(&list(), &Node::new("z", "", "")).is_none());
}

#[test]
fn short_msg_receive_acknowledges_back_to_source() {
    let mut m = Short_msg::new(me());
    m.send(&list(), &Node::new("b", "10.0.0.2:443", "t2"));
    let (ack, t) = m.receive(&list()).expect("a plain message is acknowledged");
    let t = t.expect("the source is listed");
    assert_eq!(t.ip, "10.0.0.1:443");
    assert!(matches!(t.payload, Payload::Empty));
    assert!(ack.receive(&list()).is_none());
}

#[test]
fn short_msg_ack_to_unlisted_source_has_no_transfer() {
    let m = Short_msg::new(Node::new("stranger", "1.1.1.1:1", ""));
    let (_ack, t) = m.receive(&list()).unwrap();
    assert!(t.is_none());
}

#[test]
fn list_msg_send_carries_local_list() {
    let mut m = List_msg::new(me());
    let t = m.send(&list(), &Node::new("b", "", ""), true).unwrap();
    assert_eq!(t.ip, "10.0.0.2:443");
    match t.payload {
        Payload::List(l) => {
            assert_eq!(l.len(), 2);
            assert_eq!(l[0].id(), "a");
            assert_eq!(l[1].ip(), "10.0.0.2:443");
        }
        _ => panic!("list payload expected"),
    }
}

#[test]
fn gossip_msg_send_carries_data() {
    let mut m = Gossip_msg::new(me());
    let t = m.send(&list(), &Node::new("a", "", ""), "book".to_string()).unwrap();
    assert_eq!(t.ip, "10.0.0.1:443");
    assert!(matches!(t.payload, Payload::Gossip(ref d) if d == "book"));
    assert_eq!(m.receive(), "book");
}

#[test]
fn heartbeat_send_carries_alive_flag() {
    let mut m = HeartBeat_msg::new(me());
    let t = m.send(&list(), &Node::new("b", "", ""), false).unwrap();
    assert_eq!(t.ip, "10.0.0.2:443");
    assert!(matches!(t.payload, Payload::HeartBeat(false)));
    let t = m.send(&list(), &Node::new("b", "", ""), true).unwrap();
    assert!(matches!(t.payload, Payload::HeartBeat(true)));
    assert!(m.send(&Vec::new(), &Node::new("b", "", ""), true).is_none());
}

fn ids(v: &Vec<Node>) -> Vec<(String, String)> {
    v.iter().map(|n| (n.id().clone(), n.timestamp().clone())).collect()
}

#[test]
fn list_reply_replaces_local_list() {
    let mut m = List_msg::new(me());
    m.send(&list(), &Node::new("b", "", ""), false);
    let local = vec![Node::new("z", "9", "t")];
    assert_eq!(ids(&m.receive(&local)), ids(&list()));
}

#[test]
fn list_request_enlists_sender() {
    let mut m = List_msg::new(Node::new("new", "10.0.0.9:443", "t9"));
    m.send(&list(), &Node::new("a", "", ""), true);
    let r = m.receive(&list());
    assert_eq!(r.len(), 3);
    assert_eq!(r[2].id(), "new");
    let mut again = List_msg::new(me());
    again.send(&list(), &Node::new("b", "", ""), true);
    assert_eq!(ids(&again.receive(&list())), ids(&list()));
}

#[test]
fn heartbeat_receive_marks_dead_or_enlists() {
    let mut dead = HeartBeat_msg::new(Node::new("b", "10.0.0.2:443", "t2"));
    dead.send(&list(), &Node::new("a", "", ""), false);
    let r = dead.receive(&list());
    assert_eq!(ids(&r), vec![("a".to_string(), "t1".to_string()), ("b".to_string(), "***".to_string())]);
    let mut alive = HeartBeat_msg::new(Node::new("c", "10.0.0.3:443", "t3"));
    alive.send(&list(), &Node::new("a", "", ""), true);
    let r = alive.receive(&list());
    assert_eq!(r.len(), 3);
    assert_eq!(r[2].id(), "c");
    let known = HeartBeat_msg::new(Node::new("a", "x", "y"));
    assert_eq!(ids(&known.receive(&list())), ids(&list()));
}

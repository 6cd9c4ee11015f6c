//! The four kinds of message a node sends, and what sending one asks of the
//! transport.

#![allow(non_camel_case_types, non_snake_case)]

use vstd::prelude::*;
use crate::storage::{Node, NodeView, view_nodes, copy_nodes, mark_dead, spec_mark_dead, dead_mark};
use crate::filter::{filter, spec_lookup_ip, has_id, contains_id};

verus! {

/// What the transport carries to the destination: nothing (a short
/// message), a member list, gossip data, or an alive flag.
pub enum Payload {
    Empty,
    List(Vec<Node>),
    Gossip(String),
    HeartBeat(bool),
}

/// The view of a payload.
pub enum PayloadView {
    Empty,
    List(Seq<NodeView>),
    Gossip(Seq<char>),
    HeartBeat(bool),
}

impl View for Payload {
    type V = PayloadView;

    open spec fn view(&self) -> PayloadView {
        match self {
            Payload::Empty => PayloadView::Empty,
            Payload::List(l) => PayloadView::List(view_nodes(l@)),
            Payload::Gossip(d) => PayloadView::Gossip(d@),
            Payload::HeartBeat(b) => PayloadView::HeartBeat(*b),
        }
    }
}

/// One transfer that the transport is to make: the payload, to the address.
pub struct Transmission {
    pub ip: String,
    pub payload: Payload,
}

/// The view of a transfer.
pub struct TransmissionView {
    pub ip: Seq<char>,
    pub payload: PayloadView,
}

impl View for Transmission {
    type V = TransmissionView;

    open spec fn view(&self) -> TransmissionView {
        TransmissionView { ip: self.ip@, payload: self.payload@ }
    }
}

/// The view of an optional transfer.
pub open spec fn view_opt_transmission(t: Option<Transmission>) -> Option<TransmissionView> {
    match t {
        Some(t) => Some(t@),
        None => None,
    }
}

/// The transfer that sending `payload` to the member with identity `id`
/// asks for: to the address the list holds for that identity, and none when
/// the list holds no such member.
pub open spec fn spec_transmission(list: Seq<NodeView>, id: Seq<char>, payload: PayloadView) -> Option<TransmissionView> {
    match spec_lookup_ip(list, id) {
        Some(ip) => Some(TransmissionView { ip, payload }),
        None => None,
    }
}

/// Resolves the destination's address and pairs it with the payload.
fn dispatch(list: &Vec<Node>, target: &Node, payload: Payload) -> (t: Option<Transmission>)
    ensures
        view_opt_transmission(t) == spec_transmission(view_nodes(list@), target@.id, payload@),
{
    match filter(list, target) {
        Some(ip) => Some(Transmission { ip, payload }),
        None => None,
    }
}

/// A short message, or its acknowledgement when `flag` is set.
pub struct Short_msg {
    src: Node,
    des: Node,
    data: String,
    flag: bool,
}

/// The view of a short message.
pub struct ShortMsgView {
    pub src: NodeView,
    pub des: NodeView,
    pub data: Seq<char>,
    pub flag: bool,
}

impl View for Short_msg {
    type V = ShortMsgView;

    closed spec fn view(&self) -> ShortMsgView {
        ShortMsgView { src: self.src@, des: self.des@, data: self.data@, flag: self.flag }
    }
}

/// A message that carries the sender's member list, or asks for the
/// receiver's when `is_request` is set.
pub struct List_msg {
    src: Node,
    des: Node,
    is_request: bool,
    List: Vec<Node>,
}

/// The view of a list message.
pub struct ListMsgView {
    pub src: NodeView,
    pub des: NodeView,
    pub is_request: bool,
    pub list: Seq<NodeView>,
}

impl View for List_msg {
    type V = ListMsgView;

    closed spec fn view(&self) -> ListMsgView {
        ListMsgView { src: self.src@, des: self.des@, is_request: self.is_request, list: view_nodes(self.List@) }
    }
}

/// A message that spreads gossip data.
pub struct Gossip_msg {
    src: Node,
    des: Node,
    data: String,
}

/// The view of a gossip message.
pub struct GossipMsgView {
    pub src: NodeView,
    pub des: NodeView,
    pub data: Seq<char>,
}

impl View for Gossip_msg {
    type V = GossipMsgView;

    closed spec fn view(&self) -> GossipMsgView {
        GossipMsgView { src: self.src@, des: self.des@, data: self.data@ }
    }
}

/// A message that tells whether its sender is alive.
pub struct HeartBeat_msg {
    src: Node,
    des: Node,
    is_alive: bool,
}

/// The view of a heartbeat message.
pub struct HeartBeatMsgView {
    pub src: NodeView,
    pub des: NodeView,
    pub is_alive: bool,
}

impl View for HeartBeat_msg {
    type V = HeartBeatMsgView;

    closed spec fn view(&self) -> HeartBeatMsgView {
        HeartBeatMsgView { src: self.src@, des: self.des@, is_alive: self.is_alive }
    }
}

/// The acknowledgement of a short message: none for a message that is
/// itself an acknowledgement; otherwise a flagged message with no data, from
/// the message's destination back to its source.
pub open spec fn spec_ack(m: ShortMsgView) -> Option<ShortMsgView> {
    if m.flag {
        None
    } else {
        Some(ShortMsgView { src: m.des, des: m.src, data: Seq::empty(), flag: true })
    }
}

/// An acknowledgement is never acknowledged, and it goes back to where the
/// acknowledged message came from.
pub proof fn lemma_ack_not_answered(m: ShortMsgView)
    ensures
        spec_ack(m) matches Some(a) ==> spec_ack(a) is None && a.des == m.src && a.src == m.des,
{
}

/// The member list with `n` enlisted: unchanged when a member already has
/// `n`'s identity, otherwise with `n` added at the end.
pub open spec fn spec_enlist(local: Seq<NodeView>, n: NodeView) -> Seq<NodeView> {
    if has_id(local, n.id) {
        local
    } else {
        local.push(n)
    }
}

/// Enlists `n` into the member list (see `spec_enlist`).
fn enlist(local: &Vec<Node>, n: &Node) -> (r: Vec<Node>)
    ensures
        view_nodes(r@) == spec_enlist(view_nodes(local@), n@),
{
    let mut r = copy_nodes(local);
    if !contains_id(local, n.id()) {
        let ghost before = r@;
        r.push(n.duplicate());
        assert(view_nodes(r@) =~= view_nodes(before).push(n@));
    }
    r
}

/// The member list after receiving a list message: a reply puts the list it
/// carries in place of the local one; a request enlists its sender.
pub open spec fn spec_list_receive(m: ListMsgView, local: Seq<NodeView>) -> Seq<NodeView> {
    if m.is_request {
        spec_enlist(local, m.src)
    } else {
        m.list
    }
}

/// The member list after receiving a heartbeat: an alive sender is
/// enlisted; a sender that is not alive is marked dead.
pub open spec fn spec_heartbeat_receive(m: HeartBeatMsgView, local: Seq<NodeView>) -> Seq<NodeView> {
    if m.is_alive {
        spec_enlist(local, m.src)
    } else {
        spec_mark_dead(local, m.src.id)
    }
}

/// What receiving does to the member list: after a reply the list is the
/// one carried; after a request, or an alive heartbeat, the sender is
/// listed; after a heartbeat that is not alive, every member with the
/// sender's identity carries `***`, and every other member is unchanged.
pub proof fn lemma_receive_effects(l: ListMsgView, h: HeartBeatMsgView, local: Seq<NodeView>)
    ensures
        !l.is_request ==> spec_list_receive(l, local) == l.list,
        l.is_request ==> has_id(spec_list_receive(l, local), l.src.id),
        h.is_alive ==> has_id(spec_heartbeat_receive(h, local), h.src.id),
        !h.is_alive ==> spec_heartbeat_receive(h, local).len() == local.len() && forall|i: int|
            0 <= i < local.len() ==> if local[i].id == h.src.id {
                (#[trigger] spec_heartbeat_receive(h, local)[i]).timestamp == dead_mark()
            } else {
                spec_heartbeat_receive(h, local)[i] == local[i]
            },
{
    if l.is_request && !has_id(local, l.src.id) {
        assert(local.push(l.src)[local.len() as int] == l.src);
    }
    if h.is_alive && !has_id(local, h.src.id) {
        assert(local.push(h.src)[local.len() as int] == h.src);
    }
}

/// Receiving a list message: a reply leaves the node with exactly the
/// list it carries; a request from a sender no member shares an identity
/// with appends the sender, as it is, after the local members, so that its
/// address is then found for its identity; a request from a listed sender
/// leaves the list as it is.
pub proof fn lemma_list_receive_law(l: ListMsgView, local: Seq<NodeView>)
    ensures
        !l.is_request ==> spec_list_receive(l, local) == l.list,
        l.is_request && (forall|i: int| 0 <= i < local.len() ==> (#[trigger] local[i]).id != l.src.id) ==> {
            &&& spec_list_receive(l, local) == local.push(l.src)
            &&& spec_lookup_ip(spec_list_receive(l, local), l.src.id) == Some(l.src.ip)
        },
        l.is_request && (exists|i: int| 0 <= i < local.len() && (#[trigger] local[i]).id == l.src.id)
            ==> spec_list_receive(l, local) == local,
{
    if l.is_request && (forall|i: int| 0 <= i < local.len() ==> (#[trigger] local[i]).id != l.src.id) {
        if has_id(local, l.src.id) {
            let i = choose|i: int| 0 <= i < local.len() && (#[trigger] local[i]).id == l.src.id;
            assert(local[i].id != l.src.id);
        }
        assert(local.push(l.src).drop_last() =~= local);
    }
}

/// Receiving a heartbeat: an alive sender no member shares an identity
/// with is appended, as it is (with its own timestamp), after the local
/// members; an alive sender already listed leaves the list as it is; a
/// sender that is not alive leaves every member's identity and address as
/// they are, gives every member with the sender's identity the timestamp
/// `***`, and leaves every other member unchanged.
pub proof fn lemma_heartbeat_receive_law(h: HeartBeatMsgView, local: Seq<NodeView>)
    ensures
        h.is_alive && (forall|i: int| 0 <= i < local.len() ==> (#[trigger] local[i]).id != h.src.id) ==> {
            &&& spec_heartbeat_receive(h, local) == local.push(h.src)
            &&& spec_heartbeat_receive(h, local)[local.len() as int].timestamp == h.src.timestamp
        },
        h.is_alive && (exists|i: int| 0 <= i < local.len() && (#[trigger] local[i]).id == h.src.id)
            ==> spec_heartbeat_receive(h, local) == local,
        !h.is_alive ==> spec_heartbeat_receive(h, local).len() == local.len() && forall|i: int|
            0 <= i < local.len() ==> {
                &&& (#[trigger] spec_heartbeat_receive(h, local)[i]).id == local[i].id
                &&& spec_heartbeat_receive(h, local)[i].ip == local[i].ip
                &&& local[i].id == h.src.id ==> spec_heartbeat_receive(h, local)[i].timestamp == seq!['*', '*', '*']
                &&& local[i].id != h.src.id ==> spec_heartbeat_receive(h, local)[i] == local[i]
            },
{
    if h.is_alive && (forall|i: int| 0 <= i < local.len() ==> (#[trigger] local[i]).id != h.src.id) {
        if has_id(local, h.src.id) {
            let i = choose|i: int| 0 <= i < local.len() && (#[trigger] local[i]).id == h.src.id;
            assert(local[i].id != h.src.id);
        }
        assert(local.push(h.src)[local.len() as int] == h.src);
    }
}

impl Short_msg {
    /// A fresh short message of the local member: from and to itself, no
    /// data, not an acknowledgement.
    pub fn new(self_node: Node) -> (m: Self)
        ensures
            m@ == (ShortMsgView { src: self_node@, des: self_node@, data: Seq::empty(), flag: false }),
    {
        let des = self_node.duplicate();
        Short_msg { src: self_node, des, data: String::new(), flag: false }
    }

    /// Addresses the message to `target` as a plain (unacknowledged) short
    /// message, and asks for an empty transfer to the target's address as
    /// the member list holds it.
    pub fn send(&mut self, list: &Vec<Node>, target: &Node) -> (t: Option<Transmission>)
        ensures
            final(self)@ == (ShortMsgView { des: target@, flag: false, ..old(self)@ }),
            view_opt_transmission(t) == spec_transmission(view_nodes(list@), target@.id, PayloadView::Empty),
    {
        self.des = target.duplicate();
        self.flag = false;
        dispatch(list, target, Payload::Empty)
    }

    /// On receipt of a message that is not itself an acknowledgement, the
    /// acknowledgement (see `spec_ack`), and the empty transfer to the
    /// address the member list holds for the message's source. An
    /// acknowledgement is not answered.
    pub fn receive(&self, list: &Vec<Node>) -> (r: Option<(Short_msg, Option<Transmission>)>)
        ensures
            r is Some <==> spec_ack(self@) is Some,
            r matches Some((ack, t)) ==> ack@ == spec_ack(self@)->0
                && view_opt_transmission(t) == spec_transmission(
                view_nodes(list@),
                self@.src.id,
                PayloadView::Empty,
            ),
    {
        if self.flag == false {
            let ack = Short_msg {
                src: self.des.duplicate(),
                des: self.src.duplicate(),
                data: String::new(),
                flag: true,
            };
            let t = dispatch(list, &ack.des, Payload::Empty);
            Some((ack, t))
        } else {
            None
        }
    }
}

impl List_msg {
    /// A fresh list message of the local member: from and to itself, a
    /// request, carrying no members.
    pub fn new(self_node: Node) -> (m: Self)
        ensures
            m@ == (ListMsgView { src: self_node@, des: self_node@, is_request: true, list: Seq::empty() }),
    {
        let des = self_node.duplicate();
        let m = List_msg { src: self_node, des, is_request: true, List: Vec::new() };
        assert(view_nodes(m.List@) =~= Seq::empty());
        m
    }

    /// Addresses the message to `target`, marks it a request or not, loads
    /// the local member list into it, and asks for the transfer of that list
    /// to the target's address as the member list holds it.
    pub fn send(&mut self, list: &Vec<Node>, target: &Node, if_request: bool) -> (t: Option<Transmission>)
        ensures
            final(self)@ == (ListMsgView {
                src: old(self)@.src,
                des: target@,
                is_request: if_request,
                list: view_nodes(list@),
            }),
            view_opt_transmission(t) == spec_transmission(
                view_nodes(list@),
                target@.id,
                PayloadView::List(view_nodes(list@)),
            ),
    {
        self.des = target.duplicate();
        self.is_request = if_request;
        self.List = copy_nodes(list);
        dispatch(list, target, Payload::List(copy_nodes(list)))
    }

    /// The member list after this message is received by a node whose list
    /// is `local`: a reply's list replaces it; a request enlists its sender.
    pub fn receive(&self, local: &Vec<Node>) -> (r: Vec<Node>)
        ensures
            view_nodes(r@) == spec_list_receive(self@, view_nodes(local@)),
    {
        if self.is_request {
            enlist(local, &self.src)
        } else {
            copy_nodes(&self.List)
        }
    }
}

impl Gossip_msg {
    /// A fresh gossip message of the local member: from and to itself, no
    /// data.
    pub fn new(self_node: Node) -> (m: Self)
        ensures
            m@ == (GossipMsgView { src: self_node@, des: self_node@, data: Seq::empty() }),
    {
        let des = self_node.duplicate();
        Gossip_msg { src: self_node, des, data: String::new() }
    }

    /// Addresses the message to `target` with `Data` as its content, and
    /// asks for the transfer of that data to the target's address as the
    /// member list holds it.
    pub fn send(&mut self, list: &Vec<Node>, target: &Node, Data: String) -> (t: Option<Transmission>)
        ensures
            final(self)@ == (GossipMsgView { src: old(self)@.src, des: target@, data: Data@ }),
            view_opt_transmission(t) == spec_transmission(
                view_nodes(list@),
                target@.id,
                PayloadView::Gossip(Data@),
            ),
    {
        self.des = target.duplicate();
        let payload = Payload::Gossip(Data.clone());
        self.data = Data;
        dispatch(list, target, payload)
    }

    /// The data the message brings, for the receiving node to take in.
    pub fn receive(&self) -> (d: String)
        ensures
            d@ == self@.data,
    {
        self.data.clone()
    }
}

impl HeartBeat_msg {
    /// A fresh heartbeat of the local member: from and to itself, alive.
    pub fn new(self_node: Node) -> (m: Self)
        ensures
            m@ == (HeartBeatMsgView { src: self_node@, des: self_node@, is_alive: true }),
    {
        let des = self_node.duplicate();
        HeartBeat_msg { src: self_node, des, is_alive: true }
    }

    /// Addresses the heartbeat to `target` with the given alive flag, and
    /// asks for the transfer of that flag to the target's address as the
    /// member list holds it.
    pub fn send(&mut self, list: &Vec<Node>, target: &Node, if_alive: bool) -> (t: Option<Transmission>)
        ensures
            final(self)@ == (HeartBeatMsgView { src: old(self)@.src, des: target@, is_alive: if_alive }),
            view_opt_transmission(t) == spec_transmission(
                view_nodes(list@),
                target@.id,
                PayloadView::HeartBeat(if_alive),
            ),
    {
        self.des = target.duplicate();
        self.is_alive = if_alive;
        dispatch(list, target, Payload::HeartBeat(if_alive))
    }

    /// The member list after this heartbeat is received by a node whose
    /// list is `local`: an alive sender is enlisted, a sender that is not
    /// alive is marked dead.
    pub fn receive(&self, local: &Vec<Node>) -> (r: Vec<Node>)
        ensures
            view_nodes(r@) == spec_heartbeat_receive(self@, view_nodes(local@)),
    {
        if self.is_alive {
            enlist(local, &self.src)
        } else {
            mark_dead(local, &self.src)
        }
    }
}

} // verus!

//! Joining the cluster: the configured seed members, and the requests a
//! node sends to find the others.

#![allow(non_camel_case_types, non_snake_case)]

use vstd::prelude::*;
use crate::storage::{Node, NodeView, view_nodes, copy_nodes};
use crate::filter::{pick_target, random_index, spec_pick, has_id, lemma_lookup_finds_member, lemma_lookup_is_last_match, spec_lookup_ip};
use crate::msg::{
    HeartBeat_msg, HeartBeatMsgView, List_msg, ListMsgView, Payload, Transmission, TransmissionView,
    PayloadView, spec_transmission,
};

verus! {

/// A seed member from the configuration: identity, address and port.
#[derive(Debug)]
pub struct Seed_Node {
    Id: String,
    Ip: String,
    Port: String,
}

/// The view of a seed member.
pub struct SeedNodeView {
    pub id: Seq<char>,
    pub ip: Seq<char>,
    pub port: Seq<char>,
}

impl View for Seed_Node {
    type V = SeedNodeView;

    closed spec fn view(&self) -> SeedNodeView {
        SeedNodeView { id: self.Id@, ip: self.Ip@, port: self.Port@ }
    }
}

/// The views of a sequence of seed members.
pub open spec fn view_seeds(seeds: Seq<Seed_Node>) -> Seq<SeedNodeView> {
    seeds.map_values(|n: Seed_Node| n@)
}

/// The member a seed stands for: its identity and address, with no
/// timestamp yet.
pub open spec fn seed_member(s: SeedNodeView) -> NodeView {
    NodeView { id: s.id, ip: s.ip, timestamp: Seq::empty() }
}

impl Seed_Node {
    /// Makes a seed member from its identity, address and port.
    pub fn new(id: &str, ip: &str, port: &str) -> (n: Seed_Node)
        ensures
            n@ == (SeedNodeView { id: id@, ip: ip@, port: port@ }),
    {
        Seed_Node { Id: String::from_str(id), Ip: String::from_str(ip), Port: String::from_str(port) }
    }

    /// The seed's identity.
    pub fn id(&self) -> (r: &String)
        ensures
            r@ == self@.id,
    {
        &self.Id
    }

    /// The seed's address.
    pub fn ip(&self) -> (r: &String)
        ensures
            r@ == self@.ip,
    {
        &self.Ip
    }

    /// The seed's port.
    pub fn port(&self) -> (r: &String)
        ensures
            r@ == self@.port,
    {
        &self.Port
    }

    /// The member this seed stands for.
    pub fn to_node(&self) -> (n: Node)
        ensures
            n@ == seed_member(self@),
    {
        let n = Node::new(self.Id.as_str(), self.Ip.as_str(), "");
        proof {
            reveal_strlit("");
        }
        assert(n@.timestamp =~= Seq::<char>::empty());
        n
    }
}

/// The seed at position `r`, or `None` past the end of the list.
pub open spec fn spec_pick_seed(seeds: Seq<SeedNodeView>, r: int) -> Option<SeedNodeView> {
    if 0 <= r < seeds.len() {
        Some(seeds[r])
    } else {
        None
    }
}

/// Where the messages to a seed go: to the address the member list holds
/// for the seed's identity when it holds one, otherwise to the seed's own
/// configured address and port, as `address:port`.
pub open spec fn spec_seed_address(list: Seq<NodeView>, seed: SeedNodeView) -> Seq<char> {
    match spec_lookup_ip(list, seed.id) {
        Some(ip) => ip,
        None => seed.ip + seq![':'] + seed.port,
    }
}

/// What applying to a seed sends: an alive heartbeat and a list request,
/// each with its transfer.
pub struct Application {
    pub heartbeat: HeartBeat_msg,
    pub heartbeat_transfer: Transmission,
    pub request: List_msg,
    pub request_transfer: Transmission,
}

/// The view of what applying to a seed sends.
pub struct ApplicationView {
    pub heartbeat: HeartBeatMsgView,
    pub heartbeat_transfer: TransmissionView,
    pub request: ListMsgView,
    pub request_transfer: TransmissionView,
}

impl View for Application {
    type V = ApplicationView;

    open spec fn view(&self) -> ApplicationView {
        ApplicationView {
            heartbeat: self.heartbeat@,
            heartbeat_transfer: self.heartbeat_transfer@,
            request: self.request@,
            request_transfer: self.request_transfer@,
        }
    }
}

/// What applying from `me` to the seed at position `r` sends: none when no
/// seed stands there; otherwise an alive heartbeat and a request carrying
/// the local member list, both from `me` to the member the seed stands for,
/// both transferred to the seed's address (see `spec_seed_address`).
pub open spec fn spec_apply_by_seed_at(me: NodeView, seeds: Seq<SeedNodeView>, list: Seq<NodeView>, r: int) -> Option<
    ApplicationView,
> {
    match spec_pick_seed(seeds, r) {
        Some(seed) => Some(
            ApplicationView {
                heartbeat: HeartBeatMsgView { src: me, des: seed_member(seed), is_alive: true },
                heartbeat_transfer: TransmissionView {
                    ip: spec_seed_address(list, seed),
                    payload: PayloadView::HeartBeat(true),
                },
                request: ListMsgView { src: me, des: seed_member(seed), is_request: true, list },
                request_transfer: TransmissionView {
                    ip: spec_seed_address(list, seed),
                    payload: PayloadView::List(list),
                },
            },
        ),
        None => None,
    }
}

/// The view of an optional application.
pub open spec fn view_apply(t: Option<Application>) -> Option<ApplicationView> {
    match t {
        Some(a) => Some(a@),
        None => None,
    }
}

impl Seed_Node {
    /// The seed's configured address and port, as `address:port`.
    pub fn address(&self) -> (a: String)
        ensures
            a@ == self@.ip + seq![':'] + self@.port,
    {
        let mut a = self.Ip.clone();
        a.append(":");
        proof {
            reveal_strlit(":");
        }
        a.append(self.Port.as_str());
        assert(a@ =~= self@.ip + seq![':'] + self@.port);
        a
    }
}

/// The transfer to a seed: the one the member list gives, if any, or else
/// `payload` to the seed's configured address.
fn to_seed(t: Option<Transmission>, seed: &Seed_Node, payload: Payload) -> (r: Transmission)
    ensures
        r@ == (match t {
            Some(t) => t@,
            None => TransmissionView { ip: seed@.ip + seq![':'] + seed@.port, payload: payload@ },
        }),
{
    match t {
        Some(t) => t,
        None => Transmission { ip: seed.address(), payload },
    }
}

/// Applies to the seed at position `r` to join the cluster: sends it an
/// alive heartbeat and a list request.
pub fn apply_by_seed_at(self_node: &Node, seeds: &Vec<Seed_Node>, list: &Vec<Node>, r: usize) -> (t: Option<Application>)
    ensures
        view_apply(t) == spec_apply_by_seed_at(self_node@, view_seeds(seeds@), view_nodes(list@), r as int),
{
    if r < seeds.len() {
        let seed = &seeds[r];
        let random_target = seed.to_node();
        let mut alive_add = HeartBeat_msg::new(self_node.duplicate());
        let mut listrequest_add = List_msg::new(self_node.duplicate());
        let a = alive_add.send(list, &random_target, true);
        let b = listrequest_add.send(list, &random_target, true);
        let a = to_seed(a, seed, Payload::HeartBeat(true));
        let b = to_seed(b, seed, Payload::List(copy_nodes(list)));
        Some(Application { heartbeat: alive_add, heartbeat_transfer: a, request: listrequest_add, request_transfer: b })
    } else {
        None
    }
}

/// Applies to a seed drawn at random from the configured seeds: that seed
/// gets an alive heartbeat and a list request, whatever the member list
/// holds. The seed list must not be empty.
pub fn ApplyBySeed(self_node: &Node, seeds: &Vec<Seed_Node>, list: &Vec<Node>) -> (t: Application)
    requires
        seeds.len() >= 1,
    ensures
        exists|r: int|
            0 <= r < seeds.len() && Some(t@) == #[trigger] spec_apply_by_seed_at(
                self_node@,
                view_seeds(seeds@),
                view_nodes(list@),
                r,
            ),
{
    let r = random_index(0, seeds.len());
    match apply_by_seed_at(self_node, seeds, list, r) {
        Some(t) => t,
        None => vstd::pervasive::unreached(),
    }
}

/// The transfer that asking the member at position `r` for its list asks
/// for: none when no member stands there; otherwise a request carrying the
/// local member list, to the address the list holds for that member.
pub open spec fn spec_send_at(list: Seq<NodeView>, r: int) -> Option<TransmissionView> {
    match spec_pick(list, r) {
        Some(target) => spec_transmission(list, target.id, PayloadView::List(list)),
        None => None,
    }
}

/// The list request that `me` sends to the member at position `r`.
pub open spec fn spec_request_msg(me: NodeView, list: Seq<NodeView>, r: int) -> ListMsgView {
    ListMsgView { src: me, des: list[r], is_request: true, list }
}

/// Sends a list request from the local member to the member at position
/// `r`: the message sent and its transfer, or `None` when no member stands
/// there.
pub fn send_at(self_node: &Node, list: &Vec<Node>, r: usize) -> (t: Option<(List_msg, Transmission)>)
    ensures
        match t {
            Some((m, tr)) => spec_send_at(view_nodes(list@), r as int) == Some(tr@)
                && m@ == spec_request_msg(self_node@, view_nodes(list@), r as int),
            None => spec_send_at(view_nodes(list@), r as int) is None,
        },
{
    match pick_target(list, r) {
        Some(des) => {
            let mut find_msg = List_msg::new(self_node.duplicate());
            match find_msg.send(list, &des, true) {
                Some(tr) => Some((find_msg, tr)),
                None => None,
            }
        },
        None => None,
    }
}

/// Sends a list request from the local member to a member drawn at random
/// as `random_filter` draws it: one list message, from the local member to
/// that member, a request, carrying the local list, and its transfer to the
/// address of a member of the list. The list must not be empty.
pub fn Send(self_node: &Node, list: &Vec<Node>) -> (t: (List_msg, Transmission))
    requires
        list.len() >= 1,
    ensures
        exists|r: int|
            0 <= r < list.len() && Some(t.1@) == #[trigger] spec_send_at(view_nodes(list@), r)
                && t.0@ == spec_request_msg(self_node@, view_nodes(list@), r),
{
    let r = random_index(0, list.len());
    proof {
        lemma_picked_member_requested(view_nodes(list@), r as int);
    }
    match send_at(self_node, list, r) {
        Some(t) => t,
        None => vstd::pervasive::unreached(),
    }
}

/// A member picked from the list can always be asked for its list: whenever
/// a member stands at the drawn position, the request yields a transfer, of
/// the local list, to the address of a member with the picked identity.
pub proof fn lemma_picked_member_requested(list: Seq<NodeView>, r: int)
    ensures
        spec_pick(list, r) is Some ==> spec_send_at(list, r) is Some,
        spec_send_at(list, r) matches Some(t) ==> t.payload == PayloadView::List(list)
            && exists|i: int| 0 <= i < list.len() && (#[trigger] list[i]).id == list[r].id && list[i].ip == t.ip,
{
    if spec_pick(list, r) is Some {
        assert(has_id(list, list[r].id));
        lemma_lookup_finds_member(list, list[r].id);
    }
}

/// Applying to a seed that stands at the drawn position always sends both
/// messages, both to the same address; when the member list does not hold
/// the seed yet, that is the seed's configured address and port.
pub proof fn lemma_apply_reaches_seed(me: NodeView, seeds: Seq<SeedNodeView>, list: Seq<NodeView>, r: int)
    requires
        0 <= r < seeds.len(),
    ensures
        spec_apply_by_seed_at(me, seeds, list, r) matches Some(a) && a.heartbeat_transfer.ip
            == a.request_transfer.ip && (!has_id(list, seeds[r].id) ==> a.heartbeat_transfer.ip
            == seeds[r].ip + seq![':'] + seeds[r].port),
{
    lemma_lookup_finds_member(list, seeds[r].id);
}

/// Applying to a seed that the member list holds sends both messages from
/// `me` to that seed, the heartbeat alive and the request carrying the
/// list, and transfers both to the address the list holds for the seed: the
/// address of the last member with the seed's identity. Applying to a seed
/// the list does not hold transfers both to the seed's configured
/// `address:port`.
pub proof fn lemma_apply_targets_seed(me: NodeView, seeds: Seq<SeedNodeView>, list: Seq<NodeView>, r: int)
    requires
        0 <= r < seeds.len(),
    ensures
        spec_apply_by_seed_at(me, seeds, list, r) matches Some(a) && {
            &&& a.heartbeat.src == me && a.heartbeat.des.id == seeds[r].id && a.heartbeat.is_alive
            &&& a.request.src == me && a.request.des.id == seeds[r].id && a.request.is_request
            &&& a.request.list == list
            &&& a.heartbeat_transfer.payload == PayloadView::HeartBeat(true)
            &&& a.request_transfer.payload == PayloadView::List(list)
            &&& a.request_transfer.ip == a.heartbeat_transfer.ip
            &&& (exists|i: int| 0 <= i < list.len() && (#[trigger] list[i]).id == seeds[r].id) ==> exists|i: int|
                0 <= i < list.len() && (#[trigger] list[i]).id == seeds[r].id && list[i].ip
                    == a.heartbeat_transfer.ip && forall|j: int|
                    i < j < list.len() ==> (#[trigger] list[j]).id != seeds[r].id
            &&& (forall|i: int| 0 <= i < list.len() ==> (#[trigger] list[i]).id != seeds[r].id)
                ==> a.heartbeat_transfer.ip == seeds[r].ip + seq![':'] + seeds[r].port
        },
{
    lemma_lookup_is_last_match(list, seeds[r].id);
}

} // verus!

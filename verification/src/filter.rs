//! Choosing where a message goes: the address of a member, and a member
//! picked at random.

use vstd::prelude::*;
use crate::storage::{Node, NodeView, view_nodes, spec_mark_dead, mark_dead_one};
use crate::msg::{Gossip_msg, GossipMsgView, Transmission, TransmissionView, PayloadView, view_opt_transmission, spec_transmission};

verus! {

/// The address under which `id` is listed: the address of the last member
/// with that identity, or `None` when no member has it.
pub open spec fn spec_lookup_ip(nodes: Seq<NodeView>, id: Seq<char>) -> Option<Seq<char>>
    decreases nodes.len(),
{
    if nodes.len() == 0 {
        None
    } else if nodes.last().id == id {
        Some(nodes.last().ip)
    } else {
        spec_lookup_ip(nodes.drop_last(), id)
    }
}

/// Whether some member has identity `id`.
pub open spec fn has_id(nodes: Seq<NodeView>, id: Seq<char>) -> bool {
    exists|i: int| 0 <= i < nodes.len() && (#[trigger] nodes[i]).id == id
}

/// Whether some member of the list has identity `id`.
pub fn contains_id(list: &Vec<Node>, id: &String) -> (r: bool)
    ensures
        r == has_id(view_nodes(list@), id@),
{
    let mut i: usize = 0;
    while i < list.len()
        invariant
            i <= list.len(),
            forall|j: int| 0 <= j < i ==> (#[trigger] view_nodes(list@)[j]).id != id@,
        decreases list.len() - i,
    {
        if list[i].id().eq(id) {
            assert(view_nodes(list@)[i as int].id == id@);
            return true;
        }
        i = i + 1;
    }
    false
}

/// The view of an optional string.
pub open spec fn view_opt_string(s: Option<String>) -> Option<Seq<char>> {
    match s {
        Some(s) => Some(s@),
        None => None,
    }
}

/// The view of an optional member.
pub open spec fn view_opt_node(n: Option<Node>) -> Option<NodeView> {
    match n {
        Some(n) => Some(n@),
        None => None,
    }
}

/// The address to send to when the destination is `target`: the address
/// that the member list holds for the target's identity. `None` when no
/// member has that identity (the caller reports "No Matched Node!").
pub fn filter(list: &Vec<Node>, target: &Node) -> (ip: Option<String>)
    ensures
        view_opt_string(ip) == spec_lookup_ip(view_nodes(list@), target@.id),
{
    let mut found: Option<String> = None;
    let mut i: usize = 0;
    while i < list.len()
        invariant
            i <= list.len(),
            view_opt_string(found) == spec_lookup_ip(view_nodes(list@.take(i as int)), target@.id),
        decreases list.len() - i,
    {
        let ghost before = view_nodes(list@.take(i as int));
        let item = &list[i];
        let ghost after = view_nodes(list@.take(i + 1));
        assert(after.drop_last() =~= before);
        assert(after.last() == item@);
        if item.id().eq(target.id()) {
            found = Some(item.ip().clone());
        }
        i = i + 1;
    }
    assert(list@.take(i as int) =~= list@);
    found
}

/// A number drawn uniformly from `low` up to, and not including, `high`.
/// Calls `rand::Rng::gen_range` on `rand::thread_rng()`, which documents a
/// result in `[low, high)` and a panic when `low >= high`; which number comes
/// out is left open.
#[verifier::external_body]
pub(crate) fn random_index(low: usize, high: usize) -> (r: usize)
    requires
        low < high,
    ensures
        low <= r < high,
{
    rand::Rng::gen_range(&mut rand::thread_rng(), low, high)
}

/// The member at position `r` of the list, or `None` past its end.
pub open spec fn spec_pick(nodes: Seq<NodeView>, r: int) -> Option<NodeView> {
    if 0 <= r < nodes.len() {
        Some(nodes[r])
    } else {
        None
    }
}

/// The member at position `r`, or `None` when `r` is past the end of the
/// list.
pub fn pick_target(list: &Vec<Node>, r: usize) -> (t: Option<Node>)
    ensures
        view_opt_node(t) == spec_pick(view_nodes(list@), r as int),
{
    if r < list.len() {
        Some(list[r].duplicate())
    } else {
        None
    }
}

/// A random destination: a member of the list, at a position drawn at
/// random. The list must not be empty (the draw has no range then).
pub fn random_filter(list: &Vec<Node>) -> (t: Node)
    requires
        list.len() >= 1,
    ensures
        exists|r: int| 0 <= r < list.len() && t@ == #[trigger] view_nodes(list@)[r],
{
    let r = random_index(0, list.len());
    let t = list[r].duplicate();
    assert(t@ == view_nodes(list@)[r as int]);
    t
}

/// An address is found exactly when some member has the identity, and the
/// address found is that of a member with that identity.
pub proof fn lemma_lookup_finds_member(nodes: Seq<NodeView>, id: Seq<char>)
    ensures
        spec_lookup_ip(nodes, id) is Some <==> has_id(nodes, id),
        spec_lookup_ip(nodes, id) matches Some(ip) ==> exists|i: int|
            0 <= i < nodes.len() && (#[trigger] nodes[i]).id == id && nodes[i].ip == ip,
    decreases nodes.len(),
{
    if nodes.len() > 0 {
        let rest = nodes.drop_last();
        lemma_lookup_finds_member(rest, id);
        if has_id(nodes, id) && nodes.last().id != id {
            let i = choose|i: int| 0 <= i < nodes.len() && (#[trigger] nodes[i]).id == id;
            assert(rest[i] == nodes[i]);
        }
        if has_id(rest, id) {
            let i = choose|i: int| 0 <= i < rest.len() && (#[trigger] rest[i]).id == id;
            assert(nodes[i] == rest[i]);
        }
        if spec_lookup_ip(rest, id) is Some && nodes.last().id != id {
            let i = choose|i: int|
                0 <= i < rest.len() && (#[trigger] rest[i]).id == id && rest[i].ip
                    == spec_lookup_ip(rest, id)->0;
            assert(nodes[i] == rest[i]);
        }
    }
}

/// The address found for an identity is that of the last member with the
/// identity: some member has the identity and that address, and no later
/// member has the identity; and nothing is found exactly when no member has
/// the identity.
pub proof fn lemma_lookup_is_last_match(nodes: Seq<NodeView>, id: Seq<char>)
    ensures
        spec_lookup_ip(nodes, id) matches Some(ip) ==> exists|i: int|
            0 <= i < nodes.len() && (#[trigger] nodes[i]).id == id && nodes[i].ip == ip && forall|j: int|
                i < j < nodes.len() ==> (#[trigger] nodes[j]).id != id,
        spec_lookup_ip(nodes, id) is None <==> forall|i: int| 0 <= i < nodes.len() ==> (#[trigger] nodes[i]).id != id,
    decreases nodes.len(),
{
    if nodes.len() > 0 {
        let rest = nodes.drop_last();
        let n = nodes.len() - 1;
        lemma_lookup_is_last_match(rest, id);
        if nodes.last().id == id {
            assert(nodes[n].id == id);
        } else {
            if spec_lookup_ip(rest, id) is Some {
                let ip = spec_lookup_ip(rest, id)->0;
                let i = choose|i: int|
                    0 <= i < rest.len() && (#[trigger] rest[i]).id == id && rest[i].ip == ip && forall|j: int|
                        i < j < rest.len() ==> (#[trigger] rest[j]).id != id;
                assert(nodes[i] == rest[i]);
                assert forall|j: int| i < j < nodes.len() implies (#[trigger] nodes[j]).id != id by {
                    if j < n {
                        assert(nodes[j] == rest[j]);
                    }
                }
            } else {
                assert forall|i: int| 0 <= i < nodes.len() implies (#[trigger] nodes[i]).id != id by {
                    if i < n {
                        assert(nodes[i] == rest[i]);
                    }
                }
            }
        }
    }
}

/// Marking a member dead changes no address: every identity resolves to the
/// same address before and after.
pub proof fn lemma_mark_dead_keeps_addresses(nodes: Seq<NodeView>, dead: Seq<char>, id: Seq<char>)
    ensures
        spec_lookup_ip(spec_mark_dead(nodes, dead), id) == spec_lookup_ip(nodes, id),
    decreases nodes.len(),
{
    if nodes.len() > 0 {
        let marked = spec_mark_dead(nodes, dead);
        assert(marked.drop_last() =~= spec_mark_dead(nodes.drop_last(), dead));
        assert(marked.last() == mark_dead_one(nodes.last(), dead));
        lemma_mark_dead_keeps_addresses(nodes.drop_last(), dead, id);
    }
}

/// The transfer that spreading `data` asks for when the draw is `r`: none
/// when no member stands at position `r`; otherwise the gossip data to the
/// address the list holds for that member's identity.
pub open spec fn spec_spread_at(list: Seq<NodeView>, data: Seq<char>, r: int) -> Option<TransmissionView> {
    match spec_pick(list, r) {
        Some(target) => spec_transmission(list, target.id, PayloadView::Gossip(data)),
        None => None,
    }
}

/// The gossip message that spreading `data` from `me` to the member at
/// position `r` sends.
pub open spec fn spec_spread_msg(me: NodeView, list: Seq<NodeView>, data: Seq<char>, r: int) -> GossipMsgView {
    GossipMsgView { src: me, des: list[r], data }
}

/// Spreads `data` from the local member to the member at position `r`: the
/// message sent and its transfer, or `None` when no member stands there.
pub fn spread_at(self_node: &Node, list: &Vec<Node>, data: String, r: usize) -> (t: Option<(Gossip_msg, Transmission)>)
    ensures
        match t {
            Some((m, tr)) => spec_spread_at(view_nodes(list@), data@, r as int) == Some(tr@)
                && m@ == spec_spread_msg(self_node@, view_nodes(list@), data@, r as int),
            None => spec_spread_at(view_nodes(list@), data@, r as int) is None,
        },
{
    match pick_target(list, r) {
        Some(target) => {
            let mut version_msg = Gossip_msg::new(self_node.duplicate());
            match version_msg.send(list, &target, data) {
                Some(tr) => Some((version_msg, tr)),
                None => None,
            }
        },
        None => None,
    }
}

/// Spreads `data` from the local member to a member drawn at random as
/// `random_filter` draws it: one gossip message, from the local member to
/// that member, carrying the data, and its transfer to the address of a
/// member of the list. The list must not be empty.
pub fn Spread(self_node: &Node, list: &Vec<Node>, data: String) -> (t: (Gossip_msg, Transmission))
    requires
        list.len() >= 1,
    ensures
        exists|r: int|
            0 <= r < list.len() && Some(t.1@) == #[trigger] spec_spread_at(view_nodes(list@), data@, r)
                && t.0@ == spec_spread_msg(self_node@, view_nodes(list@), data@, r),
{
    let r = random_index(0, list.len());
    proof {
        lemma_picked_member_reachable(view_nodes(list@), data@, r as int);
    }
    match spread_at(self_node, list, data, r) {
        Some(t) => t,
        None => vstd::pervasive::unreached(),
    }
}

/// Sends `data` from the local member to the member `des` alone: the gossip
/// message, and its transfer to the address the list holds for `des`, if
/// any.
pub fn Gossip_Send(self_node: &Node, list: &Vec<Node>, des: &Node, data: String) -> (t: (Gossip_msg, Option<Transmission>))
    ensures
        t.0@ == (GossipMsgView { src: self_node@, des: des@, data: data@ }),
        view_opt_transmission(t.1) == spec_transmission(view_nodes(list@), des@.id, PayloadView::Gossip(data@)),
{
    let mut version_msg = Gossip_msg::new(self_node.duplicate());
    let tr = version_msg.send(list, des, data);
    (version_msg, tr)
}

/// A member picked from the list can always be reached: whenever a member
/// stands at the drawn position, spreading to it yields a transfer; and
/// every transfer that spreading yields carries the data to the address of
/// a member of the list with the picked member's identity.
pub proof fn lemma_picked_member_reachable(list: Seq<NodeView>, data: Seq<char>, r: int)
    ensures
        spec_pick(list, r) is Some ==> spec_spread_at(list, data, r) is Some,
        spec_spread_at(list, data, r) matches Some(t) ==> t.payload == PayloadView::Gossip(data)
            && exists|i: int| 0 <= i < list.len() && (#[trigger] list[i]).id == list[r].id && list[i].ip == t.ip,
{
    if spec_pick(list, r) is Some {
        assert(has_id(list, list[r].id));
        lemma_lookup_finds_member(list, list[r].id);
    }
}

} // verus!

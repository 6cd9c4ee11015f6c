//! Cluster members and the rule that marks a member dead.

use vstd::prelude::*;

verus! {

/// What a cluster member is, as plain sequences of characters.
pub struct NodeView {
    pub id: Seq<char>,
    pub ip: Seq<char>,
    pub timestamp: Seq<char>,
}

/// One member of the cluster: its identity, its address and the time it was
/// last seen alive.
#[derive(Debug)]
pub struct Node {
    id: String,
    ip: String,
    timestamp: String,
}

impl View for Node {
    type V = NodeView;

    closed spec fn view(&self) -> NodeView {
        NodeView { id: self.id@, ip: self.ip@, timestamp: self.timestamp@ }
    }
}

/// The views of a sequence of members.
pub open spec fn view_nodes(nodes: Seq<Node>) -> Seq<NodeView> {
    nodes.map_values(|n: Node| n@)
}

/// The timestamp that a dead member carries.
pub open spec fn dead_mark() -> Seq<char> {
    seq!['*', '*', '*']
}

impl Node {
    /// Makes a member from its identity, address and timestamp.
    pub fn new(id: &str, ip: &str, timestamp: &str) -> (n: Node)
        ensures
            n@ == (NodeView { id: id@, ip: ip@, timestamp: timestamp@ }),
    {
        Node {
            id: String::from_str(id),
            ip: String::from_str(ip),
            timestamp: String::from_str(timestamp),
        }
    }

    /// The member's identity.
    pub fn id(&self) -> (r: &String)
        ensures
            r@ == self@.id,
    {
        &self.id
    }

    /// The member's address.
    pub fn ip(&self) -> (r: &String)
        ensures
            r@ == self@.ip,
    {
        &self.ip
    }

    /// The time the member was last seen alive, or `***` once it is dead.
    pub fn timestamp(&self) -> (r: &String)
        ensures
            r@ == self@.timestamp,
    {
        &self.timestamp
    }

    /// A copy of this member.
    pub fn duplicate(&self) -> (n: Node)
        ensures
            n@ == self@,
    {
        Node { id: self.id.clone(), ip: self.ip.clone(), timestamp: self.timestamp.clone() }
    }
}

/// A copy of every member of a list, in order.
pub fn copy_nodes(nodes: &Vec<Node>) -> (r: Vec<Node>)
    ensures
        view_nodes(r@) == view_nodes(nodes@),
{
    let mut r: Vec<Node> = Vec::new();
    let mut i: usize = 0;
    while i < nodes.len()
        invariant
            i <= nodes.len(),
            r@.len() == i,
            forall|j: int| 0 <= j < i ==> #[trigger] r@[j]@ == nodes@[j]@,
        decreases nodes.len() - i,
    {
        r.push(nodes[i].duplicate());
        i = i + 1;
    }
    assert(view_nodes(r@) =~= view_nodes(nodes@));
    r
}

/// One member as it is after the member whose identity is `id` has been
/// found dead: that member's timestamp becomes `***`, any other member is
/// left as it is.
pub open spec fn mark_dead_one(n: NodeView, id: Seq<char>) -> NodeView {
    if n.id == id {
        NodeView { id: n.id, ip: n.ip, timestamp: dead_mark() }
    } else {
        n
    }
}

/// A member list after the member whose identity is `id` has been found dead.
pub open spec fn spec_mark_dead(nodes: Seq<NodeView>, id: Seq<char>) -> Seq<NodeView> {
    nodes.map_values(|n: NodeView| mark_dead_one(n, id))
}

/// The timestamp `***` as a string.
fn dead_timestamp() -> (s: String)
    ensures
        s@ == dead_mark(),
{
    let s = String::from_str("***");
    proof {
        reveal_strlit("***");
    }
    assert(s@ =~= dead_mark());
    s
}

/// The member list with every member that has the identity of `dead` marked
/// dead: its timestamp becomes `***`; its identity and address, and every
/// other member, stay as they are.
pub fn mark_dead(nodes: &Vec<Node>, dead: &Node) -> (r: Vec<Node>)
    ensures
        view_nodes(r@) == spec_mark_dead(view_nodes(nodes@), dead@.id),
{
    let mut r: Vec<Node> = Vec::new();
    let mut i: usize = 0;
    while i < nodes.len()
        invariant
            i <= nodes.len(),
            r@.len() == i,
            forall|j: int| 0 <= j < i ==> #[trigger] r@[j]@ == mark_dead_one(nodes@[j]@, dead@.id),
        decreases nodes.len() - i,
    {
        let node = &nodes[i];
        if node.id == dead.id {
            r.push(Node { id: node.id.clone(), ip: node.ip.clone(), timestamp: dead_timestamp() });
        } else {
            r.push(node.duplicate());
        }
        i = i + 1;
    }
    assert(view_nodes(r@) =~= spec_mark_dead(view_nodes(nodes@), dead@.id));
    r
}

/// Marking a member dead keeps the list's length, and every member's
/// identity and address; the members with that identity carry `***` and
/// every other member is unchanged.
pub proof fn lemma_mark_dead_keeps_members(nodes: Seq<NodeView>, id: Seq<char>)
    ensures
        spec_mark_dead(nodes, id).len() == nodes.len(),
        forall|i: int|
            0 <= i < nodes.len() ==> {
                &&& (#[trigger] spec_mark_dead(nodes, id)[i]).id == nodes[i].id
                &&& spec_mark_dead(nodes, id)[i].ip == nodes[i].ip
                &&& nodes[i].id == id ==> spec_mark_dead(nodes, id)[i].timestamp == dead_mark()
                &&& nodes[i].id != id ==> spec_mark_dead(nodes, id)[i] == nodes[i]
            },
{
}

/// Marking the same member dead twice gives the list that marking it once
/// gives.
pub proof fn lemma_mark_dead_idempotent(nodes: Seq<NodeView>, id: Seq<char>)
    ensures
        spec_mark_dead(spec_mark_dead(nodes, id), id) == spec_mark_dead(nodes, id),
{
    assert(spec_mark_dead(spec_mark_dead(nodes, id), id) =~= spec_mark_dead(nodes, id));
}

/// Marking two members dead gives the same list in either order.
pub proof fn lemma_mark_dead_commutes(nodes: Seq<NodeView>, a: Seq<char>, b: Seq<char>)
    ensures
        spec_mark_dead(spec_mark_dead(nodes, a), b) == spec_mark_dead(spec_mark_dead(nodes, b), a),
{
    assert(spec_mark_dead(spec_mark_dead(nodes, a), b) =~= spec_mark_dead(spec_mark_dead(nodes, b), a));
}

} // verus!

use std::collections::HashMap;
use vstd::prelude::*;

use crate::host::{host_run, HostModel};
use crate::ids::{BridgeError, CallbackId, Command, CommandBatch, EventMessage, ListenerId, NodeId, SessionId, Status};
use crate::mirror::{
    lemma_add_listener_replays, lemma_batch_replays, lemma_create_replays, lemma_destroy_node_replays,
    lemma_insert_replays, lemma_remove_listener_replays, lemma_remove_replays,
    lemma_set_attribute_replays, replays, session_shape,
};
use crate::text::{decimal_spec, message_with, owned, str_eq};
use crate::tree::{
    NodeKind, NodeState, anc_at, is_ancestor_or_self, is_element, is_raw_text, is_text_element, insert_allowed, insert_index, added_node, attached, detached, lemma_anc_at, attach_depth, detach_depth, lemma_anc_shift, lemma_anc_none_after, lemma_subtree_down, lemma_subtree_up, lemma_leaf_sub, lemma_attach, lemma_detach, under_root, attached_below_root, is_subtree_set, parent_ok, children_ok, depth_ok, tree_ok, copy_children,
};

verus! {

broadcast use vstd::std_specs::hash::group_hash_axioms;

/// One registered event listener.
#[derive(Debug)]
pub struct ListenerEntry {
    pub id: u32,
    pub node: u32,
    pub callback: CallbackId,
    pub name: String,
}

/// The abstract state of a session.
pub struct SessionModel {
    pub id: u32,
    pub root: u32,
    pub next_node: u32,
    pub next_listener: u32,
    pub sequence: u32,
    pub nodes: Map<u32, NodeState<u32>>,
    pub listeners: Seq<ListenerEntry>,
    pub pending: Seq<Command>,
    pub destroyed: bool,
}

/// The message of a call on a destroyed session.
pub open spec fn destroyed_message(id: u32) -> Seq<char> {
    "session "@ + decimal_spec(id as nat) + " is destroyed"@
}

/// The message of a call from a thread other than the session's owner.
pub open spec fn wrong_thread_message(id: u32) -> Seq<char> {
    "session "@ + decimal_spec(id as nat) + " was called from a non-owner thread"@
}

/// The message of a node that the session does not hold.
pub open spec fn stale_node_message(node: u32) -> Seq<char> {
    "invalid or stale node "@ + decimal_spec(node as nat)
}

/// The message of a listener that the session does not hold.
pub open spec fn stale_listener_message(listener: u32) -> Seq<char> {
    "invalid or stale listener "@ + decimal_spec(listener as nat)
}

/// The refusal of a node that the session does not hold.
fn stale_node(node: u32) -> (r: BridgeError)
    ensures
        r.status == Status::InvalidOwnership,
        r.message@ == stale_node_message(node),
{
    let m = message_with("invalid or stale node ", node as u64, "");
    proof {
        reveal_strlit("");
        assert(m@ =~= stale_node_message(node));
    }
    BridgeError::new_owned(Status::InvalidOwnership, m)
}

/// The refusal of a listener that the session does not hold.
fn stale_listener(listener: u32) -> (r: BridgeError)
    ensures
        r.status == Status::InvalidListener,
        r.message@ == stale_listener_message(listener),
{
    let m = message_with("invalid or stale listener ", listener as u64, "");
    proof {
        reveal_strlit("");
        assert(m@ =~= stale_listener_message(listener));
    }
    BridgeError::new_owned(Status::InvalidListener, m)
}

/// A session owns one node tree, validates every mutation against it and
/// records the accepted mutations as commands for the next batch.
pub struct Session {
    id: SessionId,
    root: NodeId,
    next_node: u32,
    next_listener: u32,
    sequence: u32,
    nodes: HashMap<u32, NodeState<u32>>,
    listeners: Vec<ListenerEntry>,
    pending: Vec<Command>,
    destroyed: bool,
    depth: Ghost<Map<u32, nat>>,
    bound: Ghost<nat>,
}

// ---------------------------------------------------------------------
// Tree model
// ---------------------------------------------------------------------

/// The result of allocating a node identifier: the identifier, if any, and the
/// next counter value.  The root's identifier is skipped.
pub open spec fn alloc_node_result(next: u32, root: u32) -> (Option<u32>, u32) {
    if next == u32::MAX {
        (None, next)
    } else if next != root {
        (Some(next), (next + 1) as u32)
    } else if next + 1 == u32::MAX {
        (None, (next + 1) as u32)
    } else {
        (Some((next + 1) as u32), (next + 2) as u32)
    }
}

pub open spec fn listener_position(ls: Seq<ListenerEntry>, id: u32) -> int {
    choose|i: int| 0 <= i < ls.len() && ls[i].id == id
}

pub open spec fn has_listener(ls: Seq<ListenerEntry>, id: u32) -> bool {
    exists|i: int| 0 <= i < ls.len() && ls[i].id == id
}

/// Some listener is registered on `node` under `name`.
pub open spec fn has_named_listener(ls: Seq<ListenerEntry>, node: u32, name: Seq<char>) -> bool {
    exists|i: int| 0 <= i < ls.len() && ls[i].node == node && ls[i].name@ == name
}

/// Some listener is registered on `node`.
pub open spec fn node_has_listener(ls: Seq<ListenerEntry>, node: u32) -> bool {
    exists|i: int| 0 <= i < ls.len() && ls[i].node == node
}

/// `c` is the command that creates element `node` with tag `tag`.
pub open spec fn is_create_element(c: Command, node: u32, tag: Seq<char>) -> bool {
    c matches Command::CreateElement { node: n, tag: t } && n@ == node && t@ == tag
}

pub open spec fn is_create_raw_text(c: Command, node: u32, text: Seq<char>) -> bool {
    c matches Command::CreateRawText { node: n, text: t } && n@ == node && t@ == text
}

pub open spec fn is_attach(c: Command, parent: u32, child: u32, reference: Option<u32>) -> bool {
    match reference {
        Some(r) => c matches Command::InsertElementBefore { parent: p, child: ch, reference: rf }
            && p@ == parent && ch@ == child && rf@ == r,
        None => c matches Command::AppendElement { parent: p, child: ch } && p@ == parent && ch@
            == child,
    }
}

pub open spec fn is_remove(c: Command, parent: u32, child: u32) -> bool {
    c matches Command::RemoveElement { parent: p, child: ch } && p@ == parent && ch@ == child
}

pub open spec fn is_destroy(c: Command, node: u32) -> bool {
    c matches Command::DestroyNode { node: n } && n@ == node
}

pub open spec fn is_set_attribute(
    c: Command,
    node: u32,
    name: Seq<char>,
    value: Option<Seq<char>>,
) -> bool {
    c matches Command::SetAttribute { node: n, name: nm, value: v } && n@ == node && nm@ == name
        && match value {
        Some(s) => v matches Some(vs) && vs@ == s,
        None => v is None,
    }
}

pub open spec fn is_add_listener(
    c: Command,
    node: u32,
    listener: u32,
    callback: u32,
    name: Seq<char>,
) -> bool {
    c matches Command::AddEventListener { node: n, listener: l, callback: cb, name: nm } && n@
        == node && l@ == listener && cb@ == callback && nm@ == name
}

pub open spec fn is_remove_listener(
    c: Command,
    node: u32,
    listener: u32,
    callback: u32,
    name: Seq<char>,
) -> bool {
    c matches Command::RemoveEventListener { node: n, listener: l, callback: cb, name: nm } && n@
        == node && l@ == listener && cb@ == callback && nm@ == name
}

/// The model is unchanged apart from the node counter.
pub open spec fn same_but_next_node(a: SessionModel, b: SessionModel) -> bool {
    &&& a.id == b.id
    &&& a.root == b.root
    &&& a.next_listener == b.next_listener
    &&& a.sequence == b.sequence
    &&& a.nodes == b.nodes
    &&& a.listeners == b.listeners
    &&& a.pending == b.pending
    &&& a.destroyed == b.destroyed
}

pub open spec fn opt_node(n: Option<NodeId>) -> Option<u32> {
    match n {
        Some(id) => Some(id@),
        None => None,
    }
}

/// Every condition under which `destroy_node` removes `node`.
pub open spec fn destroy_allowed(m: SessionModel, node: u32) -> bool {
    &&& m.nodes.contains_key(node)
    &&& node != m.root
    &&& m.nodes[node].parent is None
    &&& m.nodes[node].children@.len() == 0
    &&& !node_has_listener(m.listeners, node)
}

/// What tearing down a live session `m` gives: the session `f` and the
/// batch or error `r`.
pub open spec fn destroy_outcome(m: SessionModel, f: SessionModel, r: Result<CommandBatch, BridgeError>) -> bool {
    &&& f.destroyed
    &&& f.nodes.dom() == m.nodes.dom().difference(
        attached_below_root(m.nodes, m.root),
    )
    &&& f.nodes[m.root].kind == m.nodes[m.root].kind
    &&& f.nodes[m.root].parent is None
    &&& f.nodes[m.root].children@.len() == 0
    &&& forall|x: u32| #[trigger]
        f.nodes.contains_key(x) && x != m.root ==> f.nodes[x]
            == m.nodes[x]
    &&& forall|e: ListenerEntry| #[trigger]
        f.listeners.contains(e) <==> m.listeners.contains(e)
            && !under_root(m.nodes, m.root, e.node)
    &&& f.pending.len() == 0
    &&& f.id == m.id
    &&& f.root == m.root
    &&& f.next_node == m.next_node
    &&& f.next_listener == m.next_listener
    &&& m.sequence == u32::MAX ==> f.sequence == u32::MAX && (r matches Err(
        e,
    ) && e.status == Status::ResourceExhausted && e.message@ == "batch sequence is exhausted"@)
    &&& m.sequence != u32::MAX ==> f.sequence == m.sequence + 1 && (
    r matches Ok(b) && b.session@ == m.id && b.sequence == m.sequence
        && m.pending.is_prefix_of(b.commands@) && b.final_commit)
}

/// The refusal of a `destroy_node` that `destroy_allowed` rules out, named
/// after the first rule it breaks.
pub open spec fn destroy_refusal(m: SessionModel, node: u32) -> Seq<char> {
    if !m.nodes.contains_key(node) {
        stale_node_message(node)
    } else if node == m.root || m.nodes[node].parent is Some || m.nodes[node].children@.len() != 0 {
        "node must be detached and childless before destruction"@
    } else {
        "node still owns event listeners"@
    }
}

/// The refusal of a `remove` of a child that is not attached to `parent`.
pub open spec fn remove_refusal(m: SessionModel, child: u32) -> Seq<char> {
    if !m.nodes.contains_key(child) {
        stale_node_message(child)
    } else {
        "child is not attached to the specified parent"@
    }
}

/// The refusal of an `insert_before` that `insert_allowed` rules out, named
/// after the first rule it breaks.
pub open spec fn insert_refusal(
    nodes: Map<u32, NodeState<u32>>,
    root: u32,
    parent: u32,
    child: u32,
    reference: Option<u32>,
) -> Seq<char> {
    if !nodes.contains_key(parent) {
        stale_node_message(parent)
    } else if !nodes.contains_key(child) {
        stale_node_message(child)
    } else if is_raw_text(nodes, parent) {
        "raw text cannot own children"@
    } else if child == root || nodes[child].parent is Some {
        "node "@ + decimal_spec(child as nat) + " is not detached"@
    } else if is_raw_text(nodes, child) && !is_text_element(nodes, parent) {
        "raw text must be attached to a text element"@
    } else if is_ancestor_or_self(nodes, child, parent) {
        "insertion would create a cycle"@
    } else {
        "reference is not a direct child"@
    }
}

/// `new` is `old` followed by one command that satisfies `last`.
pub open spec fn pushed_one(old: Seq<Command>, new: Seq<Command>) -> bool {
    new.len() == old.len() + 1 && new.subrange(0, old.len() as int) == old
}

// ---------------------------------------------------------------------
// Well-formedness
// ---------------------------------------------------------------------

pub open spec fn listeners_ok(
    ls: Seq<ListenerEntry>,
    nodes: Map<u32, NodeState<u32>>,
    next_listener: u32,
) -> bool {
    &&& forall|i: int, j: int| 0 <= i < j < ls.len() ==> ls[i].id < ls[j].id
    &&& forall|i: int|
        0 <= i < ls.len() ==> (#[trigger] ls[i]).id != 0 && ls[i].id < next_listener
            && is_element(nodes, ls[i].node)
}

impl View for Session {
    type V = SessionModel;

    closed spec fn view(&self) -> SessionModel {
        SessionModel {
            id: self.id@,
            root: self.root@,
            next_node: self.next_node,
            next_listener: self.next_listener,
            sequence: self.sequence,
            nodes: self.nodes@,
            listeners: self.listeners@,
            pending: self.pending@,
            destroyed: self.destroyed,
        }
    }
}

impl Session {
    /// The session invariant: a well-formed tree, identifier counters ahead of
    /// every identifier in use, and listeners on live elements.
    pub closed spec fn wf(&self) -> bool {
        let nodes = self.nodes@;
        &&& self.root@ != 0
        &&& self.next_node >= 1
        &&& self.next_listener >= 1
        &&& forall|k: u32|
            #[trigger] nodes.contains_key(k) ==> k != 0 && (k == self.root@ || k < self.next_node)
        &&& tree_ok(nodes, self.root@, self.depth@, self.bound@)
        &&& listeners_ok(self.listeners@, nodes, self.next_listener)
    }

    /// A well-formed session has the shape that replaying it on a host
    /// relies on.
    pub proof fn lemma_shape(&self)
        requires
            self.wf(),
        ensures
            session_shape(self@),
    {
    }

    /// Opens a session whose tree holds only `root`.
    pub fn create(id: SessionId, root: NodeId) -> (r: Result<Session, BridgeError>)
        ensures
            r matches Ok(s) && s.wf() && s@.id == id@ && s@.root == root@ && s@.next_node == (
            if root@ == 1 {
                2u32
            } else {
                1u32
            }) && s@.next_listener == 1 && s@.sequence == 1 && s@.nodes.dom() == set![root@]
                && s@.nodes[root@].kind is Root && s@.nodes[root@].parent is None
                && s@.nodes[root@].children@.len() == 0 && s@.listeners.len() == 0
                && s@.pending.len() == 0 && !s@.destroyed,
    {
        let root_value = root.get();
        let _ = id.get();
        let mut next_node: u32 = 1;
        if root_value == next_node {
            next_node = next_node + 1;
        }
        let mut nodes: HashMap<u32, NodeState<u32>> = HashMap::new();
        nodes.insert(
            root.get(),
            NodeState { kind: NodeKind::Root, parent: None, children: Vec::new() },
        );
        let ghost depth0: Map<u32, nat> = Map::empty().insert(root@, 0nat);
        let s = Session {
            id,
            root,
            next_node,
            next_listener: 1,
            sequence: 1,
            nodes,
            listeners: Vec::new(),
            pending: Vec::new(),
            destroyed: false,
            depth: Ghost(depth0),
            bound: Ghost(1),
        };
        proof {
            broadcast use vstd::map::group_map_axioms;
            assert(s.nodes@.dom() =~= set![root@]);
            assert forall|k: u32| #[trigger] s.nodes@.contains_key(k) implies children_ok(
                s.nodes@,
                k,
            ) by {
                assert(k == root@);
            }
            assert forall|k: u32| #[trigger] s.nodes@.contains_key(k) implies depth_ok(
                s.nodes@,
                s.depth@,
                s.bound@,
                k,
            ) && parent_ok(s.nodes@, k) && (k == s.root@ || k < s.next_node) && k != 0 by {
                assert(k == root@);
            }
            assert(s.listeners@.len() == 0);
            assert(tree_ok(s.nodes@, s.root@, s.depth@, s.bound@));
            assert(listeners_ok(s.listeners@, s.nodes@, s.next_listener));
            assert(s.wf());
        }
        Ok(s)
    }

    pub fn id(&self) -> (r: SessionId)
        ensures
            r@ == self@.id,
    {
        self.id
    }

    pub fn root(&self) -> (r: NodeId)
        ensures
            r@ == self@.root,
    {
        self.root
    }

    /// A destroyed session refuses every call with `InvalidSession`.
    pub fn ensure_live(&self) -> (r: Result<(), BridgeError>)
        ensures
            r is Ok <==> !self@.destroyed,
            r matches Err(e) ==> e.status == Status::InvalidSession && e.message@ == destroyed_message(
                self@.id,
            ),
    {
        if self.destroyed {
            Err(
                BridgeError::new_owned(
                    Status::InvalidSession,
                    message_with("session ", self.id.get() as u64, " is destroyed"),
                ),
            )
        } else {
            Ok(())
        }
    }

    /// Checks a call from the thread with token `caller` on a session created
    /// by the thread with token `owner`: a destroyed session refuses with
    /// `InvalidSession`, a call from another thread with `WrongThread`.
    pub fn ensure_owner(&self, owner: u64, caller: u64) -> (r: Result<(), BridgeError>)
        ensures
            self@.destroyed ==> (r matches Err(e) && e.status == Status::InvalidSession
                && e.message@ == destroyed_message(self@.id)),
            !self@.destroyed && owner != caller ==> (r matches Err(e) && e.status
                == Status::WrongThread && e.message@ == wrong_thread_message(self@.id)),
            !self@.destroyed && owner == caller ==> r is Ok,
    {
        match self.ensure_live() {
            Ok(()) => {},
            Err(e) => return Err(e),
        }
        if owner != caller {
            return Err(
                BridgeError::new_owned(
                    Status::WrongThread,
                    message_with("session ", self.id.get() as u64, " was called from a non-owner thread"),
                ),
            );
        }
        Ok(())
    }

    fn allocate_node(&mut self) -> (r: Result<u32, BridgeError>)
        requires
            old(self).wf(),
        ensures
            final(self).wf(),
            alloc_node_result(old(self)@.next_node, old(self)@.root).0 matches Some(n) ==> r == Ok::<u32, BridgeError>(n),
            alloc_node_result(old(self)@.next_node, old(self)@.root).0 is None ==> (r matches Err(e) && e.status == Status::ResourceExhausted && e.message@ == "node ID space is exhausted"@),
            final(self)@.next_node == alloc_node_result(old(self)@.next_node, old(self)@.root).1,
            final(self)@.nodes == old(self)@.nodes,
            final(self)@.listeners == old(self)@.listeners,
            final(self)@.pending == old(self)@.pending,
            final(self)@.destroyed == old(self)@.destroyed,
            final(self)@.id == old(self)@.id,
            final(self)@.root == old(self)@.root,
            final(self)@.sequence == old(self)@.sequence,
            final(self)@.next_listener == old(self)@.next_listener,
            final(self).depth@ == old(self).depth@,
            final(self).bound@ == old(self).bound@,
    {
        let first = self.next_node;
        if first == u32::MAX {
            return Err(BridgeError::new(Status::ResourceExhausted, "node ID space is exhausted"));
        }
        self.next_node = first + 1;
        if first != self.root.get() {
            return Ok(first);
        }
        let second = self.next_node;
        if second == u32::MAX {
            return Err(BridgeError::new(Status::ResourceExhausted, "node ID space is exhausted"));
        }
        self.next_node = second + 1;
        Ok(second)
    }

    /// Creates a detached element node with tag `tag`.
    pub fn create_element(&mut self, tag: &str) -> (r: Result<NodeId, BridgeError>)
        requires
            old(self).wf(),
        ensures
            forall|h0: HostModel| #[trigger] replays(h0, old(self)@) ==> replays(h0, final(self)@),
            final(self).wf(),
            old(self)@.next_node <= final(self)@.next_node,
            r matches Ok(id) ==> old(self)@.next_node <= id@ < final(self)@.next_node && id@ != old(self)@.root,
            old(self)@.destroyed ==> final(self)@ == old(self)@ && (r matches Err(e)
                && e.status == Status::InvalidSession && e.message@ == destroyed_message(old(self)@.id)),
            !old(self)@.destroyed && tag@.len() == 0 ==> final(self)@ == old(self)@ && (r matches Err(
                e,
            ) && e.status == Status::InvalidArgument && e.message@ == "element tag must not be empty"@),
            !old(self)@.destroyed && tag@.len() != 0 ==> ({
                let (a, next) = alloc_node_result(old(self)@.next_node, old(self)@.root);
                &&& final(self)@.next_node == next
                &&& a is None ==> same_but_next_node(final(self)@, old(self)@) && (r matches Err(e)
                    && e.status == Status::ResourceExhausted && e.message@ == "node ID space is exhausted"@)
                &&& a matches Some(n) ==> {
                    &&& r matches Ok(id) && id@ == n
                    &&& added_node(old(self)@.nodes, final(self)@.nodes, n)
                    &&& final(self)@.nodes[n].kind matches NodeKind::Element(t) && t@ == tag@
                    &&& pushed_one(old(self)@.pending, final(self)@.pending)
                    &&& is_create_element(final(self)@.pending.last(), n, tag@)
                    &&& final(self)@.listeners == old(self)@.listeners
                    &&& !final(self)@.destroyed
                    &&& final(self)@.id == old(self)@.id
                    &&& final(self)@.root == old(self)@.root
                    &&& final(self)@.sequence == old(self)@.sequence
                    &&& final(self)@.next_listener == old(self)@.next_listener
                }
            }),
    {
        match self.ensure_live() {
            Ok(()) => {},
            Err(e) => return Err(e),
        }
        if tag.is_empty() {
            return Err(
                BridgeError::new(Status::InvalidArgument, "element tag must not be empty"),
            );
        }
        let node = match self.allocate_node() {
            Ok(n) => n,
            Err(e) => return Err(e),
        };
        self.insert_fresh_node(node, NodeKind::Element(owned(tag)));
        let id = NodeId::from_raw(node);
        self.pending.push(Command::CreateElement { node: id, tag: owned(tag) });
        proof {
            assert(self.pending@.subrange(0, old(self)@.pending.len() as int) =~= old(self)@.pending);
            assert forall|h0: HostModel| replays(h0, old(self)@) implies replays(h0, self@) by {
                lemma_create_replays(h0, old(self)@, self@, node);
            }
        }
        Ok(id)
    }

    /// Creates a detached raw-text node holding `text`.
    pub fn create_text(&mut self, text: &str) -> (r: Result<NodeId, BridgeError>)
        requires
            old(self).wf(),
        ensures
            forall|h0: HostModel| #[trigger] replays(h0, old(self)@) ==> replays(h0, final(self)@),
            final(self).wf(),
            old(self)@.next_node <= final(self)@.next_node,
            r matches Ok(id) ==> old(self)@.next_node <= id@ < final(self)@.next_node && id@ != old(self)@.root,
            old(self)@.destroyed ==> final(self)@ == old(self)@ && (r matches Err(e)
                && e.status == Status::InvalidSession && e.message@ == destroyed_message(old(self)@.id)),
            !old(self)@.destroyed ==> ({
                let (a, next) = alloc_node_result(old(self)@.next_node, old(self)@.root);
                &&& final(self)@.next_node == next
                &&& a is None ==> same_but_next_node(final(self)@, old(self)@) && (r matches Err(e)
                    && e.status == Status::ResourceExhausted && e.message@ == "node ID space is exhausted"@)
                &&& a matches Some(n) ==> {
                    &&& r matches Ok(id) && id@ == n
                    &&& added_node(old(self)@.nodes, final(self)@.nodes, n)
                    &&& final(self)@.nodes[n].kind matches NodeKind::RawText(t) && t@ == text@
                    &&& pushed_one(old(self)@.pending, final(self)@.pending)
                    &&& is_create_raw_text(final(self)@.pending.last(), n, text@)
                    &&& final(self)@.listeners == old(self)@.listeners
                    &&& !final(self)@.destroyed
                    &&& final(self)@.id == old(self)@.id
                    &&& final(self)@.root == old(self)@.root
                    &&& final(self)@.sequence == old(self)@.sequence
                    &&& final(self)@.next_listener == old(self)@.next_listener
                }
            }),
    {
        match self.ensure_live() {
            Ok(()) => {},
            Err(e) => return Err(e),
        }
        let node = match self.allocate_node() {
            Ok(n) => n,
            Err(e) => return Err(e),
        };
        self.insert_fresh_node(node, NodeKind::RawText(owned(text)));
        let id = NodeId::from_raw(node);
        self.pending.push(Command::CreateRawText { node: id, text: owned(text) });
        proof {
            assert(self.pending@.subrange(0, old(self)@.pending.len() as int) =~= old(self)@.pending);
            assert forall|h0: HostModel| replays(h0, old(self)@) implies replays(h0, self@) by {
                lemma_create_replays(h0, old(self)@, self@, node);
            }
        }
        Ok(id)
    }

    /// Hands out the pending commands as the next batch.  Past the last
    /// sequence number the pending commands are dropped and the call fails.
    fn take_pending_batch(&mut self) -> (r: Result<CommandBatch, BridgeError>)
        requires
            old(self).wf(),
        ensures
            final(self).wf(),
            final(self)@.pending.len() == 0,
            final(self)@.nodes == old(self)@.nodes,
            final(self)@.listeners == old(self)@.listeners,
            final(self)@.destroyed == old(self)@.destroyed,
            final(self)@.id == old(self)@.id,
            final(self)@.root == old(self)@.root,
            final(self)@.next_node == old(self)@.next_node,
            final(self)@.next_listener == old(self)@.next_listener,
            old(self)@.sequence == u32::MAX ==> final(self)@.sequence == u32::MAX && (r matches Err(
                e,
            ) && e.status == Status::ResourceExhausted && e.message@ == "batch sequence is exhausted"@),
            old(self)@.sequence != u32::MAX ==> final(self)@.sequence == old(self)@.sequence + 1 && (
            r matches Ok(b) && b.session@ == old(self)@.id && b.sequence == old(self)@.sequence
                && b.commands@ == old(self)@.pending && b.final_commit),
    {
        let mut commands: Vec<Command> = Vec::new();
        std::mem::swap(&mut commands, &mut self.pending);
        let batch = CommandBatch {
            session: self.id,
            sequence: self.sequence,
            commands,
            final_commit: true,
        };
        if self.sequence == u32::MAX {
            return Err(BridgeError::new(Status::ResourceExhausted, "batch sequence is exhausted"));
        }
        self.sequence = self.sequence + 1;
        Ok(batch)
    }

    /// Hands out everything recorded since the previous batch.
    pub fn take_batch(&mut self) -> (r: Result<CommandBatch, BridgeError>)
        requires
            old(self).wf(),
        ensures
            forall|h0: HostModel| #[trigger] replays(h0, old(self)@) ==> (r matches Ok(b) ==> (host_run(h0, b.commands@) matches Ok(h) && replays(h, final(self)@))),
            final(self).wf(),
            old(self)@.next_node <= final(self)@.next_node,
            old(self)@.destroyed ==> final(self)@ == old(self)@ && (r matches Err(e)
                && e.status == Status::InvalidSession && e.message@ == destroyed_message(old(self)@.id)),
            !old(self)@.destroyed ==> {
                &&& final(self)@.pending.len() == 0
                &&& final(self)@.nodes == old(self)@.nodes
                &&& final(self)@.listeners == old(self)@.listeners
                &&& final(self)@.destroyed == old(self)@.destroyed
                &&& final(self)@.id == old(self)@.id
                &&& final(self)@.root == old(self)@.root
                &&& final(self)@.next_node == old(self)@.next_node
                &&& final(self)@.next_listener == old(self)@.next_listener
                &&& old(self)@.sequence == u32::MAX ==> final(self)@.sequence == u32::MAX && (
                r matches Err(e) && e.status == Status::ResourceExhausted && e.message@
                    == "batch sequence is exhausted"@)
                &&& old(self)@.sequence != u32::MAX ==> final(self)@.sequence == old(self)@.sequence
                    + 1 && (r matches Ok(b) && b.session@ == old(self)@.id && b.sequence == old(self)@.sequence && b.commands@ == old(self)@.pending && b.final_commit)
            },
    {
        match self.ensure_live() {
            Ok(()) => {},
            Err(e) => return Err(e),
        }
        let r = self.take_pending_batch();
        proof {
            assert forall|h0: HostModel| replays(h0, old(self)@) implies (r matches Ok(b) ==> (host_run(
                h0,
                b.commands@,
            ) matches Ok(h) && replays(h, self@))) by {
                lemma_batch_replays(h0, old(self)@, self@);
            }
        }
        r
    }

    /// Drops everything recorded since the previous batch.
    pub fn discard_pending(&mut self) -> (r: Result<(), BridgeError>)
        requires
            old(self).wf(),
        ensures
            final(self).wf(),
            old(self)@.next_node <= final(self)@.next_node,
            old(self)@.destroyed ==> final(self)@ == old(self)@ && (r matches Err(e)
                && e.status == Status::InvalidSession && e.message@ == destroyed_message(old(self)@.id)),
            !old(self)@.destroyed ==> r is Ok && final(self)@ == (SessionModel {
                pending: Seq::empty(),
                ..old(self)@
            }),
    {
        match self.ensure_live() {
            Ok(()) => {},
            Err(e) => return Err(e),
        }
        self.pending.clear();
        proof {
            assert(self@.pending =~= Seq::<Command>::empty());
        }
        Ok(())
    }

    /// Attaches the detached node `child` to `parent`, before `reference` when
    /// given and as the last child otherwise.
    pub fn insert_before(&mut self, parent: NodeId, child: NodeId, reference: Option<NodeId>) -> (r:
        Result<(), BridgeError>)
        requires
            old(self).wf(),
        ensures
            forall|h0: HostModel| #[trigger] replays(h0, old(self)@) ==> replays(h0, final(self)@),
            final(self).wf(),
            old(self)@.next_node <= final(self)@.next_node,
            old(self)@.destroyed ==> final(self)@ == old(self)@ && (r matches Err(e)
                && e.status == Status::InvalidSession && e.message@ == destroyed_message(old(self)@.id)),
            !old(self)@.destroyed && !insert_allowed(
                old(self)@.nodes,
                old(self)@.root,
                parent@,
                child@,
                opt_node(reference),
            ) ==> final(self)@ == old(self)@ && (r matches Err(e) && e.status
                == Status::InvalidOwnership && e.message@ == insert_refusal(
                old(self)@.nodes,
                old(self)@.root,
                parent@,
                child@,
                opt_node(reference),
            )),
            !old(self)@.destroyed && insert_allowed(
                old(self)@.nodes,
                old(self)@.root,
                parent@,
                child@,
                opt_node(reference),
            ) ==> {
                &&& r is Ok
                &&& attached(
                    old(self)@.nodes,
                    final(self)@.nodes,
                    parent@,
                    child@,
                    insert_index(old(self)@.nodes, parent@, opt_node(reference)),
                )
                &&& pushed_one(old(self)@.pending, final(self)@.pending)
                &&& is_attach(final(self)@.pending.last(), parent@, child@, opt_node(reference))
                &&& final(self)@ == (SessionModel {
                    nodes: final(self)@.nodes,
                    pending: final(self)@.pending,
                    ..old(self)@
                })
            },
    {
        match self.ensure_live() {
            Ok(()) => {},
            Err(e) => return Err(e),
        }
        proof {
            self.lemma_shape();
        }
        let ghost nodes0 = self.nodes@;
        let p = parent.get();
        let c = child.get();
        let parent_state = match self.nodes.get(&p) {
            Some(st) => st,
            None => {
                return Err(stale_node(p));
            },
        };
        let child_state = match self.nodes.get(&c) {
            Some(st) => st,
            None => {
                return Err(stale_node(c));
            },
        };
        if let NodeKind::RawText(_) = parent_state.kind {
            return Err(
                BridgeError::new(Status::InvalidOwnership, "raw text cannot own children"),
            );
        }
        if c == self.root.get() || child_state.parent.is_some() {
            return Err(BridgeError::new_owned(Status::InvalidOwnership, message_with("node ", c as u64, " is not detached")));
        }
        if let NodeKind::RawText(_) = child_state.kind {
            let parent_is_text = match &parent_state.kind {
                NodeKind::Element(tag) => str_eq(tag.as_str(), "text"),
                _ => false,
            };
            if !parent_is_text {
                return Err(
                    BridgeError::new(
                        Status::InvalidOwnership,
                        "raw text must be attached to a text element",
                    ),
                );
            }
        }
        // Walk up from the parent: reaching the child would close a cycle.

        let mut ancestor: Option<u32> = Some(p);
        let ghost mut steps: nat = 0;
        loop
            invariant
                self.wf(),
                self.nodes@ == nodes0,
                self@ == old(self)@,
                p == parent@,
                c == child@,
                !self@.destroyed,
                nodes0.contains_key(p),
                nodes0.contains_key(c),
                !is_raw_text(nodes0, p),
                c != old(self)@.root && nodes0[c].parent is None,
                is_raw_text(nodes0, c) ==> is_text_element(nodes0, p),
                ancestor == anc_at(nodes0, p, steps),
                ancestor matches Some(a) ==> nodes0.contains_key(a),
                forall|j: nat| j < steps ==> anc_at(nodes0, p, j) != Some(c),
            ensures
                self.wf(),
                self.nodes@ == nodes0,
                self@ == old(self)@,
                !self@.destroyed,
                nodes0.contains_key(c),
                !is_raw_text(nodes0, p),
                c != old(self)@.root && nodes0[c].parent is None,
                is_raw_text(nodes0, c) ==> is_text_element(nodes0, p),
                ancestor is None,
                anc_at(nodes0, p, steps) is None,
                forall|j: nat| j < steps ==> anc_at(nodes0, p, j) != Some(c),
            decreases
                (match ancestor {
                    Some(a) => self.depth@[a] + 1,
                    None => 0,
                }),
        {
            proof {
                lemma_anc_at(nodes0, self.root@, self.depth@, self.bound@, p, steps);
            }
            match ancestor {
                None => break,
                Some(n) => {
                    if n == c {
                        proof {
                            assert(anc_at(nodes0, p, steps) == Some(c));
                            assert(is_ancestor_or_self(nodes0, c, p));
                            assert(nodes0 == old(self)@.nodes);
                            assert(!insert_allowed(nodes0, self.root@, p, c, opt_node(reference)));
                        }
                        return Err(
                            BridgeError::new(
                                Status::InvalidOwnership,
                                "insertion would create a cycle",
                            ),
                        );
                    }
                    let next = match self.nodes.get(&n) {
                        Some(st) => st.parent,
                        None => {
                            return Err(
                                stale_node(n),
                            );
                        },
                    };
                    proof {
                        assert(depth_ok(nodes0, self.depth@, self.bound@, n));
                        assert(parent_ok(nodes0, n));
                        assert(anc_at(nodes0, p, steps + 1) == anc_at(nodes0, n, 1)) by {
                            lemma_anc_shift(nodes0, p, n, steps);
                        }
                        match nodes0[n].parent {
                            Some(pp) => {
                                assert(anc_at(nodes0, pp, 0) == Some(pp));
                            },
                            None => {},
                        }
                        assert(anc_at(nodes0, n, 1) == next);
                        steps = steps + 1;
                    }
                    ancestor = next;
                },
            }
        }
        proof {
            assert(!is_ancestor_or_self(nodes0, c, p)) by {
                if is_ancestor_or_self(nodes0, c, p) {
                    let k = choose|k: nat| anc_at(nodes0, p, k) == Some(c);
                    if k >= steps {
                        lemma_anc_none_after(nodes0, p, steps, k);
                    }
                }
            }
        }
        let parent_state = self.nodes.get(&p).unwrap();
        let index: usize = match reference {
            Some(rf) => {
                let rv = rf.get();
                let mut i: usize = 0;
                let n = parent_state.children.len();
                while i < n
                    invariant
                        n == parent_state.children@.len(),
                        i <= n,
                        forall|j: int| 0 <= j < i ==> parent_state.children@[j] != rv,
                    ensures
                        i <= n,
                        i < n ==> parent_state.children@[i as int] == rv,
                        forall|j: int| 0 <= j < i ==> parent_state.children@[j] != rv,
                    decreases n - i,
                {
                    if parent_state.children[i] == rv {
                        break;
                    }
                    i = i + 1;
                }
                if i == n {
                    return Err(
                        BridgeError::new(
                            Status::InvalidOwnership,
                            "reference is not a direct child",
                        ),
                    );
                }
                proof {
                    assert(children_ok(nodes0, p));
                    let cs = nodes0[p].children@;
                    assert(cs[i as int] == rv);
                    assert(cs.contains(rv));
                    let w = cs.index_of(rv);
                    assert(cs[w] == rv);
                    assert(w == i as int);
                }
                i
            },
            None => parent_state.children.len(),
        };
        proof {
            assert(insert_allowed(nodes0, self.root@, p, c, opt_node(reference)));
        }
        let mut parent_state = self.nodes.remove(&p).unwrap();
        parent_state.children.insert(index, c);
        self.nodes.insert(p, parent_state);
        let mut child_state = self.nodes.remove(&c).unwrap();
        child_state.parent = Some(p);
        self.nodes.insert(c, child_state);
        proof {
            assert(attached(nodes0, self.nodes@, p, c, index as int));
            lemma_attach(
                nodes0,
                self.nodes@,
                self.root@,
                self.depth@,
                self.bound@,
                p,
                c,
                index as int,
            );
        }
        self.depth = Ghost(attach_depth(nodes0, self.depth@, p, c));
        self.bound = Ghost(self.bound@ + self.bound@);
        match reference {
            Some(rf) => self.pending.push(
                Command::InsertElementBefore { parent, child, reference: rf },
            ),
            None => self.pending.push(Command::AppendElement { parent, child }),
        }
        proof {
            assert(self.pending@.subrange(0, old(self)@.pending.len() as int) =~= old(self)@.pending);
            assert forall|k: u32| #[trigger] self.nodes@.contains_key(k) implies k != 0 && (k
                == self.root@ || k < self.next_node) by {
                assert(nodes0.contains_key(k));
            }
            assert forall|i: int| 0 <= i < self.listeners@.len() implies is_element(
                self.nodes@,
                (#[trigger] self.listeners@[i]).node,
            ) by {
                assert(is_element(nodes0, self.listeners@[i].node));
            }
            assert forall|k: u32| #[trigger] self.nodes@.contains_key(k) && k != self.root@ implies !(
            self.nodes@[k].kind is Root) by {
                assert(nodes0.contains_key(k));
            }
            assert forall|h0: HostModel| replays(h0, old(self)@) implies replays(h0, self@) by {
                lemma_insert_replays(h0, old(self)@, self@, p, c, opt_node(reference));
            }
        }
        Ok(())
    }

    /// Detaches `c` from its parent `p` and records the removal.
    fn detach_node(&mut self, p: u32, c: u32)
        requires
            old(self).wf(),
            old(self)@.nodes.contains_key(c),
            old(self)@.nodes[c].parent == Some(p),
        ensures
            final(self).wf(),
            detached(
                old(self)@.nodes,
                final(self)@.nodes,
                p,
                c,
                old(self)@.nodes[p].children@.index_of(c),
            ),
            pushed_one(old(self)@.pending, final(self)@.pending),
            is_remove(final(self)@.pending.last(), p, c),
            final(self)@ == (SessionModel {
                nodes: final(self)@.nodes,
                pending: final(self)@.pending,
                ..old(self)@
            }),
            final(self).depth@ == detach_depth(old(self)@.nodes, old(self).depth@, c),
            final(self).bound@ == old(self).bound@,
    {
        let ghost nodes0 = self.nodes@;
        proof {
            assert(parent_ok(nodes0, c));
            assert(children_ok(nodes0, p));
            assert(depth_ok(nodes0, self.depth@, self.bound@, c));
        }
        let mut parent_state = self.nodes.remove(&p).unwrap();
        let n = parent_state.children.len();
        let mut i: usize = 0;
        while i < n
            invariant
                n == parent_state.children@.len(),
                parent_state.children@ == nodes0[p].children@,
                i <= n,
                nodes0[p].children@.contains(c),
                forall|j: int| 0 <= j < i ==> parent_state.children@[j] != c,
            ensures
                i < n,
                parent_state.children@[i as int] == c,
            decreases n - i,
        {
            if parent_state.children[i] == c {
                break;
            }
            i = i + 1;
        }
        proof {
            let cs = nodes0[p].children@;
            let w = cs.index_of(c);
            assert(cs[w] == c);
            assert(w == i as int);
        }
        parent_state.children.remove(i);
        self.nodes.insert(p, parent_state);
        let mut child_state = self.nodes.remove(&c).unwrap();
        child_state.parent = None;
        self.nodes.insert(c, child_state);
        proof {
            assert(anc_at(nodes0, p, 0) == Some(p));
            assert(detached(nodes0, self.nodes@, p, c, i as int));
            lemma_detach(nodes0, self.nodes@, self.root@, self.depth@, self.bound@, p, c, i as int);
        }
        self.depth = Ghost(detach_depth(nodes0, self.depth@, c));
        self.pending.push(Command::RemoveElement { parent: NodeId::from_raw(p), child: NodeId::from_raw(c) });
        proof {
            assert(self.pending@.subrange(0, old(self)@.pending.len() as int) =~= old(self)@.pending);
            assert forall|k: u32| #[trigger] self.nodes@.contains_key(k) implies k != 0 && (k
                == self.root@ || k < self.next_node) by {
                assert(nodes0.contains_key(k));
            }
            assert forall|i: int| 0 <= i < self.listeners@.len() implies is_element(
                self.nodes@,
                (#[trigger] self.listeners@[i]).node,
            ) by {
                assert(is_element(nodes0, self.listeners@[i].node));
            }
            assert forall|k: u32| #[trigger] self.nodes@.contains_key(k) && k != self.root@ implies !(
            self.nodes@[k].kind is Root) by {
                assert(nodes0.contains_key(k));
            }
        }
    }

    /// Detaches `child` from `parent`.
    pub fn remove(&mut self, parent: NodeId, child: NodeId) -> (r: Result<(), BridgeError>)
        requires
            old(self).wf(),
        ensures
            forall|h0: HostModel| #[trigger] replays(h0, old(self)@) ==> replays(h0, final(self)@),
            final(self).wf(),
            old(self)@.next_node <= final(self)@.next_node,
            old(self)@.destroyed ==> final(self)@ == old(self)@ && (r matches Err(e)
                && e.status == Status::InvalidSession && e.message@ == destroyed_message(old(self)@.id)),
            !old(self)@.destroyed && !(old(self)@.nodes.contains_key(child@) && old(self)@.nodes[child@].parent == Some(parent@)) ==> final(self)@ == old(self)@ && (
            r matches Err(e) && e.status == Status::InvalidOwnership && e.message@ == remove_refusal(
                old(self)@,
                child@,
            )),
            !old(self)@.destroyed && old(self)@.nodes.contains_key(child@) && old(self)@.nodes[child@].parent == Some(parent@) ==> {
                &&& r is Ok
                &&& detached(
                    old(self)@.nodes,
                    final(self)@.nodes,
                    parent@,
                    child@,
                    old(self)@.nodes[parent@].children@.index_of(child@),
                )
                &&& pushed_one(old(self)@.pending, final(self)@.pending)
                &&& is_remove(final(self)@.pending.last(), parent@, child@)
                &&& final(self)@ == (SessionModel {
                    nodes: final(self)@.nodes,
                    pending: final(self)@.pending,
                    ..old(self)@
                })
            },
    {
        match self.ensure_live() {
            Ok(()) => {},
            Err(e) => return Err(e),
        }
        proof {
            self.lemma_shape();
        }
        let p = parent.get();
        let c = child.get();
        let attached_here = match self.nodes.get(&c) {
            Some(st) => st.parent == Some(p),
            None => {
                return Err(stale_node(c));
            },
        };
        if !attached_here {
            return Err(
                BridgeError::new(
                    Status::InvalidOwnership,
                    "child is not attached to the specified parent",
                ),
            );
        }
        self.detach_node(p, c);
        proof {
            assert forall|h0: HostModel| replays(h0, old(self)@) implies replays(h0, self@) by {
                lemma_remove_replays(h0, old(self)@, self@, p, c);
            }
        }
        Ok(())
    }

    /// Whether any listener is registered on `node`.
    fn node_has_listeners(&self, node: u32) -> (r: bool)
        ensures
            r == node_has_listener(self@.listeners, node),
    {
        let n = self.listeners.len();
        let mut i: usize = 0;
        while i < n
            invariant
                n == self.listeners@.len(),
                i <= n,
                forall|j: int| 0 <= j < i ==> self.listeners@[j].node != node,
            decreases n - i,
        {
            if self.listeners[i].node == node {
                return true;
            }
            i = i + 1;
        }
        false
    }

    /// Removes a detached, childless, listener-free node and records it.
    fn destroy_detached(&mut self, node: u32)
        requires
            old(self).wf(),
            old(self)@.nodes.contains_key(node),
            node != old(self)@.root,
            old(self)@.nodes[node].parent is None,
            old(self)@.nodes[node].children@.len() == 0,
            !node_has_listener(old(self)@.listeners, node),
        ensures
            final(self).wf(),
            final(self)@.nodes == old(self)@.nodes.remove(node),
            pushed_one(old(self)@.pending, final(self)@.pending),
            is_destroy(final(self)@.pending.last(), node),
            final(self)@ == (SessionModel {
                nodes: final(self)@.nodes,
                pending: final(self)@.pending,
                ..old(self)@
            }),
            final(self).depth@ == old(self).depth@.remove(node),
            final(self).bound@ == old(self).bound@,
    {
        let ghost nodes0 = self.nodes@;
        let ghost depth0 = self.depth@;
        self.nodes.remove(&node);
        self.depth = Ghost(depth0.remove(node));
        self.pending.push(Command::DestroyNode { node: NodeId::from_raw(node) });
        proof {
            assert(self.pending@.subrange(0, old(self)@.pending.len() as int) =~= old(self)@.pending);
            let nodes = self.nodes@;
            assert forall|k: u32| #[trigger] nodes.contains_key(k) implies parent_ok(nodes, k)
                && children_ok(nodes, k) && depth_ok(nodes, self.depth@, self.bound@, k) && k != 0
                && (k == self.root@ || k < self.next_node) by {
                assert(nodes0.contains_key(k));
                assert(parent_ok(nodes0, k));
                assert(children_ok(nodes0, k));
                assert(depth_ok(nodes0, depth0, self.bound@, k));
                match nodes0[k].parent {
                    Some(p) => {
                        if p == node {
                            assert(nodes0[node].children@.contains(k));
                        }
                    },
                    None => {},
                }
                assert forall|i: int| 0 <= i < nodes[k].children@.len() implies nodes.contains_key(
                    #[trigger] nodes[k].children@[i],
                ) && nodes[nodes[k].children@[i]].parent == Some(k) by {
                    let ch = nodes0[k].children@[i];
                    assert(nodes0[ch].parent == Some(k));
                    assert(ch != node);
                }
            }
            assert forall|i: int| 0 <= i < self.listeners@.len() implies is_element(
                nodes,
                (#[trigger] self.listeners@[i]).node,
            ) by {
                assert(is_element(nodes0, self.listeners@[i].node));
                assert(self.listeners@[i].node != node);
            }
        }
    }

    /// Destroys a node that is detached, childless and has no listeners.
    pub fn destroy_node(&mut self, node: NodeId) -> (r: Result<(), BridgeError>)
        requires
            old(self).wf(),
        ensures
            forall|h0: HostModel| #[trigger] replays(h0, old(self)@) ==> replays(h0, final(self)@),
            final(self).wf(),
            old(self)@.next_node <= final(self)@.next_node,
            old(self)@.destroyed ==> final(self)@ == old(self)@ && (r matches Err(e)
                && e.status == Status::InvalidSession && e.message@ == destroyed_message(old(self)@.id)),
            !old(self)@.destroyed && !destroy_allowed(old(self)@, node@) ==> final(self)@ == old(self)@ && (r matches Err(e) && e.status == Status::InvalidOwnership
                && e.message@ == destroy_refusal(old(self)@, node@)),
            !old(self)@.destroyed && destroy_allowed(old(self)@, node@) ==> {
                &&& r is Ok
                &&& final(self)@.nodes == old(self)@.nodes.remove(node@)
                &&& pushed_one(old(self)@.pending, final(self)@.pending)
                &&& is_destroy(final(self)@.pending.last(), node@)
                &&& final(self)@ == (SessionModel {
                    nodes: final(self)@.nodes,
                    pending: final(self)@.pending,
                    ..old(self)@
                })
            },
    {
        match self.ensure_live() {
            Ok(()) => {},
            Err(e) => return Err(e),
        }
        let n = node.get();
        let free = match self.nodes.get(&n) {
            Some(st) => n != self.root.get() && st.parent.is_none() && st.children.len() == 0,
            None => {
                return Err(stale_node(n));
            },
        };
        if !free {
            return Err(
                BridgeError::new(
                    Status::InvalidOwnership,
                    "node must be detached and childless before destruction",
                ),
            );
        }
        if self.node_has_listeners(n) {
            return Err(
                BridgeError::new(Status::InvalidOwnership, "node still owns event listeners"),
            );
        }
        self.destroy_detached(n);
        proof {
            assert forall|h0: HostModel| replays(h0, old(self)@) implies replays(h0, self@) by {
                lemma_destroy_node_replays(h0, old(self)@, self@, n);
            }
        }
        Ok(())
    }

    /// Records an attribute change on an element; `None` removes the attribute.
    pub fn set_attribute(&mut self, node: NodeId, name: &str, value: Option<&str>) -> (r: Result<
        (),
        BridgeError,
    >)
        requires
            old(self).wf(),
        ensures
            forall|h0: HostModel| #[trigger] replays(h0, old(self)@) ==> replays(h0, final(self)@),
            final(self).wf(),
            old(self)@.next_node <= final(self)@.next_node,
            old(self)@.destroyed ==> final(self)@ == old(self)@ && (r matches Err(e)
                && e.status == Status::InvalidSession && e.message@ == destroyed_message(old(self)@.id)),
            !old(self)@.destroyed && name@.len() == 0 ==> final(self)@ == old(self)@ && (
            r matches Err(e) && e.status == Status::InvalidArgument && e.message@
                == "attributes require an element and a nonempty name"@),
            !old(self)@.destroyed && name@.len() != 0 && !old(self)@.nodes.contains_key(node@)
                ==> final(self)@ == old(self)@ && (r matches Err(e) && e.status
                == Status::InvalidOwnership && e.message@ == stale_node_message(node@)),
            !old(self)@.destroyed && name@.len() != 0 && old(self)@.nodes.contains_key(node@)
                && !is_element(old(self)@.nodes, node@) ==> final(self)@ == old(self)@ && (
            r matches Err(e) && e.status == Status::InvalidArgument && e.message@
                == "attributes require an element and a nonempty name"@),
            !old(self)@.destroyed && name@.len() != 0 && is_element(old(self)@.nodes, node@) ==> {
                &&& r is Ok
                &&& pushed_one(old(self)@.pending, final(self)@.pending)
                &&& is_set_attribute(
                    final(self)@.pending.last(),
                    node@,
                    name@,
                    match value {
                        Some(v) => Some(v@),
                        None => None,
                    },
                )
                &&& final(self)@ == (SessionModel { pending: final(self)@.pending, ..old(self)@ })
            },
    {
        match self.ensure_live() {
            Ok(()) => {},
            Err(e) => return Err(e),
        }
        if name.is_empty() {
            return Err(
                BridgeError::new(
                    Status::InvalidArgument,
                    "attributes require an element and a nonempty name",
                ),
            );
        }
        let element = match self.nodes.get(&node.get()) {
            Some(st) => match st.kind {
                NodeKind::Element(_) => true,
                _ => false,
            },
            None => {
                return Err(stale_node(node.get()));
            },
        };
        if !element {
            return Err(
                BridgeError::new(
                    Status::InvalidArgument,
                    "attributes require an element and a nonempty name",
                ),
            );
        }
        let ghost v: Option<Seq<char>> = match value {
            Some(x) => Some(x@),
            None => None,
        };
        let value = match value {
            Some(v) => Some(owned(v)),
            None => None,
        };
        self.pending.push(Command::SetAttribute { node, name: owned(name), value });
        proof {
            assert(self.pending@.subrange(0, old(self)@.pending.len() as int) =~= old(self)@.pending);
            assert forall|h0: HostModel| replays(h0, old(self)@) implies replays(h0, self@) by {
                lemma_set_attribute_replays(h0, old(self)@, self@, node@, name@, v);
            }
        }
        Ok(())
    }

    /// The position of listener `id`, if it is registered.
    fn find_listener(&self, id: u32) -> (r: Option<usize>)
        requires
            self.wf(),
        ensures
            r is Some <==> has_listener(self@.listeners, id),
            r matches Some(i) ==> i < self@.listeners.len() && self@.listeners[i as int].id == id
                && i == listener_position(self@.listeners, id),
    {
        let n = self.listeners.len();
        let mut i: usize = 0;
        while i < n
            invariant
                self.wf(),
                n == self.listeners@.len(),
                i <= n,
                forall|j: int| 0 <= j < i ==> self.listeners@[j].id != id,
            decreases n - i,
        {
            if self.listeners[i].id == id {
                proof {
                    let ls = self.listeners@;
                    assert(has_listener(ls, id));
                    let w = listener_position(ls, id);
                    if w != i as int {
                        if w < i {
                            assert(ls[w].id < ls[i as int].id);
                        } else {
                            assert(ls[i as int].id < ls[w].id);
                        }
                    }
                }
                return Some(i);
            }
            i = i + 1;
        }
        None
    }

    /// Registers a listener for event `name` on an element.
    pub fn add_event_listener(&mut self, node: NodeId, name: &str, callback: CallbackId) -> (r:
        Result<ListenerId, BridgeError>)
        requires
            old(self).wf(),
        ensures
            forall|h0: HostModel| #[trigger] replays(h0, old(self)@) ==> replays(h0, final(self)@),
            final(self).wf(),
            old(self)@.next_node <= final(self)@.next_node,
            old(self)@.destroyed ==> final(self)@ == old(self)@ && (r matches Err(e)
                && e.status == Status::InvalidSession && e.message@ == destroyed_message(old(self)@.id)),
            !old(self)@.destroyed && name@.len() == 0 ==> final(self)@ == old(self)@ && (
            r matches Err(e) && e.status == Status::InvalidArgument && e.message@
                == "listeners require an element and a nonempty event name"@),
            !old(self)@.destroyed && name@.len() != 0 && !old(self)@.nodes.contains_key(node@)
                ==> final(self)@ == old(self)@ && (r matches Err(e) && e.status
                == Status::InvalidOwnership && e.message@ == stale_node_message(node@)),
            !old(self)@.destroyed && name@.len() != 0 && old(self)@.nodes.contains_key(node@)
                && !is_element(old(self)@.nodes, node@) ==> final(self)@ == old(self)@ && (
            r matches Err(e) && e.status == Status::InvalidArgument && e.message@
                == "listeners require an element and a nonempty event name"@),
            !old(self)@.destroyed && name@.len() != 0 && is_element(old(self)@.nodes, node@)
                && has_named_listener(old(self)@.listeners, node@, name@) ==> final(self)@ == old(self)@ && (r matches Err(e) && e.status == Status::InvalidOwnership
                && e.message@ == "element already has this event listener"@),
            !old(self)@.destroyed && name@.len() != 0 && is_element(old(self)@.nodes, node@)
                && !has_named_listener(old(self)@.listeners, node@, name@) && old(self)@.next_listener == u32::MAX ==> final(self)@ == old(self)@ && (r matches Err(e)
                && e.status == Status::ResourceExhausted && e.message@ == "listener ID space is exhausted"@),
            !old(self)@.destroyed && name@.len() != 0 && is_element(old(self)@.nodes, node@)
                && !has_named_listener(old(self)@.listeners, node@, name@) && old(self)@.next_listener != u32::MAX ==> {
                let id = old(self)@.next_listener;
                &&& r matches Ok(l) && l@ == id
                &&& final(self)@.listeners.len() == old(self)@.listeners.len() + 1
                &&& final(self)@.listeners.drop_last() == old(self)@.listeners
                &&& final(self)@.listeners.last().id == id
                &&& final(self)@.listeners.last().node == node@
                &&& final(self)@.listeners.last().callback == callback
                &&& final(self)@.listeners.last().name@ == name@
                &&& final(self)@.next_listener == id + 1
                &&& pushed_one(old(self)@.pending, final(self)@.pending)
                &&& is_add_listener(final(self)@.pending.last(), node@, id, callback@, name@)
                &&& final(self)@ == (SessionModel {
                    listeners: final(self)@.listeners,
                    next_listener: final(self)@.next_listener,
                    pending: final(self)@.pending,
                    ..old(self)@
                })
            },
    {
        match self.ensure_live() {
            Ok(()) => {},
            Err(e) => return Err(e),
        }
        proof {
            self.lemma_shape();
        }
        if name.is_empty() {
            return Err(
                BridgeError::new(
                    Status::InvalidArgument,
                    "listeners require an element and a nonempty event name",
                ),
            );
        }
        let n = node.get();
        let element = match self.nodes.get(&n) {
            Some(st) => match st.kind {
                NodeKind::Element(_) => true,
                _ => false,
            },
            None => {
                return Err(stale_node(n));
            },
        };
        if !element {
            return Err(
                BridgeError::new(
                    Status::InvalidArgument,
                    "listeners require an element and a nonempty event name",
                ),
            );
        }
        let count = self.listeners.len();
        let mut i: usize = 0;
        #[verifier::loop_isolation(false)]
        while i < count
            invariant
                count == self.listeners@.len(),
                i <= count,
                forall|j: int|
                    0 <= j < i ==> !(self.listeners@[j].node == n && self.listeners@[j].name@
                        == name@),
            decreases count - i,
        {
            if self.listeners[i].node == n && str_eq(self.listeners[i].name.as_str(), name) {
                return Err(
                    BridgeError::new(
                        Status::InvalidOwnership,
                        "element already has this event listener",
                    ),
                );
            }
            i = i + 1;
        }
        let id = self.next_listener;
        if id == u32::MAX {
            return Err(
                BridgeError::new(Status::ResourceExhausted, "listener ID space is exhausted"),
            );
        }
        self.next_listener = id + 1;
        self.listeners.push(ListenerEntry { id, node: n, callback, name: owned(name) });
        let listener = ListenerId::from_raw(id);
        self.pending.push(
            Command::AddEventListener { node, listener, callback, name: owned(name) },
        );
        proof {
            assert(self.pending@.subrange(0, old(self)@.pending.len() as int) =~= old(self)@.pending);
            assert(self.listeners@.drop_last() =~= old(self)@.listeners);
            let ls = self.listeners@;
            assert forall|a: int, b: int| 0 <= a < b < ls.len() implies ls[a].id < ls[b].id by {
                if b == ls.len() - 1 {
                    assert(ls[a] == old(self)@.listeners[a]);
                } else {
                    assert(ls[a] == old(self)@.listeners[a]);
                    assert(ls[b] == old(self)@.listeners[b]);
                }
            }
            assert forall|a: int| 0 <= a < ls.len() implies (#[trigger] ls[a]).id != 0 && ls[a].id
                < self.next_listener && is_element(self.nodes@, ls[a].node) by {
                if a < ls.len() - 1 {
                    assert(ls[a] == old(self)@.listeners[a]);
                }
            }
            assert forall|h0: HostModel| replays(h0, old(self)@) implies replays(h0, self@) by {
                lemma_add_listener_replays(h0, old(self)@, self@);
            }
        }
        Ok(listener)
    }

    /// Removes the listener at position `pos` and records the removal.
    fn remove_listener_at(&mut self, pos: usize)
        requires
            old(self).wf(),
            pos < old(self)@.listeners.len(),
        ensures
            final(self).wf(),
            final(self)@.listeners == old(self)@.listeners.remove(pos as int),
            pushed_one(old(self)@.pending, final(self)@.pending),
            ({
                let e = old(self)@.listeners[pos as int];
                is_remove_listener(final(self)@.pending.last(), e.node, e.id, e.callback@, e.name@)
            }),
            final(self)@ == (SessionModel {
                listeners: final(self)@.listeners,
                pending: final(self)@.pending,
                ..old(self)@
            }),
            final(self).depth@ == old(self).depth@,
            final(self).bound@ == old(self).bound@,
    {
        let entry = self.listeners.remove(pos);
        proof {
            assert(listeners_ok(old(self)@.listeners, self.nodes@, self.next_listener));
            assert(old(self)@.listeners[pos as int] == entry);
            assert(entry.id != 0 && is_element(self.nodes@, entry.node));
            assert(self.nodes@.contains_key(entry.node));
            assert(self.nodes@.contains_key(entry.node) ==> entry.node != 0);
            let ls = self.listeners@;
            let o = old(self)@.listeners;
            assert forall|a: int, b: int| 0 <= a < b < ls.len() implies ls[a].id < ls[b].id by {
                let oa = if a < pos {
                    a
                } else {
                    a + 1
                };
                let ob = if b < pos {
                    b
                } else {
                    b + 1
                };
                assert(ls[a] == o[oa]);
                assert(ls[b] == o[ob]);
            }
            assert forall|a: int| 0 <= a < ls.len() implies (#[trigger] ls[a]).id != 0 && ls[a].id
                < self.next_listener && is_element(self.nodes@, ls[a].node) by {
                let oa = if a < pos {
                    a
                } else {
                    a + 1
                };
                assert(ls[a] == o[oa]);
            }
        }
        self.pending.push(
            Command::RemoveEventListener {
                node: NodeId::from_raw(entry.node),
                listener: ListenerId::from_raw(entry.id),
                callback: entry.callback,
                name: entry.name,
            },
        );
        proof {
            assert(self.pending@.subrange(0, old(self)@.pending.len() as int) =~= old(self)@.pending);
        }
    }

    /// Removes listener `listener`, which must belong to `node`.
    pub fn remove_event_listener(&mut self, node: NodeId, listener: ListenerId) -> (r: Result<
        (),
        BridgeError,
    >)
        requires
            old(self).wf(),
        ensures
            forall|h0: HostModel| #[trigger] replays(h0, old(self)@) ==> replays(h0, final(self)@),
            final(self).wf(),
            old(self)@.next_node <= final(self)@.next_node,
            old(self)@.destroyed ==> final(self)@ == old(self)@ && (r matches Err(e)
                && e.status == Status::InvalidSession && e.message@ == destroyed_message(old(self)@.id)),
            !old(self)@.destroyed && !has_listener(old(self)@.listeners, listener@) ==> final(self)@ == old(self)@ && (r matches Err(e) && e.status == Status::InvalidListener
                && e.message@ == stale_listener_message(listener@)),
            !old(self)@.destroyed && has_listener(old(self)@.listeners, listener@) ==> ({
                let pos = listener_position(old(self)@.listeners, listener@);
                let e = old(self)@.listeners[pos];
                &&& e.node != node@ ==> final(self)@ == old(self)@ && (r matches Err(err)
                    && err.status == Status::InvalidOwnership && err.message@
                    == "listener belongs to a different node"@)
                &&& e.node == node@ ==> {
                    &&& r is Ok
                    &&& final(self)@.listeners == old(self)@.listeners.remove(pos)
                    &&& pushed_one(old(self)@.pending, final(self)@.pending)
                    &&& is_remove_listener(
                        final(self)@.pending.last(),
                        node@,
                        listener@,
                        e.callback@,
                        e.name@,
                    )
                    &&& final(self)@ == (SessionModel {
                        listeners: final(self)@.listeners,
                        pending: final(self)@.pending,
                        ..old(self)@
                    })
                }
            }),
    {
        match self.ensure_live() {
            Ok(()) => {},
            Err(e) => return Err(e),
        }
        proof {
            self.lemma_shape();
        }
        let pos = match self.find_listener(listener.get()) {
            Some(i) => i,
            None => {
                return Err(stale_listener(listener.get()));
            },
        };
        if self.listeners[pos].node != node.get() {
            return Err(
                BridgeError::new(Status::InvalidOwnership, "listener belongs to a different node"),
            );
        }
        self.remove_listener_at(pos);
        proof {
            assert forall|h0: HostModel| replays(h0, old(self)@) implies replays(h0, self@) by {
                lemma_remove_listener_replays(h0, old(self)@, self@, pos as int);
            }
        }
        Ok(())
    }

    /// Builds the message for an event delivered to `listener`; the payload is
    /// passed through untouched.
    pub fn event(&self, listener: ListenerId, content_type: &str, payload: Vec<u8>) -> (r: Result<
        EventMessage,
        BridgeError,
    >)
        requires
            self.wf(),
        ensures
            self@.destroyed ==> (r matches Err(e) && e.status == Status::InvalidSession && e.message@
                == destroyed_message(self@.id)),
            !self@.destroyed && !has_listener(self@.listeners, listener@) ==> (r matches Err(e)
                && e.status == Status::InvalidListener && e.message@ == stale_listener_message(
                listener@,
            )),
            !self@.destroyed && has_listener(self@.listeners, listener@) && content_type@.len()
                == 0 ==> (r matches Err(e) && e.status == Status::InvalidArgument && e.message@
                == "event content type must not be empty"@),
            !self@.destroyed && has_listener(self@.listeners, listener@) && content_type@.len()
                != 0 ==> (r matches Ok(m) && m.session@ == self@.id && m.listener == listener
                && m.callback == self@.listeners[listener_position(
                self@.listeners,
                listener@,
            )].callback && m.content_type@ == content_type@ && m.payload@ == payload@),
    {
        match self.ensure_live() {
            Ok(()) => {},
            Err(e) => return Err(e),
        }
        let pos = match self.find_listener(listener.get()) {
            Some(i) => i,
            None => {
                return Err(stale_listener(listener.get()));
            },
        };
        if content_type.is_empty() {
            return Err(
                BridgeError::new(Status::InvalidArgument, "event content type must not be empty"),
            );
        }
        Ok(
            EventMessage {
                session: self.id,
                listener,
                callback: self.listeners[pos].callback,
                content_type: owned(content_type),
                payload,
            },
        )
    }

    /// Removes every listener registered on `node`, in ascending listener order.
    fn remove_listeners_of(&mut self, node: u32)
        requires
            old(self).wf(),
        ensures
            forall|h0: HostModel| #[trigger] replays(h0, old(self)@) ==> replays(h0, final(self)@),
            final(self).wf(),
            forall|e: ListenerEntry| #[trigger]
                final(self)@.listeners.contains(e) <==> old(self)@.listeners.contains(e) && e.node
                    != node,
            old(self)@.pending.is_prefix_of(final(self)@.pending),
            final(self)@ == (SessionModel {
                listeners: final(self)@.listeners,
                pending: final(self)@.pending,
                ..old(self)@
            }),
            final(self).depth@ == old(self).depth@,
            final(self).bound@ == old(self).bound@,
    {
        loop
            invariant
                forall|h0: HostModel| #[trigger] replays(h0, old(self)@) ==> replays(h0, self@),
                self.wf(),
                forall|e: ListenerEntry| #[trigger]
                    self@.listeners.contains(e) ==> old(self)@.listeners.contains(e),
                forall|e: ListenerEntry|
                    #[trigger] old(self)@.listeners.contains(e) && e.node != node
                        ==> self@.listeners.contains(e),
                old(self)@.pending.is_prefix_of(self@.pending),
                self@ == (SessionModel {
                    listeners: self@.listeners,
                    pending: self@.pending,
                    ..old(self)@
                }),
                self.depth@ == old(self).depth@,
                self.bound@ == old(self).bound@,
            ensures
                forall|h0: HostModel| #[trigger] replays(h0, old(self)@) ==> replays(h0, self@),
                self.wf(),
                forall|e: ListenerEntry| #[trigger]
                    self@.listeners.contains(e) ==> old(self)@.listeners.contains(e) && e.node
                        != node,
                forall|e: ListenerEntry|
                    #[trigger] old(self)@.listeners.contains(e) && e.node != node
                        ==> self@.listeners.contains(e),
                old(self)@.pending.is_prefix_of(self@.pending),
                self@ == (SessionModel {
                    listeners: self@.listeners,
                    pending: self@.pending,
                    ..old(self)@
                }),
                self.depth@ == old(self).depth@,
                self.bound@ == old(self).bound@,
            decreases self@.listeners.len(),
        {
            let n = self.listeners.len();
            let mut i: usize = 0;
            while i < n
                invariant
                    n == self.listeners@.len(),
                    i <= n,
                    forall|j: int| 0 <= j < i ==> self.listeners@[j].node != node,
                ensures
                    i <= n,
                    i < n ==> self.listeners@[i as int].node == node,
                    forall|j: int| 0 <= j < i ==> self.listeners@[j].node != node,
                decreases n - i,
            {
                if self.listeners[i].node == node {
                    break;
                }
                i = i + 1;
            }
            if i == n {
                proof {
                    assert forall|e: ListenerEntry| #[trigger]
                        self@.listeners.contains(e) implies e.node != node by {
                        let j = choose|j: int|
                            0 <= j < self@.listeners.len() && self@.listeners[j] == e;
                    }
                }
                break;
            }
            let ghost before = self@.listeners;
            let ghost pending_before = self@.pending;
            let ghost state_before = self@;
            proof {
                self.lemma_shape();
            }
            self.remove_listener_at(i);
            proof {
                assert forall|h0: HostModel| replays(h0, old(self)@) implies replays(h0, self@) by {
                    lemma_remove_listener_replays(h0, state_before, self@, i as int);
                }
                assert(pending_before.is_prefix_of(self@.pending));
                assert(old(self)@.pending.is_prefix_of(self@.pending)) by {
                    assert(self@.pending.subrange(0, pending_before.len() as int) == pending_before);
                    assert(pending_before.subrange(0, old(self)@.pending.len() as int) == old(self)@.pending);
                    assert(self@.pending.subrange(0, old(self)@.pending.len() as int) =~= old(self)@.pending);
                }
                assert forall|e: ListenerEntry| #[trigger]
                    self@.listeners.contains(e) implies old(self)@.listeners.contains(e) by {
                    let j = choose|j: int|
                        0 <= j < self@.listeners.len() && self@.listeners[j] == e;
                    let oj = if j < i {
                        j
                    } else {
                        j + 1
                    };
                    assert(before[oj] == e);
                    assert(before.contains(e));
                }
                assert forall|e: ListenerEntry|
                    #[trigger] old(self)@.listeners.contains(e) && e.node != node implies self@.listeners.contains(
                    e,
                ) by {
                    assert(before.contains(e));
                    let j = choose|j: int| 0 <= j < before.len() && before[j] == e;
                    assert(j != i);
                    let nj = if j < i {
                        j
                    } else {
                        j - 1
                    };
                    assert(self@.listeners[nj] == e);
                }
            }
        }
    }

    /// Tears down the subtree of `node`, which hangs below `parent`: listeners
    /// first, then the children's subtrees in order, then `node` itself.
    /// Returns the set of removed nodes.
    fn destroy_subtree(&mut self, parent: u32, node: u32) -> (removed: Ghost<Set<u32>>)
        requires
            old(self).wf(),
            !old(self)@.destroyed,
            old(self)@.nodes.contains_key(node),
            old(self)@.nodes[node].parent == Some(parent),
        ensures
            forall|h0: HostModel| #[trigger] replays(h0, old(self)@) ==> replays(h0, final(self)@),
            final(self).wf(),
            is_subtree_set(old(self)@.nodes, node, removed@),
            forall|x: u32| #[trigger]
                removed@.contains(x) ==> old(self).depth@[x] >= old(self).depth@[node],
            final(self)@.nodes.dom() == old(self)@.nodes.dom().difference(removed@),
            final(self)@.nodes[parent].kind == old(self)@.nodes[parent].kind,
            final(self)@.nodes[parent].parent == old(self)@.nodes[parent].parent,
            final(self)@.nodes[parent].children@ == old(self)@.nodes[parent].children@.remove(
                old(self)@.nodes[parent].children@.index_of(node),
            ),
            forall|x: u32| #[trigger]
                final(self)@.nodes.contains_key(x) && x != parent ==> final(self)@.nodes[x] == old(self)@.nodes[x],
            forall|e: ListenerEntry| #[trigger]
                final(self)@.listeners.contains(e) <==> old(self)@.listeners.contains(e)
                    && !removed@.contains(e.node),
            old(self)@.pending.is_prefix_of(final(self)@.pending),
            final(self)@ == (SessionModel {
                nodes: final(self)@.nodes,
                listeners: final(self)@.listeners,
                pending: final(self)@.pending,
                ..old(self)@
            }),
            forall|x: u32| #[trigger]
                final(self)@.nodes.contains_key(x) ==> final(self).depth@[x] == old(self).depth@[x],
            final(self).bound@ == old(self).bound@,
        decreases old(self).bound@ - old(self).depth@[node], 1nat,
    {
        let ghost m0 = self@;
        proof {
            assert(depth_ok(m0.nodes, self.depth@, self.bound@, node));
            assert(parent_ok(m0.nodes, node));
        }
        self.remove_listeners_of(node);
        let ghost m1 = self@;
        let acc = self.destroy_children(node);
        let ghost m2 = self@;
        let ghost depth2 = self.depth@;
        proof {
            assert(depth_ok(m0.nodes, old(self).depth@, self.bound@, node));
            assert(!acc@.contains(parent));
            assert(m2.nodes.contains_key(parent));
            assert(m2.nodes[parent] == m0.nodes[parent]);
        }
        proof {
            self.lemma_shape();
        }
        self.detach_node(parent, node);
        let ghost m3 = self@;
        proof {
            assert forall|h0: HostModel| replays(h0, old(self)@) implies replays(h0, m3) by {
                lemma_remove_replays(h0, m2, m3, parent, node);
            }
        }
        proof {
            assert(m3.nodes[parent].kind == m0.nodes[parent].kind);
            assert(m3.nodes[parent].parent == m0.nodes[parent].parent);
        }
        proof {
            assert(!node_has_listener(self@.listeners, node)) by {
                if node_has_listener(self@.listeners, node) {
                    let j = choose|j: int|
                        0 <= j < self@.listeners.len() && self@.listeners[j].node == node;
                    assert(self@.listeners.contains(self@.listeners[j]));
                }
            }
            assert(node != self@.root) by {
                assert(m0.nodes[self@.root].parent is None);
            }
        }
        self.destroy_detached(node);
        proof {
            assert forall|h0: HostModel| replays(h0, old(self)@) implies replays(h0, self@) by {
                lemma_destroy_node_replays(h0, m3, self@, node);
            }
            let removed = acc@.insert(node);
            assert(self@.nodes.dom() =~= m0.nodes.dom().difference(removed));
            assert forall|x: u32| #[trigger]
                self@.nodes.contains_key(x) implies self.depth@[x] == old(self).depth@[x] by {
                assert(m2.nodes.contains_key(x));
                lemma_leaf_sub(m2.nodes, m2.root, depth2, self.bound@, node, x);
            }
            assert forall|e: ListenerEntry| #[trigger]
                self@.listeners.contains(e) <==> old(self)@.listeners.contains(e)
                    && !removed.contains(e.node) by {
                if old(self)@.listeners.contains(e) && e.node == node {
                    assert(!m1.listeners.contains(e));
                }
            }
            assert(old(self)@.pending.is_prefix_of(self@.pending)) by {
                assert(self@.pending.subrange(0, m1.pending.len() as int) =~= m1.pending);
                assert(m1.pending.subrange(0, m0.pending.len() as int) == m0.pending);
                assert(self@.pending.subrange(0, m0.pending.len() as int) =~= m0.pending);
            }
        }
        Ghost(acc@.insert(node))
    }

    /// Tears down, in order, the subtrees of every child of `node`.  Returns the
    /// set of removed nodes.
    #[verifier::rlimit(40)]
    fn destroy_children(&mut self, node: u32) -> (removed: Ghost<Set<u32>>)
        requires
            old(self).wf(),
            !old(self)@.destroyed,
            old(self)@.nodes.contains_key(node),
        ensures
            forall|h0: HostModel| #[trigger] replays(h0, old(self)@) ==> replays(h0, final(self)@),
            final(self).wf(),
            !removed@.contains(node),
            is_subtree_set(old(self)@.nodes, node, removed@.insert(node)),
            forall|x: u32| #[trigger]
                removed@.contains(x) ==> old(self)@.nodes.contains_key(x) && old(self).depth@[x]
                    > old(self).depth@[node],
            final(self)@.nodes.dom() == old(self)@.nodes.dom().difference(removed@),
            final(self)@.nodes[node].children@.len() == 0,
            final(self)@.nodes[node].kind == old(self)@.nodes[node].kind,
            final(self)@.nodes[node].parent == old(self)@.nodes[node].parent,
            forall|x: u32| #[trigger]
                final(self)@.nodes.contains_key(x) && x != node ==> final(self)@.nodes[x] == old(self)@.nodes[x],
            forall|e: ListenerEntry| #[trigger]
                final(self)@.listeners.contains(e) <==> old(self)@.listeners.contains(e)
                    && !removed@.contains(e.node),
            old(self)@.pending.is_prefix_of(final(self)@.pending),
            final(self)@ == (SessionModel {
                nodes: final(self)@.nodes,
                listeners: final(self)@.listeners,
                pending: final(self)@.pending,
                ..old(self)@
            }),
            forall|x: u32| #[trigger]
                final(self)@.nodes.contains_key(x) ==> final(self).depth@[x] == old(self).depth@[x],
            final(self).bound@ == old(self).bound@,
        decreases old(self).bound@ - old(self).depth@[node], 0nat,
    {
        let ghost m1 = self@;
        let ghost depth1 = self.depth@;
        proof {
            assert(depth_ok(m1.nodes, depth1, self.bound@, node));
        }
        let children: Vec<u32> = copy_children(&self.nodes.get(&node).unwrap().children);
        let ghost cs = children@;
        let n = children.len();
        let mut i: usize = 0;
        let ghost mut acc: Set<u32> = Set::empty();
        proof {
            assert(cs.subrange(0, n as int) =~= cs);
            assert(children_ok(m1.nodes, node));
            assert(m1.pending.subrange(0, m1.pending.len() as int) =~= m1.pending);
        }
        while i < n
            invariant
                forall|h0: HostModel| #[trigger] replays(h0, old(self)@) ==> replays(h0, self@),
                self.wf(),
                !self@.destroyed,
                children@ == cs,
                n == cs.len(),
                i <= n,
                cs == m1.nodes[node].children@,
                cs.no_duplicates(),
                m1.nodes.contains_key(node),
                self@.nodes.dom() == m1.nodes.dom().difference(acc),
                self@.nodes[node].children@ == cs.subrange(i as int, n as int),
                self@.nodes[node].kind == m1.nodes[node].kind,
                self@.nodes[node].parent == m1.nodes[node].parent,
                forall|x: u32| #[trigger]
                    self@.nodes.contains_key(x) && x != node ==> self@.nodes[x] == m1.nodes[x],
                forall|x: u32| #[trigger] acc.contains(x) ==> m1.nodes.contains_key(x) && depth1[x]
                    > depth1[node],
                forall|x: u32|
                    #[trigger] m1.nodes.contains_key(x) && (m1.nodes[x].parent matches Some(p)
                        && acc.contains(p)) ==> acc.contains(x),
                forall|x: u32| #[trigger]
                    acc.contains(x) ==> (m1.nodes[x].parent matches Some(p) && (acc.contains(p) || (p
                        == node && cs.subrange(0, i as int).contains(x)))),
                forall|j: int| 0 <= j < i ==> acc.contains(#[trigger] cs[j]),
                forall|e: ListenerEntry| #[trigger]
                    self@.listeners.contains(e) <==> m1.listeners.contains(e) && !acc.contains(
                        e.node,
                    ),
                m1.pending.is_prefix_of(self@.pending),
                self@ == (SessionModel {
                    nodes: self@.nodes,
                    listeners: self@.listeners,
                    pending: self@.pending,
                    ..m1
                }),
                forall|x: u32| #[trigger]
                    self@.nodes.contains_key(x) ==> self.depth@[x] == depth1[x],
                self.bound@ == old(self).bound@,
                depth1 == old(self).depth@,
                depth1[node] < self.bound@,
                depth_ok(m1.nodes, depth1, self.bound@, node),
            decreases n - i,
        {
            let child = children[i];
            proof {
                assert(!acc.contains(node));
                assert(self@.nodes.contains_key(node));
                assert(children_ok(self@.nodes, node));
                assert(self@.nodes[node].children@ == cs.subrange(i as int, n as int));
                assert(self@.nodes[node].children@[0] == child);
                assert(depth_ok(self@.nodes, self.depth@, self.bound@, child));
            }
            let ghost cur = self@;
            let r = self.destroy_subtree(node, child);
            proof {
                let ri = r@;
                assert(cur.nodes[node].children@.index_of(child) == 0) by {
                    assert(cur.nodes[node].children@[0] == child);
                    assert(cur.nodes[node].children@.no_duplicates());
                }
                assert(self@.nodes[node].children@ =~= cs.subrange(i + 1, n as int));
                assert forall|x: u32| #[trigger] ri.contains(x) implies depth1[x] > depth1[node] by {
                    assert(cur.nodes.contains_key(x));
                }
                assert(!ri.contains(node));
                let acc2 = acc.union(ri);
                assert forall|x: u32|
                    #[trigger] m1.nodes.contains_key(x) && (m1.nodes[x].parent matches Some(p)
                        && acc2.contains(p)) implies acc2.contains(x) by {
                    if !acc.contains(x) {
                        let p = m1.nodes[x].parent.unwrap();
                        if ri.contains(p) {
                            if x == node {
                                assert(depth1[p] + 1 == depth1[node]);
                            }
                            assert(cur.nodes.contains_key(x));
                            assert(cur.nodes[x] == m1.nodes[x]);
                        }
                    }
                }
                assert forall|x: u32| #[trigger] acc2.contains(x) implies (m1.nodes[x].parent matches Some(
                    p,
                ) && (acc2.contains(p) || (p == node && cs.subrange(0, i + 1).contains(x)))) by {
                    if acc.contains(x) {
                        let p = m1.nodes[x].parent.unwrap();
                        if !acc.contains(p) {
                            let j = choose|j: int|
                                0 <= j < i && cs.subrange(0, i as int)[j] == x;
                            assert(cs.subrange(0, i + 1)[j] == x);
                        }
                    } else {
                        assert(ri.contains(x));
                        assert(cur.nodes.contains_key(x));
                        assert(x != node);
                        assert(cur.nodes[x] == m1.nodes[x]);
                        if x == child {
                            assert(cs.subrange(0, i + 1)[i as int] == x);
                        }
                    }
                }
                assert(self@.nodes.dom() =~= m1.nodes.dom().difference(acc2));
                assert forall|x: u32| #[trigger] acc2.contains(x) implies m1.nodes.contains_key(x)
                    && depth1[x] > depth1[node] by {
                    if ri.contains(x) {
                        assert(cur.nodes.contains_key(x));
                    }
                }
                assert forall|e: ListenerEntry| #[trigger]
                    self@.listeners.contains(e) <==> m1.listeners.contains(e) && !acc2.contains(
                        e.node,
                    ) by {}
                assert(m1.pending.is_prefix_of(self@.pending)) by {
                    assert(self@.pending.subrange(0, cur.pending.len() as int) == cur.pending);
                    assert(cur.pending.subrange(0, m1.pending.len() as int) == m1.pending);
                    assert(self@.pending.subrange(0, m1.pending.len() as int) =~= m1.pending);
                }
                acc = acc2;
            }
            i = i + 1;
        }
        proof {
            let removed = acc.insert(node);
            assert(!acc.contains(node));
            assert(self@.nodes.contains_key(node));
            assert(self@.nodes[node].children@.len() == 0);
            assert(is_subtree_set(m1.nodes, node, removed)) by {
                assert forall|x: u32|
                    #[trigger] m1.nodes.contains_key(x) && (m1.nodes[x].parent matches Some(p)
                        && removed.contains(p)) implies removed.contains(x) by {
                    let p = m1.nodes[x].parent.unwrap();
                    if p == node {
                        assert(parent_ok(m1.nodes, x));
                        assert(m1.nodes[node].children@.contains(x));
                        let j = choose|j: int| 0 <= j < cs.len() && cs[j] == x;
                        assert(acc.contains(cs[j]));
                    }
                }
                assert forall|x: u32| #[trigger] removed.contains(x) implies x == node || (
                m1.nodes[x].parent matches Some(p) && removed.contains(p)) by {}
            }
        }
        Ghost(acc)
    }

    /// Tears the whole tree down (every subtree below the root, listeners
    /// first), marks the session destroyed and hands out the final batch.
    pub fn destroy(&mut self) -> (r: Result<CommandBatch, BridgeError>)
        requires
            old(self).wf(),
        ensures
            forall|h0: HostModel| #[trigger] replays(h0, old(self)@) ==> (r matches Ok(b) ==> (host_run(h0, b.commands@) matches Ok(h) && replays(h, final(self)@))),
            final(self).wf(),
            old(self)@.next_node <= final(self)@.next_node,
            old(self)@.destroyed ==> final(self)@ == old(self)@ && (r matches Err(e)
                && e.status == Status::InvalidSession && e.message@ == destroyed_message(old(self)@.id)),
            !old(self)@.destroyed ==> destroy_outcome(old(self)@, final(self)@, r),
    {
        match self.ensure_live() {
            Ok(()) => {},
            Err(e) => return Err(e),
        }
        let ghost m0 = self@;
        let ghost depth0 = self.depth@;
        let root = self.root.get();
        let removed = self.destroy_children(root);
        self.destroyed = true;
        let ghost m1 = self@;
        proof {
            let below = attached_below_root(m0.nodes, m0.root);
            assert forall|x: u32| removed@.contains(x) <==> #[trigger] below.contains(x) by {
                if removed@.contains(x) {
                    lemma_subtree_up(m0.nodes, root, depth0, self.bound@, root, removed@.insert(root), x);
                }
                if below.contains(x) {
                    let k = choose|k: nat| anc_at(m0.nodes, x, k) == Some(root);
                    lemma_subtree_down(m0.nodes, root, removed@.insert(root), x, k);
                }
            }
            assert(removed@ =~= below);
        }
        let ghost m2 = self@;
        let r = self.take_pending_batch();
        proof {
            assert forall|h0: HostModel| replays(h0, old(self)@) implies (r matches Ok(b) ==> (host_run(
                h0,
                b.commands@,
            ) matches Ok(h) && replays(h, self@))) by {
                assert(replays(h0, m1));
                assert(replays(h0, m2));
                lemma_batch_replays(h0, m2, self@);
            }
        }
        r
    }

    /// Adds a detached node that no other node refers to.
    fn insert_fresh_node(&mut self, node: u32, kind: NodeKind)
        requires
            old(self).wf(),
            node != 0,
            node != old(self).root@,
            node < old(self).next_node,
            !old(self).nodes@.contains_key(node),
            !(kind is Root),
        ensures
            final(self).wf(),
            final(self)@.nodes == old(self)@.nodes.insert(
                node,
                NodeState { kind, parent: None, children: final(self)@.nodes[node].children },
            ),
            final(self)@.nodes[node].children@.len() == 0,
            final(self)@.listeners == old(self)@.listeners,
            final(self)@.pending == old(self)@.pending,
            final(self)@.destroyed == old(self)@.destroyed,
            final(self)@.id == old(self)@.id,
            final(self)@.root == old(self)@.root,
            final(self)@.sequence == old(self)@.sequence,
            final(self)@.next_listener == old(self)@.next_listener,
            final(self)@.next_node == old(self)@.next_node,
    {
        let ghost old_nodes = self.nodes@;
        let ghost old_depth = self.depth@;
        self.nodes.insert(node, NodeState { kind, parent: None, children: Vec::new() });
        self.depth = Ghost(self.depth@.insert(node, 0));
        proof {
            let nodes = self.nodes@;
            assert forall|k: u32| #[trigger] nodes.contains_key(k) implies parent_ok(nodes, k)
                && children_ok(nodes, k) && depth_ok(nodes, self.depth@, self.bound@, k) by {
                if k != node {
                    assert(old_nodes.contains_key(k));
                    assert(parent_ok(old_nodes, k));
                    assert(children_ok(old_nodes, k));
                    assert(depth_ok(old_nodes, old_depth, self.bound@, k));
                    assert forall|i: int|
                        0 <= i < nodes[k].children@.len() implies nodes.contains_key(
                        #[trigger] nodes[k].children@[i],
                    ) && nodes[nodes[k].children@[i]].parent == Some(k) by {
                        assert(old_nodes.contains_key(old_nodes[k].children@[i]));
                    }
                    match nodes[k].parent {
                        Some(p) => {
                            assert(p != node);
                        },
                        None => {},
                    }
                }
            }
            assert forall|i: int| 0 <= i < self.listeners@.len() implies is_element(
                nodes,
                (#[trigger] self.listeners@[i]).node,
            ) by {
                assert(is_element(old_nodes, self.listeners@[i].node));
            }
        }
    }
}

/// Node IDs never repeat and only grow: an ID handed out is at least the
/// counter it was taken from, is not the root, and is below the counter that
/// follows; any ID handed out from that counter or a later one is larger.
pub proof fn lemma_node_ids_increase(next: u32, root: u32, later: u32)
    requires
        alloc_node_result(next, root).0 is Some,
        later >= alloc_node_result(next, root).1,
    ensures
        alloc_node_result(next, root).0->0 >= next,
        alloc_node_result(next, root).0->0 != root,
        alloc_node_result(next, root).0->0 < alloc_node_result(next, root).1,
        alloc_node_result(later, root).0 matches Some(n) ==> n > alloc_node_result(next, root).0->0,
{
}

/// The commands of a batch are those the calls since the previous batch
/// queued, in call order: when each call queues one command after what was
/// pending (`pushed_one`), starting from nothing, the pending list after the
/// last call holds the `i`-th call's command at position `i`.
pub proof fn lemma_pending_in_call_order(pendings: Seq<Seq<Command>>)
    requires
        pendings.len() > 0,
        pendings[0].len() == 0,
        forall|i: int| 0 <= i < pendings.len() - 1 ==> pushed_one(#[trigger] pendings[i], pendings[i + 1]),
    ensures
        pendings.last().len() == pendings.len() - 1,
        forall|i: int| 0 <= i < pendings.len() - 1 ==> pendings.last()[i] == #[trigger] pendings[i + 1].last(),
    decreases pendings.len(),
{
    if pendings.len() > 1 {
        let shorter = pendings.drop_last();
        assert forall|i: int| 0 <= i < shorter.len() - 1 implies pushed_one(#[trigger] shorter[i], shorter[i + 1]) by {
            assert(pushed_one(pendings[i], pendings[i + 1]));
        }
        lemma_pending_in_call_order(shorter);
        let k = pendings.len() - 1;
        assert(pushed_one(pendings[k - 1], pendings[k]));
        assert forall|i: int| 0 <= i < pendings.len() - 1 implies pendings.last()[i] == #[trigger] pendings[i + 1].last() by {
            if i < k - 1 {
                assert(shorter.last()[i] == shorter[i + 1].last());
                assert(pendings[k].subrange(0, pendings[k - 1].len() as int)[i] == pendings[k - 1][i]);
            }
        }
    }
}

} // verus!

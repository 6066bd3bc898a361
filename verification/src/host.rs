use std::collections::HashMap;
use std::collections::HashSet;
use vstd::prelude::*;

use crate::attributes::AttributeList;
use crate::ids::{BridgeError, Command, CommandBatch, NodeId, SessionId, Status};
use crate::tree::{NodeKind, NodeState};
use crate::text::{copy_string, decimal_spec, message_with, owned};

verus! {

broadcast use vstd::std_specs::hash::group_hash_axioms;

/// A command the host refuses: the status and the message it answers with.
pub struct HostRefusal {
    pub status: Status,
    pub message: Seq<char>,
}

pub open spec fn refusal(status: Status, message: Seq<char>) -> HostRefusal {
    HostRefusal { status, message }
}

/// The message of a command on a node that the host does not hold.
pub open spec fn foreign_node_message(node: u32) -> Seq<char> {
    "host does not own node "@ + decimal_spec(node as nat)
}

/// What a host node is, as plain values.
pub enum KindView {
    Root,
    Element(Seq<char>),
    RawText(Seq<char>),
}

/// One node as the host sees it.
pub struct HostNodeView {
    pub kind: KindView,
    pub parent: Option<u32>,
    pub children: Seq<u32>,
}

/// The abstract state of the in-memory host.
pub struct HostModel {
    pub session: u32,
    pub root: u32,
    pub nodes: Map<u32, HostNodeView>,
    pub attributes: Map<u32, Map<Seq<char>, Seq<char>>>,
    pub listeners: Set<u32>,
    pub commits: u32,
}

pub open spec fn kind_view(k: NodeKind) -> KindView {
    match k {
        NodeKind::Root => KindView::Root,
        NodeKind::Element(t) => KindView::Element(t@),
        NodeKind::RawText(t) => KindView::RawText(t@),
    }
}

pub open spec fn node_view(n: NodeState<u32>) -> HostNodeView {
    HostNodeView { kind: kind_view(n.kind), parent: n.parent, children: n.children@ }
}

/// A fresh, detached node of kind `kind`.
pub open spec fn fresh_node(kind: KindView) -> HostNodeView {
    HostNodeView { kind, parent: None, children: Seq::empty() }
}

/// Where `reference` sits among the children of `parent`: its first position,
/// or the end when there is no reference.
pub open spec fn attach_index(children: Seq<u32>, reference: Option<u32>) -> Option<int> {
    match reference {
        Some(r) => children.index_of_first(r),
        None => Some(children.len() as int),
    }
}

/// The effect of attaching `child` below `parent` (before `reference` when given).
pub open spec fn host_attach(m: HostModel, parent: u32, child: u32, reference: Option<u32>) -> Result<
    HostModel,
    HostRefusal,
> {
    if !m.nodes.contains_key(parent) {
        Err(refusal(Status::InvalidOwnership, foreign_node_message(parent)))
    } else if !m.nodes.contains_key(child) {
        Err(refusal(Status::InvalidOwnership, foreign_node_message(child)))
    } else if m.nodes[child].parent is Some {
        Err(refusal(Status::InvalidOwnership, "host child is already attached"@))
    } else {
        match attach_index(m.nodes[parent].children, reference) {
            None => Err(refusal(Status::InvalidOwnership, "host reference is not a direct child"@)),
            Some(idx) => {
                let p = m.nodes[parent];
                let n1 = m.nodes.insert(
                    parent,
                    HostNodeView { children: p.children.insert(idx, child), ..p },
                );
                let c = n1[child];
                Ok(HostModel { nodes: n1.insert(child, HostNodeView { parent: Some(parent), ..c }), ..m })
            },
        }
    }
}

/// The predicate that keeps everything but `c`.
pub open spec fn other_than(c: u32) -> spec_fn(u32) -> bool {
    |x: u32| x != c
}

/// The effect of detaching `child` from `parent`.
pub open spec fn host_remove(m: HostModel, parent: u32, child: u32) -> Result<HostModel, HostRefusal> {
    if !m.nodes.contains_key(child) {
        Err(refusal(Status::InvalidOwnership, foreign_node_message(child)))
    } else if m.nodes[child].parent != Some(parent) {
        Err(refusal(Status::InvalidOwnership, "host child-parent mismatch"@))
    } else {
        let p = m.nodes[parent];
        let n1 = m.nodes.insert(
            parent,
            HostNodeView { children: p.children.filter(other_than(child)), ..p },
        );
        let c = n1[child];
        Ok(HostModel { nodes: n1.insert(child, HostNodeView { parent: None, ..c }), ..m })
    }
}

/// The effect of destroying `node`, which must be detached and childless.
pub open spec fn host_destroy(m: HostModel, node: u32) -> Result<HostModel, HostRefusal> {
    if !m.nodes.contains_key(node) {
        Err(refusal(Status::InvalidOwnership, foreign_node_message(node)))
    } else if m.nodes[node].parent is Some || m.nodes[node].children.len() != 0 || node == m.root {
        Err(refusal(Status::InvalidOwnership, "host refused to destroy an owned node"@))
    } else {
        Ok(HostModel { nodes: m.nodes.remove(node), attributes: m.attributes.remove(node), ..m })
    }
}

/// The attributes recorded for `node` (none when nothing was recorded).
pub open spec fn attributes_of(m: HostModel, node: u32) -> Map<Seq<char>, Seq<char>> {
    if m.attributes.contains_key(node) {
        m.attributes[node]
    } else {
        Map::empty()
    }
}

/// The effect of one command on the host, or how it is refused.
pub open spec fn host_step(m: HostModel, c: Command) -> Result<HostModel, HostRefusal> {
    match c {
        Command::CreateElement { node, tag } => if m.nodes.contains_key(node@) {
            Err(refusal(Status::InvalidOwnership, "host node already exists"@))
        } else {
            Ok(
                HostModel {
                    nodes: m.nodes.insert(node@, fresh_node(KindView::Element(tag@))),
                    ..m
                },
            )
        },
        Command::CreateRawText { node, text } => if m.nodes.contains_key(node@) {
            Err(refusal(Status::InvalidOwnership, "host node already exists"@))
        } else {
            Ok(
                HostModel {
                    nodes: m.nodes.insert(node@, fresh_node(KindView::RawText(text@))),
                    ..m
                },
            )
        },
        Command::AppendElement { parent, child } => host_attach(m, parent@, child@, None),
        Command::InsertElementBefore { parent, child, reference } => host_attach(
            m,
            parent@,
            child@,
            Some(reference@),
        ),
        Command::RemoveElement { parent, child } => host_remove(m, parent@, child@),
        Command::DestroyNode { node } => host_destroy(m, node@),
        Command::SetAttribute { node, name, value } => if !m.nodes.contains_key(node@) {
            Err(refusal(Status::InvalidOwnership, foreign_node_message(node@)))
        } else {
            let a = attributes_of(m, node@);
            let a2 = match value {
                Some(v) => a.insert(name@, v@),
                None => a.remove(name@),
            };
            Ok(HostModel { attributes: m.attributes.insert(node@, a2), ..m })
        },
        Command::AddEventListener { listener, .. } => if m.listeners.contains(listener@) {
            Err(refusal(Status::InvalidListener, "host listener already exists"@))
        } else {
            Ok(HostModel { listeners: m.listeners.insert(listener@), ..m })
        },
        Command::RemoveEventListener { listener, .. } => if !m.listeners.contains(listener@) {
            Err(refusal(Status::InvalidListener, "host listener does not exist"@))
        } else {
            Ok(HostModel { listeners: m.listeners.remove(listener@), ..m })
        },
    }
}

/// Applies the commands in order and stops at the first refused one; the
/// error carries the state reached before it and its refusal.
pub open spec fn host_run(m: HostModel, cmds: Seq<Command>) -> Result<
    HostModel,
    (HostModel, HostRefusal),
>
    decreases cmds.len(),
{
    if cmds.len() == 0 {
        Ok(m)
    } else {
        match host_step(m, cmds[0]) {
            Ok(m2) => host_run(m2, cmds.drop_first()),
            Err(s) => Err((m, s)),
        }
    }
}

pub open spec fn tag_of(k: KindView) -> Seq<char> {
    match k {
        KindView::Root => "page"@,
        KindView::Element(t) => t,
        KindView::RawText(_) => "raw-text"@,
    }
}

pub open spec fn text_of(k: KindView) -> Option<Seq<char>> {
    match k {
        KindView::RawText(t) => Some(t),
        _ => None,
    }
}

pub open spec fn opt_view(s: Option<String>) -> Option<Seq<char>> {
    match s {
        Some(v) => Some(v@),
        None => None,
    }
}

/// `t` is the snapshot of `node`, followed `fuel` levels down.
pub open spec fn snapshot_matches(t: TreeSnapshot, m: HostModel, node: u32, fuel: nat) -> bool
    decreases fuel,
{
    let n = m.nodes[node];
    &&& t.tag@ == tag_of(n.kind)
    &&& opt_view(t.text) == text_of(n.kind)
    &&& t.attributes@ == attributes_of(m, node)
    &&& if fuel == 0 {
        t.children@.len() == 0
    } else {
        &&& t.children@.len() == n.children.len()
        &&& forall|i: int|
            0 <= i < n.children.len() ==> snapshot_matches(
                #[trigger] t.children@[i],
                m,
                n.children[i],
                (fuel - 1) as nat,
            )
    }
}

/// A copy of one rendered node and everything below it.
#[derive(Debug, PartialEq, Eq)]
pub struct TreeSnapshot {
    pub tag: String,
    pub text: Option<String>,
    pub attributes: AttributeList,
    pub children: Vec<TreeSnapshot>,
}

/// An in-memory renderer that applies command batches to its own tree and
/// refuses commands that do not fit it.
#[derive(Debug)]
pub struct HostFake {
    session: SessionId,
    root: NodeId,
    nodes: HashMap<u32, NodeState<u32>>,
    attributes: HashMap<u32, AttributeList>,
    listeners: HashSet<u32>,
    commits: u32,
}

impl View for HostFake {
    type V = HostModel;

    closed spec fn view(&self) -> HostModel {
        HostModel {
            session: self.session@,
            root: self.root@,
            nodes: Map::new(
                |k: u32| self.nodes@.contains_key(k),
                |k: u32| node_view(self.nodes@[k]),
            ),
            attributes: Map::new(
                |k: u32| self.attributes@.contains_key(k),
                |k: u32| self.attributes@[k]@,
            ),
            listeners: self.listeners@,
            commits: self.commits,
        }
    }
}

/// The host's structural invariant: the root exists, every listed child
/// exists and names its parent, and every parent lists its children.
/// The refusal of a command on a node that the host does not hold.
fn foreign_node(node: u32) -> (r: BridgeError)
    ensures
        r.status == Status::InvalidOwnership,
        r.message@ == "host does not own node "@ + decimal_spec(node as nat),
{
    let m = message_with("host does not own node ", node as u64, "");
    proof {
        reveal_strlit("");
        assert(m@ =~= "host does not own node "@ + decimal_spec(node as nat));
    }
    BridgeError::new_owned(Status::InvalidOwnership, m)
}

pub open spec fn host_ok(m: HostModel) -> bool {
    &&& m.nodes.contains_key(m.root)
    &&& forall|k: u32| #[trigger] m.nodes.contains_key(k) ==> children_listed_ok(m.nodes, k)
        && parent_listed_ok(m.nodes, k)
}

pub open spec fn parent_listed_ok(nodes: Map<u32, HostNodeView>, k: u32) -> bool {
    nodes[k].parent matches Some(p) ==> nodes.contains_key(p) && nodes[p].children.contains(k)
}

pub open spec fn children_listed_ok(nodes: Map<u32, HostNodeView>, k: u32) -> bool {
    forall|i: int|
        0 <= i < nodes[k].children.len() ==> nodes.contains_key(#[trigger] nodes[k].children[i])
            && nodes[nodes[k].children[i]].parent == Some(k)
}

/// A node with no parent is listed as nobody's child.
proof fn lemma_orphan_unlisted(m: HostModel, x: u32, k: u32)
    requires
        host_ok(m),
        m.nodes.contains_key(x),
        m.nodes[x].parent is None,
        m.nodes.contains_key(k),
    ensures
        !m.nodes[k].children.contains(x),
{
    assert(children_listed_ok(m.nodes, k));
}

/// Every command the host accepts keeps its tree consistent, keeps its
/// identity and leaves the commit count alone.
pub proof fn lemma_host_step_keeps_tree(m: HostModel, c: Command)
    requires
        host_ok(m),
    ensures
        host_step(m, c) matches Ok(m2) ==> host_ok(m2) && m2.session == m.session && m2.root
            == m.root && m2.commits == m.commits,
{
    broadcast use vstd::seq_lib::group_filter_ensures;
    match host_step(m, c) {
        Ok(m2) => {
            match c {
                Command::CreateElement { node, .. } | Command::CreateRawText { node, .. } => {
                    assert forall|k: u32| #[trigger] m2.nodes.contains_key(k) implies children_listed_ok(m2.nodes, k) && parent_listed_ok(m2.nodes, k) by {
                        if k != node@ {
                            assert(children_listed_ok(m.nodes, k));
                        assert(parent_listed_ok(m.nodes, k));
                        }
                    }
                },
                Command::AppendElement { parent, child } => {
                    lemma_attach_keeps_tree(m, parent@, child@, None);
                },
                Command::InsertElementBefore { parent, child, reference } => {
                    lemma_attach_keeps_tree(m, parent@, child@, Some(reference@));
                },
                Command::RemoveElement { parent, child } => {
                    let (p, ch) = (parent@, child@);
                    let ps = m.nodes[p].children;
                    let fs = ps.filter(other_than(ch));
                    assert(m.nodes.contains_key(p)) by {
                        assert(parent_listed_ok(m.nodes, ch));
                    }
                    assert forall|k: u32| #[trigger] m2.nodes.contains_key(k) implies children_listed_ok(m2.nodes, k) && parent_listed_ok(m2.nodes, k) by {
                        assert(children_listed_ok(m.nodes, k));
                        assert(parent_listed_ok(m.nodes, k));
                        if k == p {
                            assert forall|i: int| 0 <= i < m2.nodes[k].children.len() implies m2.nodes.contains_key(
                                #[trigger] m2.nodes[k].children[i],
                            ) && m2.nodes[m2.nodes[k].children[i]].parent == Some(k) by {
                                let x = fs[i];
                                assert(other_than(ch)(x));
                                assert(fs.contains(x));
                                ps.lemma_filter_contains_rev(other_than(ch), x);
                                assert(ps.contains(x));
                                let j = choose|j: int| 0 <= j < ps.len() && ps[j] == x;
                                assert(m.nodes[ps[j]].parent == Some(p));
                            }
                        } else {
                            assert forall|i: int| 0 <= i < m2.nodes[k].children.len() implies m2.nodes.contains_key(
                                #[trigger] m2.nodes[k].children[i],
                            ) && m2.nodes[m2.nodes[k].children[i]].parent == Some(k) by {
                                let x = m.nodes[k].children[i];
                                assert(m.nodes[x].parent == Some(k));
                            }
                        }
                        match m2.nodes[k].parent {
                            Some(q) => {
                                assert(k != ch);
                                assert(m.nodes[k].parent == Some(q));
                                if q == p {
                                    let j = choose|j: int| 0 <= j < ps.len() && ps[j] == k;
                                    assert(other_than(ch)(ps[j]));
                                    ps.lemma_filter_contains(other_than(ch), j);
                                }
                            },
                            None => {},
                        }
                    }
                },
                Command::DestroyNode { node } => {
                    let n = node@;
                    assert forall|k: u32| #[trigger] m2.nodes.contains_key(k) implies children_listed_ok(m2.nodes, k) && parent_listed_ok(m2.nodes, k) by {
                        assert(children_listed_ok(m.nodes, k));
                        assert(parent_listed_ok(m.nodes, k));
                        lemma_orphan_unlisted(m, n, k);
                        assert forall|i: int| 0 <= i < m2.nodes[k].children.len() implies m2.nodes.contains_key(
                            #[trigger] m2.nodes[k].children[i],
                        ) && m2.nodes[m2.nodes[k].children[i]].parent == Some(k) by {
                            let x = m.nodes[k].children[i];
                            assert(x != n);
                        }
                    }
                },
                _ => {
                    assert forall|k: u32| #[trigger] m2.nodes.contains_key(k) implies children_listed_ok(m2.nodes, k) && parent_listed_ok(m2.nodes, k) by {
                        assert(children_listed_ok(m.nodes, k));
                        assert(parent_listed_ok(m.nodes, k));
                    }
                },
            }
        },
        Err(_) => {},
    }
}

proof fn lemma_attach_keeps_tree(m: HostModel, p: u32, ch: u32, reference: Option<u32>)
    requires
        host_ok(m),
    ensures
        host_attach(m, p, ch, reference) matches Ok(m2) ==> host_ok(m2) && m2.session == m.session
            && m2.root == m.root && m2.commits == m.commits,
{
    match host_attach(m, p, ch, reference) {
        Ok(m2) => {
            let ps = m.nodes[p].children;
            let idx = attach_index(ps, reference).unwrap();
            match reference {
                Some(r) => {
                    ps.index_of_first_ensures(r);
                },
                None => {},
            }
            assert(0 <= idx <= ps.len());
            let ns = ps.insert(idx, ch);
            assert forall|k: u32| #[trigger] m2.nodes.contains_key(k) implies children_listed_ok(m2.nodes, k) && parent_listed_ok(m2.nodes, k) by {
                assert(children_listed_ok(m.nodes, k));
                assert(parent_listed_ok(m.nodes, k));
                lemma_orphan_unlisted(m, ch, k);
                if k == p {
                    assert forall|i: int| 0 <= i < m2.nodes[k].children.len() implies m2.nodes.contains_key(
                        #[trigger] m2.nodes[k].children[i],
                    ) && m2.nodes[m2.nodes[k].children[i]].parent == Some(k) by {
                        if i < idx {
                            assert(ns[i] == ps[i]);
                            assert(ps.contains(ps[i]));
                        } else if i > idx {
                            assert(ns[i] == ps[i - 1]);
                            assert(ps.contains(ps[i - 1]));
                        }
                    }
                } else {
                    assert forall|i: int| 0 <= i < m2.nodes[k].children.len() implies m2.nodes.contains_key(
                        #[trigger] m2.nodes[k].children[i],
                    ) && m2.nodes[m2.nodes[k].children[i]].parent == Some(k) by {
                        let x = m.nodes[k].children[i];
                        assert(m.nodes[k].children.contains(x));
                    }
                }
                match m2.nodes[k].parent {
                    Some(q) => {
                        if k == ch {
                            assert(ns[idx] == ch);
                        } else {
                            assert(m.nodes[k].parent == Some(q));
                            assert(m.nodes[q].children.contains(k));
                            if q == p {
                                let j = choose|j: int| 0 <= j < ps.len() && ps[j] == k;
                                if j < idx {
                                    assert(ns[j] == k);
                                } else {
                                    assert(ns[j + 1] == k);
                                }
                            }
                        }
                    },
                    None => {},
                }
            }
        },
        Err(_) => {},
    }
}

/// Unfolds one step of `host_run` on a suffix of the commands.
proof fn lemma_run_suffix(m: HostModel, cmds: Seq<Command>, i: int)
    requires
        0 <= i < cmds.len(),
    ensures
        host_run(m, cmds.subrange(i, cmds.len() as int)) == match host_step(m, cmds[i]) {
            Ok(m2) => host_run(m2, cmds.subrange(i + 1, cmds.len() as int)),
            Err(s) => Err((m, s)),
        },
{
    let t = cmds.subrange(i, cmds.len() as int);
    assert(t[0] == cmds[i]);
    assert(t.drop_first() =~= cmds.subrange(i + 1, cmds.len() as int));
}

/// The first position of `x` in `v`.
fn first_position(v: &Vec<u32>, x: u32) -> (r: Option<usize>)
    ensures
        r == match v@.index_of_first(x) {
            Some(i) => Some(i as usize),
            None => None::<usize>,
        },
{
    let mut i: usize = 0;
    while i < v.len()
        invariant
            i <= v@.len(),
            forall|j: int| 0 <= j < i ==> v@[j] != x,
        decreases v@.len() - i,
    {
        if v[i] == x {
            proof {
                assert(v@[i as int] == x);
                assert(v@.contains(x));
                v@.index_of_first_ensures(x);
                let k = v@.index_of_first(x)->0;
                if k < i {
                    assert(v@[k] != x);
                } else if k > i {
                    assert(v@[i as int] != x);
                }
            }
            return Some(i);
        }
        i = i + 1;
    }
    proof {
        v@.index_of_first_ensures(x);
        if v@.contains(x) {
            let k = choose|k: int| 0 <= k < v@.len() && v@[k] == x;
            assert(v@[k] == x);
        }
    }
    None
}

/// `v` without any occurrence of `x`.
fn without(v: &Vec<u32>, x: u32) -> (r: Vec<u32>)
    ensures
        r@ == v@.filter(other_than(x)),
{
    let mut r: Vec<u32> = Vec::new();
    let mut i: usize = 0;
    proof {
        reveal(Seq::filter);
        assert(v@.subrange(0, 0) =~= Seq::<u32>::empty());
    }
    while i < v.len()
        invariant
            i <= v@.len(),
            r@ == v@.subrange(0, i as int).filter(other_than(x)),
        decreases v@.len() - i,
    {
        proof {
            assert(v@.subrange(0, i + 1) =~= v@.subrange(0, i as int).push(v@[i as int]));
            v@.subrange(0, i as int).lemma_filter_push(v@[i as int], other_than(x));
        }
        if v[i] != x {
            r.push(v[i]);
        }
        i = i + 1;
    }
    proof {
        assert(v@.subrange(0, v@.len() as int) =~= v@);
    }
    r
}

impl HostFake {
    /// A host whose tree holds only `root`.
    pub fn new(session: SessionId, root: NodeId) -> (r: HostFake)
        ensures
            host_ok(r@),
            r@ == (HostModel {
                session: session@,
                root: root@,
                nodes: map![root@ => fresh_node(KindView::Root)],
                attributes: Map::empty(),
                listeners: Set::empty(),
                commits: 0,
            }),
    {
        let mut nodes: HashMap<u32, NodeState<u32>> = HashMap::new();
        nodes.insert(root.get(), NodeState { kind: NodeKind::Root, parent: None, children: Vec::new() });
        let r = HostFake {
            session,
            root,
            nodes,
            attributes: HashMap::new(),
            listeners: HashSet::new(),
            commits: 0,
        };
        proof {
            assert(r@.nodes =~= map![root@ => fresh_node(KindView::Root)]);
            assert(r@.attributes =~= Map::empty());
        }
        r
    }

    /// Applies a batch of commands in order.  A batch for another session is
    /// refused as a whole; otherwise the commands before the first refused one
    /// stay applied.  A complete final batch counts as one commit.
    pub fn apply(&mut self, batch: &CommandBatch) -> (r: Result<(), BridgeError>)
        requires
            host_ok(old(self)@),
            !(batch.session@ == old(self)@.session && batch.final_commit && old(self)@.commits
                == u32::MAX && host_run(old(self)@, batch.commands@) is Ok),
        ensures
            host_ok(final(self)@),
            batch.session@ != old(self)@.session ==> final(self)@ == old(self)@ && (r matches Err(e)
                && e.status == Status::InvalidSession && e.message@ == "session mismatch"@),
            batch.session@ == old(self)@.session ==> match host_run(old(self)@, batch.commands@) {
                Ok(m) => r is Ok && final(self)@ == (HostModel {
                    commits: if batch.final_commit {
                        (m.commits + 1) as u32
                    } else {
                        m.commits
                    },
                    ..m
                }),
                Err((m, s)) => (r matches Err(e) && e.status == s.status && e.message@ == s.message) && final(self)@
                    == m,
            },
    {
        if batch.session.get() != self.session.get() {
            return Err(BridgeError::new(Status::InvalidSession, "session mismatch"));
        }
        let ghost m0 = self@;
        let ghost cmds = batch.commands@;
        let n = batch.commands.len();
        let mut i: usize = 0;
        proof {
            assert(cmds.subrange(0, n as int) =~= cmds);
        }
        while i < n
            invariant
                n == cmds.len(),
                cmds == batch.commands@,
                i <= n,
                host_ok(self@),
                m0 == old(self)@,
                batch.session@ == m0.session,
                self@.session == m0.session,
                self@.root == m0.root,
                self@.commits == m0.commits,
                host_run(m0, cmds) == host_run(self@, cmds.subrange(i as int, n as int)),
            decreases n - i,
        {
            proof {
                lemma_run_suffix(self@, cmds, i as int);
                lemma_host_step_keeps_tree(self@, cmds[i as int]);
            }
            match self.apply_command(&batch.commands[i]) {
                Ok(()) => {},
                Err(e) => return Err(e),
            }
            i = i + 1;
        }
        proof {
            assert(cmds.subrange(n as int, n as int) =~= Seq::<Command>::empty());
        }
        if batch.final_commit {
            self.commits = self.commits + 1;
        }
        Ok(())
    }

    /// The tree below the root, followed as deep as the host has nodes.
    pub fn snapshot(&self) -> (r: TreeSnapshot)
        requires
            host_ok(self@),
        ensures
            snapshot_matches(r, self@, self@.root, self@.nodes.len()),
    {
        proof {
            assert(self@.nodes.dom() =~= self.nodes@.dom());
        }
        self.snapshot_node(self.root.get(), self.nodes.len())
    }

    /// How many final batches were applied in full.
    pub fn commits(&self) -> (r: u32)
        ensures
            r == self@.commits,
    {
        self.commits
    }

    /// How many listeners the host holds.
    pub fn listener_count(&self) -> (r: usize)
        ensures
            r == self@.listeners.len(),
    {
        self.listeners.len()
    }

    fn apply_command(&mut self, command: &Command) -> (r: Result<(), BridgeError>)
        requires
            host_ok(old(self)@),
        ensures
            match host_step(old(self)@, *command) {
                Ok(m) => r is Ok && final(self)@ == m,
                Err(s) => (r matches Err(e) && e.status == s.status && e.message@ == s.message) && final(self)@
                    == old(self)@,
            },
    {
        match command {
            Command::CreateElement { node, tag } => {
                self.insert_node(node.get(), NodeKind::Element(copy_string(tag)))
            },
            Command::CreateRawText { node, text } => {
                self.insert_node(node.get(), NodeKind::RawText(copy_string(text)))
            },
            Command::AppendElement { parent, child } => self.attach(parent.get(), child.get(), None),
            Command::InsertElementBefore { parent, child, reference } => self.attach(
                parent.get(),
                child.get(),
                Some(reference.get()),
            ),
            Command::RemoveElement { parent, child } => self.remove_child(parent.get(), child.get()),
            Command::DestroyNode { node } => self.destroy_node(node.get()),
            Command::SetAttribute { node, name, value } => {
                let n = node.get();
                if !self.nodes.contains_key(&n) {
                    return Err(foreign_node(n));
                }
                let ghost m0 = self@;
                let mut a = match self.attributes.remove(&n) {
                    Some(a) => a,
                    None => AttributeList::new(),
                };
                match value {
                    Some(v) => a.set(name.as_str(), v.as_str()),
                    None => a.remove(name.as_str()),
                }
                self.attributes.insert(n, a);
                proof {
                    assert(self@.attributes =~= m0.attributes.insert(n, a@));
                    assert(self@.nodes =~= m0.nodes);
                }
                Ok(())
            },
            Command::AddEventListener { listener, .. } => {
                let ghost m0 = self@;
                let fresh = self.listeners.insert(listener.get());
                proof {
                    assert(self@.nodes =~= m0.nodes);
                    assert(self@.attributes =~= m0.attributes);
                    if !fresh {
                        assert(self@.listeners =~= m0.listeners);
                    }
                }
                if !fresh {
                    return Err(BridgeError::new(Status::InvalidListener, "host listener already exists"));
                }
                Ok(())
            },
            Command::RemoveEventListener { listener, .. } => {
                let ghost m0 = self@;
                let known = self.listeners.remove(&listener.get());
                proof {
                    assert(self@.nodes =~= m0.nodes);
                    assert(self@.attributes =~= m0.attributes);
                    assert(self@.listeners =~= m0.listeners.remove(listener@));
                    if !known {
                        assert(self@.listeners =~= m0.listeners);
                    }
                }
                if !known {
                    return Err(BridgeError::new(Status::InvalidListener, "host listener does not exist"));
                }
                Ok(())
            },
        }
    }

    fn insert_node(&mut self, node: u32, kind: NodeKind) -> (r: Result<(), BridgeError>)
        ensures
            old(self)@.nodes.contains_key(node) ==> final(self)@ == old(self)@ && (r matches Err(e)
                && e.status == Status::InvalidOwnership && e.message@ == "host node already exists"@),
            !old(self)@.nodes.contains_key(node) ==> r is Ok && final(self)@ == (HostModel {
                nodes: old(self)@.nodes.insert(node, fresh_node(kind_view(kind))),
                ..old(self)@
            }),
    {
        if self.nodes.contains_key(&node) {
            return Err(BridgeError::new(Status::InvalidOwnership, "host node already exists"));
        }
        let ghost m0 = self@;
        self.nodes.insert(node, NodeState { kind, parent: None, children: Vec::new() });
        proof {
            assert(self@.nodes =~= m0.nodes.insert(node, fresh_node(kind_view(kind))));
        }
        Ok(())
    }

    #[verifier::spinoff_prover]
    fn attach(&mut self, parent: u32, child: u32, reference: Option<u32>) -> (r: Result<(), BridgeError>)
        ensures
            match host_attach(old(self)@, parent, child, reference) {
                Ok(m) => r is Ok && final(self)@ == m,
                Err(s) => (r matches Err(e) && e.status == s.status && e.message@ == s.message) && final(self)@
                    == old(self)@,
            },
    {
        if !self.nodes.contains_key(&parent) {
            return Err(foreign_node(parent));
        }
        let free = match self.nodes.get(&child) {
            Some(st) => st.parent.is_none(),
            None => {
                return Err(foreign_node(child));
            },
        };
        if !free {
            return Err(BridgeError::new(Status::InvalidOwnership, "host child is already attached"));
        }
        let index = match reference {
            Some(r) => match first_position(&self.nodes.get(&parent).unwrap().children, r) {
                Some(i) => i,
                None => {
                    return Err(
                        BridgeError::new(
                            Status::InvalidOwnership,
                            "host reference is not a direct child",
                        ),
                    );
                },
            },
            None => self.nodes.get(&parent).unwrap().children.len(),
        };
        let ghost m0 = self@;
        proof {
            match reference {
                Some(r) => {
                    m0.nodes[parent].children.index_of_first_ensures(r);
                },
                None => {},
            }
        }
        let mut ps = self.nodes.remove(&parent).unwrap();
        ps.children.insert(index, child);
        self.nodes.insert(parent, ps);
        let ghost n1 = self@.nodes;
        let mut cs = self.nodes.remove(&child).unwrap();
        cs.parent = Some(parent);
        self.nodes.insert(child, cs);
        proof {
            let p = m0.nodes[parent];
            let e1 = m0.nodes.insert(
                parent,
                HostNodeView { children: p.children.insert(index as int, child), ..p },
            );
            assert(n1 =~= e1);
            let c = e1[child];
            assert(self@.nodes =~= e1.insert(child, HostNodeView { parent: Some(parent), ..c }));
        }
        Ok(())
    }

    fn remove_child(&mut self, parent: u32, child: u32) -> (r: Result<(), BridgeError>)
        requires
            host_ok(old(self)@),
        ensures
            match host_remove(old(self)@, parent, child) {
                Ok(m) => r is Ok && final(self)@ == m,
                Err(s) => (r matches Err(e) && e.status == s.status && e.message@ == s.message) && final(self)@
                    == old(self)@,
            },
    {
        let attached_here = match self.nodes.get(&child) {
            Some(st) => st.parent == Some(parent),
            None => {
                return Err(foreign_node(child));
            },
        };
        if !attached_here {
            return Err(BridgeError::new(Status::InvalidOwnership, "host child-parent mismatch"));
        }
        let ghost m0 = self@;
        proof {
            assert(parent_listed_ok(m0.nodes, child));
        }
        let mut ps = self.nodes.remove(&parent).unwrap();
        ps.children = without(&ps.children, child);
        self.nodes.insert(parent, ps);
        let ghost n1 = self@.nodes;
        let mut cs = self.nodes.remove(&child).unwrap();
        cs.parent = None;
        self.nodes.insert(child, cs);
        proof {
            let p = m0.nodes[parent];
            let e1 = m0.nodes.insert(
                parent,
                HostNodeView { children: p.children.filter(other_than(child)), ..p },
            );
            assert(n1 =~= e1);
            let c = e1[child];
            assert(self@.nodes =~= e1.insert(child, HostNodeView { parent: None, ..c }));
        }
        Ok(())
    }

    fn destroy_node(&mut self, node: u32) -> (r: Result<(), BridgeError>)
        ensures
            match host_destroy(old(self)@, node) {
                Ok(m) => r is Ok && final(self)@ == m,
                Err(s) => (r matches Err(e) && e.status == s.status && e.message@ == s.message) && final(self)@
                    == old(self)@,
            },
    {
        let removable = match self.nodes.get(&node) {
            Some(st) => st.parent.is_none() && st.children.len() == 0 && node != self.root.get(),
            None => {
                return Err(foreign_node(node));
            },
        };
        if !removable {
            return Err(
                BridgeError::new(Status::InvalidOwnership, "host refused to destroy an owned node"),
            );
        }
        let ghost m0 = self@;
        self.nodes.remove(&node);
        self.attributes.remove(&node);
        proof {
            assert(self@.nodes =~= m0.nodes.remove(node));
            assert(self@.attributes =~= m0.attributes.remove(node));
        }
        Ok(())
    }

    fn snapshot_node(&self, node: u32, fuel: usize) -> (r: TreeSnapshot)
        requires
            host_ok(self@),
            self@.nodes.contains_key(node),
        ensures
            snapshot_matches(r, self@, node, fuel as nat),
        decreases fuel,
    {
        let st = self.nodes.get(&node).unwrap();
        let tag: String;
        let text: Option<String>;
        match &st.kind {
            NodeKind::Root => {
                tag = owned("page");
                text = None;
            },
            NodeKind::Element(t) => {
                tag = copy_string(t);
                text = None;
            },
            NodeKind::RawText(t) => {
                tag = owned("raw-text");
                text = Some(copy_string(t));
            },
        }
        let attributes = match self.attributes.get(&node) {
            Some(a) => a.copy(),
            None => AttributeList::new(),
        };
        let mut children: Vec<TreeSnapshot> = Vec::new();
        if fuel > 0 {
            let ghost kids = self@.nodes[node].children;
            proof {
                assert(children_listed_ok(self@.nodes, node));
            }
            let mut i: usize = 0;
            while i < st.children.len()
                invariant
                    host_ok(self@),
                    fuel > 0,
                    kids == st.children@,
                    kids == self@.nodes[node].children,
                    self@.nodes.contains_key(node),
                    children_listed_ok(self@.nodes, node),
                    i <= kids.len(),
                    children@.len() == i,
                    forall|j: int|
                        0 <= j < i ==> snapshot_matches(
                            #[trigger] children@[j],
                            self@,
                            kids[j],
                            (fuel - 1) as nat,
                        ),
                decreases kids.len() - i,
            {
                let child = st.children[i];
                let s = self.snapshot_node(child, fuel - 1);
                children.push(s);
                i = i + 1;
            }
        }
        TreeSnapshot { tag, text, attributes, children }
    }
}

/// Attributes on the host: the last write of a name wins, removing the name
/// afterwards leaves the node's other attributes as they were (and all of
/// them as before the write, where the name was absent), and a write on a
/// node the host does not hold is refused and changes nothing.
pub proof fn lemma_attribute_write_then_remove(
    m: HostModel,
    node: NodeId,
    name: String,
    first: String,
    second: String,
)
    ensures
        m.nodes.contains_key(node@) ==> ({
            let set1 = Command::SetAttribute { node, name, value: Some(first) };
            let set2 = Command::SetAttribute { node, name, value: Some(second) };
            let unset = Command::SetAttribute { node, name, value: None };
            match host_step(m, set1) {
                Ok(m1) => {
                    &&& attributes_of(m1, node@)[name@] == first@
                    &&& match host_step(m1, set2) {
                        Ok(m2) => attributes_of(m2, node@) == attributes_of(m, node@).insert(
                            name@,
                            second@,
                        ),
                        Err(_) => false,
                    }
                    &&& match host_step(m1, unset) {
                        Ok(m3) => attributes_of(m3, node@) == attributes_of(m, node@).remove(name@)
                            && (!attributes_of(m, node@).contains_key(name@) ==> attributes_of(
                            m3,
                            node@,
                        ) == attributes_of(m, node@)),
                        Err(_) => false,
                    }
                },
                Err(_) => false,
            }
        }),
        !m.nodes.contains_key(node@) ==> host_step(
            m,
            Command::SetAttribute { node, name, value: Some(first) },
        ) == Err::<HostModel, HostRefusal>(
            refusal(Status::InvalidOwnership, foreign_node_message(node@)),
        ),
{
    if m.nodes.contains_key(node@) {
        let a = attributes_of(m, node@);
        assert(a.insert(name@, first@).insert(name@, second@) =~= a.insert(name@, second@));
        assert(a.insert(name@, first@).remove(name@) =~= a.remove(name@));
        if !a.contains_key(name@) {
            assert(a.remove(name@) =~= a);
        }
    }
}

} // verus!

use vstd::prelude::*;

use crate::host::{fresh_node, host_run, host_step, node_view, other_than, HostModel, KindView};
use crate::ids::Command;
use crate::session::{
    has_listener, is_add_listener, is_attach, is_create_element, is_create_raw_text,
    is_destroy, is_remove, is_remove_listener, is_set_attribute, listeners_ok,
    pushed_one, SessionModel,
};
use crate::tree::{
    added_node, attached, children_ok, detached, insert_allowed, insert_index, is_element,
    parent_ok,
};

verus! {

broadcast use vstd::seq_lib::group_filter_ensures;

/// The identifiers of the listeners in `ls`.
pub open spec fn listener_ids(ls: Seq<crate::session::ListenerEntry>) -> Set<u32> {
    Set::new(|id: u32| has_listener(ls, id))
}

/// The host shows exactly the session's tree and listeners: the same
/// session and root, the same nodes with the same kinds, parents and
/// ordered children, and the same listener identifiers.
pub open spec fn mirrors(h: HostModel, s: SessionModel) -> bool {
    &&& h.session == s.id
    &&& h.root == s.root
    &&& h.nodes.dom() == s.nodes.dom()
    &&& forall|k: u32| #[trigger] s.nodes.contains_key(k) ==> h.nodes[k] == node_view(s.nodes[k])
    &&& h.listeners == listener_ids(s.listeners)
}

/// A host that started from `h0` ends up mirroring `s` once it has applied
/// the session's pending commands.
pub open spec fn replays(h0: HostModel, s: SessionModel) -> bool {
    host_run(h0, s.pending) matches Ok(h) && mirrors(h, s)
}

/// The shape every live session has: parent and child links agree, no
/// child is listed twice, and listener identifiers increase and stay below
/// the next one.
pub open spec fn session_shape(s: SessionModel) -> bool {
    &&& forall|k: u32| #[trigger] s.nodes.contains_key(k) ==> parent_ok(s.nodes, k)
    &&& forall|k: u32| #[trigger] s.nodes.contains_key(k) ==> children_ok(s.nodes, k)
    &&& listeners_ok(s.listeners, s.nodes, s.next_listener)
}

/// Running a list with one more command runs the list, then the command.
pub proof fn lemma_run_push(h0: HostModel, cmds: Seq<Command>, c: Command)
    ensures
        host_run(h0, cmds.push(c)) == match host_run(h0, cmds) {
            Ok(h) => match host_step(h, c) {
                Ok(h2) => Ok::<HostModel, (HostModel, crate::host::HostRefusal)>(h2),
                Err(st) => Err((h, st)),
            },
            Err(e) => Err(e),
        },
    decreases cmds.len(),
{
    let pushed = cmds.push(c);
    if cmds.len() == 0 {
        assert(pushed.drop_first() =~= Seq::<Command>::empty());
        assert(pushed[0] == c);
        assert(host_run(h0, cmds) == Ok::<HostModel, (HostModel, crate::host::HostRefusal)>(h0));
        match host_step(h0, c) {
            Ok(h2) => {
                assert(host_run(h2, pushed.drop_first()) == Ok::<
                    HostModel,
                    (HostModel, crate::host::HostRefusal),
                >(h2));
            },
            Err(_) => {},
        }
    } else {
        assert(pushed[0] == cmds[0]);
        assert(pushed.drop_first() =~= cmds.drop_first().push(c));
        match host_step(h0, cmds[0]) {
            Ok(h1) => {
                lemma_run_push(h1, cmds.drop_first(), c);
                assert(host_run(h0, cmds) == host_run(h1, cmds.drop_first()));
                assert(host_run(h0, pushed) == host_run(h1, pushed.drop_first()));
            },
            Err(_) => {},
        }
    }
}

/// A step that keeps a host in mirror keeps the replay going.
pub proof fn lemma_replay_step(h0: HostModel, s: SessionModel, t: SessionModel)
    requires
        replays(h0, s),
        t.pending.len() == s.pending.len() + 1,
        t.pending.subrange(0, s.pending.len() as int) == s.pending,
        forall|h: HostModel|
            mirrors(h, s) ==> (#[trigger] host_step(h, t.pending.last()) matches Ok(h2) && mirrors(
                h2,
                t,
            )),
    ensures
        replays(h0, t),
{
    let c = t.pending.last();
    assert(t.pending =~= s.pending.push(c));
    lemma_run_push(h0, s.pending, c);
    let h = host_run(h0, s.pending)->Ok_0;
    assert(mirrors(h, s));
    assert(host_step(h, c) matches Ok(h2) && mirrors(h2, t));
}

/// Filtering with a predicate every element meets changes nothing.
proof fn lemma_filter_all(s: Seq<u32>, c: u32)
    requires
        !s.contains(c),
    ensures
        s.filter(other_than(c)) == s,
    decreases s.len(),
{
    reveal(Seq::filter);
    if s.len() > 0 {
        assert(!s.drop_last().contains(c)) by {
            if s.drop_last().contains(c) {
                let i = choose|i: int| 0 <= i < s.drop_last().len() && s.drop_last()[i] == c;
                assert(s[i] == c);
            }
        }
        lemma_filter_all(s.drop_last(), c);
        assert(s.drop_last().push(s.last()) =~= s);
    }
}

/// Removing every copy of an element listed once removes its one position.
pub proof fn lemma_filter_removes_once(s: Seq<u32>, idx: int)
    requires
        s.no_duplicates(),
        0 <= idx < s.len(),
    ensures
        s.filter(other_than(s[idx])) == s.remove(idx),
{
    let c = s[idx];
    let pred = other_than(c);
    let a = s.subrange(0, idx);
    let m = seq![c];
    let b = s.subrange(idx + 1, s.len() as int);
    assert(s =~= a + m + b);
    assert(!a.contains(c)) by {
        if a.contains(c) {
            let i = choose|i: int| 0 <= i < a.len() && a[i] == c;
            assert(s[i] == s[idx]);
        }
    }
    assert(!b.contains(c)) by {
        if b.contains(c) {
            let i = choose|i: int| 0 <= i < b.len() && b[i] == c;
            assert(s[idx + 1 + i] == s[idx]);
        }
    }
    lemma_filter_all(a, c);
    lemma_filter_all(b, c);
    Seq::filter_distributes_over_add(a + m, b, pred);
    Seq::filter_distributes_over_add(a, m, pred);
    assert(m.filter(pred) =~= Seq::<u32>::empty()) by {
        reveal(Seq::filter);
        assert(m.drop_last() =~= Seq::<u32>::empty());
        assert(m.drop_last().filter(pred) =~= Seq::<u32>::empty());
        assert(!pred(m.last()));
    }
    assert(s.remove(idx) =~= a + b);
}

/// In a list without repetitions the first position of a member is its
/// position.
pub proof fn lemma_first_index(s: Seq<u32>, r: u32)
    requires
        s.no_duplicates(),
        s.contains(r),
    ensures
        s.index_of_first(r) == Some(s.index_of(r)),
{
    s.index_of_first_ensures(r);
    let i = s.index_of(r);
    let j = s.index_of_first(r)->Some_0;
    assert(s[i] == r);
    assert(s[j] == r);
}


/// `t` follows `s` by one command that takes every host mirroring `s` to
/// one mirroring `t`.
pub open spec fn mirrored_step(s: SessionModel, t: SessionModel) -> bool {
    &&& pushed_one(s.pending, t.pending)
    &&& forall|h: HostModel|
        mirrors(h, s) ==> (#[trigger] host_step(h, t.pending.last()) matches Ok(h2) && mirrors(
            h2,
            t,
        ))
}

proof fn lemma_replay_mirrored(h0: HostModel, s: SessionModel, t: SessionModel)
    requires
        replays(h0, s),
        mirrored_step(s, t),
    ensures
        replays(h0, t),
{
    lemma_replay_step(h0, s, t);
}

/// Creating a node: a host that replays the session accepts the creation
/// and shows the new detached node.
pub proof fn lemma_create_replays(h0: HostModel, s: SessionModel, t: SessionModel, n: u32)
    requires
        replays(h0, s),
        added_node(s.nodes, t.nodes, n),
        pushed_one(s.pending, t.pending),
        (is_create_element(t.pending.last(), n, t.nodes[n].kind->Element_0@) && t.nodes[n].kind is Element)
            || (is_create_raw_text(t.pending.last(), n, t.nodes[n].kind->RawText_0@)
            && t.nodes[n].kind is RawText),
        t.listeners == s.listeners,
        t.id == s.id,
        t.root == s.root,
    ensures
        replays(h0, t),
{
    assert forall|h: HostModel| mirrors(h, s) implies (#[trigger] host_step(h, t.pending.last()) matches Ok(
        h2,
    ) && mirrors(h2, t)) by {
        let h2 = host_step(h, t.pending.last())->Ok_0;
        assert(!h.nodes.contains_key(n));
        assert(h2.nodes.dom() =~= t.nodes.dom());
        assert(t.nodes[n].children@ =~= Seq::<u32>::empty());
        assert(h2.nodes[n] == node_view(t.nodes[n]));
        assert forall|k: u32| #[trigger] t.nodes.contains_key(k) implies h2.nodes[k] == node_view(
            t.nodes[k],
        ) by {
            if k != n {
                assert(s.nodes.contains_key(k));
            }
        }
    }
    lemma_replay_mirrored(h0, s, t);
}

/// Attaching a node where the session allows it: the host accepts the
/// attachment and shows the child at the same position.
pub proof fn lemma_insert_replays(
    h0: HostModel,
    s: SessionModel,
    t: SessionModel,
    parent: u32,
    child: u32,
    reference: Option<u32>,
)
    requires
        replays(h0, s),
        session_shape(s),
        insert_allowed(s.nodes, s.root, parent, child, reference),
        attached(s.nodes, t.nodes, parent, child, insert_index(s.nodes, parent, reference)),
        pushed_one(s.pending, t.pending),
        is_attach(t.pending.last(), parent, child, reference),
        t.listeners == s.listeners,
        t.id == s.id,
        t.root == s.root,
    ensures
        replays(h0, t),
{
    let ch = s.nodes[parent].children@;
    assert(children_ok(s.nodes, parent));
    match reference {
        Some(r) => {
            lemma_first_index(ch, r);
        },
        None => {},
    }
    assert forall|h: HostModel| mirrors(h, s) implies (#[trigger] host_step(h, t.pending.last()) matches Ok(
        h2,
    ) && mirrors(h2, t)) by {
        assert(h.nodes[parent] == node_view(s.nodes[parent]));
        assert(h.nodes[child] == node_view(s.nodes[child]));
        let h2 = host_step(h, t.pending.last())->Ok_0;
        assert(h2.nodes.dom() =~= t.nodes.dom());
        assert(h2.nodes[parent] == node_view(t.nodes[parent]));
        assert(h2.nodes[child] == node_view(t.nodes[child]));
        assert forall|k: u32| #[trigger] t.nodes.contains_key(k) implies h2.nodes[k] == node_view(
            t.nodes[k],
        ) by {
            if k != parent && k != child {
                assert(s.nodes.contains_key(k));
            }
        }
    }
    lemma_replay_mirrored(h0, s, t);
}

/// Detaching a child from its parent: the host accepts the removal and
/// shows the child detached.
pub proof fn lemma_remove_replays(h0: HostModel, s: SessionModel, t: SessionModel, parent: u32, child: u32)
    requires
        replays(h0, s),
        session_shape(s),
        s.nodes.contains_key(child),
        s.nodes[child].parent == Some(parent),
        detached(s.nodes, t.nodes, parent, child, s.nodes[parent].children@.index_of(child)),
        pushed_one(s.pending, t.pending),
        is_remove(t.pending.last(), parent, child),
        t.listeners == s.listeners,
        t.id == s.id,
        t.root == s.root,
    ensures
        replays(h0, t),
{
    assert(parent_ok(s.nodes, child));
    assert(children_ok(s.nodes, parent));
    let idx = s.nodes[parent].children@.index_of(child);
    lemma_filter_removes_once(s.nodes[parent].children@, idx);
    assert forall|h: HostModel| mirrors(h, s) implies (#[trigger] host_step(h, t.pending.last()) matches Ok(
        h2,
    ) && mirrors(h2, t)) by {
        assert(h.nodes[parent] == node_view(s.nodes[parent]));
        assert(h.nodes[child] == node_view(s.nodes[child]));
        let h2 = host_step(h, t.pending.last())->Ok_0;
        assert(h2.nodes.dom() =~= t.nodes.dom());
        assert(h2.nodes[parent] == node_view(t.nodes[parent]));
        assert(h2.nodes[child] == node_view(t.nodes[child]));
        assert forall|k: u32| #[trigger] t.nodes.contains_key(k) implies h2.nodes[k] == node_view(
            t.nodes[k],
        ) by {
            if k != parent && k != child {
                assert(s.nodes.contains_key(k));
            }
        }
    }
    lemma_replay_mirrored(h0, s, t);
}

/// Destroying a detached, childless node: the host accepts it and forgets
/// the node.
pub proof fn lemma_destroy_node_replays(h0: HostModel, s: SessionModel, t: SessionModel, node: u32)
    requires
        replays(h0, s),
        s.nodes.contains_key(node),
        node != s.root,
        s.nodes[node].parent is None,
        s.nodes[node].children@.len() == 0,
        t.nodes == s.nodes.remove(node),
        pushed_one(s.pending, t.pending),
        is_destroy(t.pending.last(), node),
        t.listeners == s.listeners,
        t.id == s.id,
        t.root == s.root,
    ensures
        replays(h0, t),
{
    assert forall|h: HostModel| mirrors(h, s) implies (#[trigger] host_step(h, t.pending.last()) matches Ok(
        h2,
    ) && mirrors(h2, t)) by {
        assert(h.nodes[node] == node_view(s.nodes[node]));
        let h2 = host_step(h, t.pending.last())->Ok_0;
        assert(h2.nodes.dom() =~= t.nodes.dom());
        assert forall|k: u32| #[trigger] t.nodes.contains_key(k) implies h2.nodes[k] == node_view(
            t.nodes[k],
        ) by {
            assert(s.nodes.contains_key(k));
        }
    }
    lemma_replay_mirrored(h0, s, t);
}

/// Setting or removing an attribute of an element: the host accepts it and
/// its tree and listeners stay as they were.
pub proof fn lemma_set_attribute_replays(
    h0: HostModel,
    s: SessionModel,
    t: SessionModel,
    node: u32,
    name: Seq<char>,
    value: Option<Seq<char>>,
)
    requires
        replays(h0, s),
        is_element(s.nodes, node),
        pushed_one(s.pending, t.pending),
        is_set_attribute(t.pending.last(), node, name, value),
        t.nodes == s.nodes,
        t.listeners == s.listeners,
        t.id == s.id,
        t.root == s.root,
    ensures
        replays(h0, t),
{
    assert forall|h: HostModel| mirrors(h, s) implies (#[trigger] host_step(h, t.pending.last()) matches Ok(
        h2,
    ) && mirrors(h2, t)) by {
        assert(h.nodes.contains_key(node));
    }
    lemma_replay_mirrored(h0, s, t);
}

/// Registering a listener under a fresh identifier: the host accepts it and
/// knows the new listener.
pub proof fn lemma_add_listener_replays(h0: HostModel, s: SessionModel, t: SessionModel)
    requires
        replays(h0, s),
        session_shape(s),
        t.listeners.len() == s.listeners.len() + 1,
        t.listeners.drop_last() == s.listeners,
        t.listeners.last().id == s.next_listener,
        pushed_one(s.pending, t.pending),
        is_add_listener(
            t.pending.last(),
            t.listeners.last().node,
            s.next_listener,
            t.listeners.last().callback@,
            t.listeners.last().name@,
        ),
        t.nodes == s.nodes,
        t.id == s.id,
        t.root == s.root,
    ensures
        replays(h0, t),
{
    let id = s.next_listener;
    assert(!has_listener(s.listeners, id)) by {
        if has_listener(s.listeners, id) {
            let i = choose|i: int| 0 <= i < s.listeners.len() && s.listeners[i].id == id;
            assert(s.listeners[i].id < s.next_listener);
        }
    }
    assert(listener_ids(t.listeners) =~= listener_ids(s.listeners).insert(id)) by {
        assert forall|x: u32| has_listener(t.listeners, x) <==> has_listener(s.listeners, x) || x == id by {
            if has_listener(s.listeners, x) {
                let i = choose|i: int| 0 <= i < s.listeners.len() && s.listeners[i].id == x;
                assert(t.listeners[i] == s.listeners[i]);
            }
            if x == id {
                assert(t.listeners[t.listeners.len() - 1].id == id);
            }
            if has_listener(t.listeners, x) {
                let i = choose|i: int| 0 <= i < t.listeners.len() && t.listeners[i].id == x;
                if i < s.listeners.len() {
                    assert(s.listeners[i] == t.listeners[i]);
                }
            }
        }
    }
    assert forall|h: HostModel| mirrors(h, s) implies (#[trigger] host_step(h, t.pending.last()) matches Ok(
        h2,
    ) && mirrors(h2, t)) by {
        assert(!h.listeners.contains(id));
    }
    lemma_replay_mirrored(h0, s, t);
}

/// Removing a registered listener: the host accepts it and forgets the
/// listener.
pub proof fn lemma_remove_listener_replays(h0: HostModel, s: SessionModel, t: SessionModel, pos: int)
    requires
        replays(h0, s),
        session_shape(s),
        0 <= pos < s.listeners.len(),
        t.listeners == s.listeners.remove(pos),
        pushed_one(s.pending, t.pending),
        is_remove_listener(
            t.pending.last(),
            s.listeners[pos].node,
            s.listeners[pos].id,
            s.listeners[pos].callback@,
            s.listeners[pos].name@,
        ),
        t.nodes == s.nodes,
        t.id == s.id,
        t.root == s.root,
    ensures
        replays(h0, t),
{
    let id = s.listeners[pos].id;
    assert(listener_ids(t.listeners) =~= listener_ids(s.listeners).remove(id)) by {
        assert forall|x: u32| has_listener(t.listeners, x) <==> has_listener(s.listeners, x) && x != id by {
            if has_listener(t.listeners, x) {
                let i = choose|i: int| 0 <= i < t.listeners.len() && t.listeners[i].id == x;
                let oi = if i < pos { i } else { i + 1 };
                assert(s.listeners[oi] == t.listeners[i]);
                assert(oi != pos);
            }
            if has_listener(s.listeners, x) && x != id {
                let i = choose|i: int| 0 <= i < s.listeners.len() && s.listeners[i].id == x;
                assert(i != pos);
                let ni = if i < pos { i } else { i - 1 };
                assert(t.listeners[ni] == s.listeners[i]);
            }
        }
    }
    assert forall|h: HostModel| mirrors(h, s) implies (#[trigger] host_step(h, t.pending.last()) matches Ok(
        h2,
    ) && mirrors(h2, t)) by {
        assert(has_listener(s.listeners, id));
        assert(h.listeners.contains(id));
    }
    lemma_replay_mirrored(h0, s, t);
}

/// Handing out the pending commands as a batch: a host that applies the
/// batch mirrors the session, and keeps replaying it from then on.
pub proof fn lemma_batch_replays(h0: HostModel, s: SessionModel, t: SessionModel)
    requires
        replays(h0, s),
        t.pending.len() == 0,
        t.nodes == s.nodes,
        t.listeners == s.listeners,
        t.id == s.id,
        t.root == s.root,
    ensures
        host_run(h0, s.pending) matches Ok(h) && mirrors(h, t) && replays(h, t),
{
    let h = host_run(h0, s.pending)->Ok_0;
    assert(t.pending =~= Seq::<Command>::empty());
    assert(host_run(h, t.pending) == Ok::<HostModel, (HostModel, crate::host::HostRefusal)>(h));
}

/// A fresh host mirrors a fresh session over the same root.
pub proof fn lemma_fresh_replays(s: SessionModel)
    requires
        s.nodes.dom() == set![s.root],
        s.nodes[s.root].kind is Root,
        s.nodes[s.root].parent is None,
        s.nodes[s.root].children@.len() == 0,
        s.listeners.len() == 0,
        s.pending.len() == 0,
    ensures
        replays(
            HostModel {
                session: s.id,
                root: s.root,
                nodes: map![s.root => fresh_node(KindView::Root)],
                attributes: Map::empty(),
                listeners: Set::empty(),
                commits: 0,
            },
            s,
        ),
{
    let h = HostModel {
        session: s.id,
        root: s.root,
        nodes: map![s.root => fresh_node(KindView::Root)],
        attributes: Map::empty(),
        listeners: Set::empty(),
        commits: 0,
    };
    assert(s.pending =~= Seq::<Command>::empty());
    assert(host_run(h, s.pending) == Ok::<HostModel, (HostModel, crate::host::HostRefusal)>(h));
    assert(s.nodes[s.root].children@ =~= Seq::<u32>::empty());
    assert(h.nodes.dom() =~= s.nodes.dom());
    assert(listener_ids(s.listeners) =~= Set::<u32>::empty());
}

/// The commit counter plays no part in mirroring: a host that has applied
/// every handed-out batch keeps replaying the session whatever it counted.
pub proof fn lemma_replay_any_commits(h: HostModel, s: SessionModel, commits: u32)
    requires
        replays(h, s),
        s.pending.len() == 0,
    ensures
        replays(HostModel { commits, ..h }, s),
{
    let h1 = HostModel { commits, ..h };
    assert(s.pending =~= Seq::<Command>::empty());
    assert(host_run(h, s.pending) == Ok::<HostModel, (HostModel, crate::host::HostRefusal)>(h));
    assert(host_run(h1, s.pending) == Ok::<HostModel, (HostModel, crate::host::HostRefusal)>(h1));
}

} // verus!

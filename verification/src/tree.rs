use vstd::prelude::*;

verus! {

/// What a node of the session tree is.
#[derive(Clone, Debug, PartialEq, Eq)]
pub enum NodeKind {
    Root,
    Element(String),
    RawText(String),
}

impl NodeKind {
    /// Whether the node is an element.
    pub fn is_element(&self) -> (r: bool)
        ensures
            r == (*self is Element),
    {
        match self {
            NodeKind::Element(_) => true,
            _ => false,
        }
    }
}

/// One node of the session tree: its kind, its parent and its ordered children.
#[derive(Debug)]
pub struct NodeState<K> {
    pub kind: NodeKind,
    pub parent: Option<K>,
    pub children: Vec<K>,
}

/// The `k`-th ancestor of `x` (`x` itself for `k == 0`), following parent links.
pub open spec fn anc_at<K>(nodes: Map<K, NodeState<K>>, x: K, k: nat) -> Option<K>
    decreases k,
{
    if k == 0 {
        Some(x)
    } else if nodes.contains_key(x) {
        match nodes[x].parent {
            Some(p) => anc_at(nodes, p, (k - 1) as nat),
            None => None,
        }
    } else {
        None
    }
}

/// `a` is `x` or lies on the parent chain of `x`.
pub open spec fn is_ancestor_or_self<K>(nodes: Map<K, NodeState<K>>, a: K, x: K) -> bool {
    exists|k: nat| anc_at(nodes, x, k) == Some(a)
}

pub open spec fn is_raw_text<K>(nodes: Map<K, NodeState<K>>, n: K) -> bool {
    nodes[n].kind is RawText
}

pub open spec fn is_element<K>(nodes: Map<K, NodeState<K>>, n: K) -> bool {
    nodes.contains_key(n) && nodes[n].kind is Element
}

/// The node is an element whose tag is `text`.
pub open spec fn is_text_element<K>(nodes: Map<K, NodeState<K>>, n: K) -> bool {
    nodes[n].kind matches NodeKind::Element(tag) && tag@ == "text"@
}

/// Every condition under which `insert_before` attaches `child` to `parent`.
pub open spec fn insert_allowed<K>(
    nodes: Map<K, NodeState<K>>,
    root: K,
    parent: K,
    child: K,
    reference: Option<K>,
) -> bool {
    &&& nodes.contains_key(parent)
    &&& nodes.contains_key(child)
    &&& !is_raw_text(nodes, parent)
    &&& child != root
    &&& nodes[child].parent is None
    &&& is_raw_text(nodes, child) ==> is_text_element(nodes, parent)
    &&& !is_ancestor_or_self(nodes, child, parent)
    &&& reference matches Some(r) ==> nodes[parent].children@.contains(r)
}

/// The position at which `insert_before` places the child.
pub open spec fn insert_index<K>(nodes: Map<K, NodeState<K>>, parent: K, reference: Option<K>) -> int {
    match reference {
        Some(r) => nodes[parent].children@.index_of(r),
        None => nodes[parent].children@.len() as int,
    }
}

/// `new` is `old` with one more detached, childless node `n`.
pub open spec fn added_node<K>(old: Map<K, NodeState<K>>, new: Map<K, NodeState<K>>, n: K) -> bool {
    &&& !old.contains_key(n)
    &&& new.dom() == old.dom().insert(n)
    &&& forall|k: K| #[trigger] old.contains_key(k) ==> new[k] == old[k]
    &&& new[n].parent is None
    &&& new[n].children@.len() == 0
}

/// `new` is `old` with `child` attached to `parent` at position `idx`.
pub open spec fn attached<K>(
    old: Map<K, NodeState<K>>,
    new: Map<K, NodeState<K>>,
    parent: K,
    child: K,
    idx: int,
) -> bool {
    &&& parent != child
    &&& new.dom() == old.dom()
    &&& new[parent].kind == old[parent].kind
    &&& new[parent].parent == old[parent].parent
    &&& new[parent].children@ == old[parent].children@.insert(idx, child)
    &&& new[child].kind == old[child].kind
    &&& new[child].children@ == old[child].children@
    &&& new[child].parent == Some(parent)
    &&& forall|k: K|
        #[trigger] old.contains_key(k) && k != parent && k != child ==> new[k] == old[k]
}

/// `new` is `old` with `child` detached from `parent`, where it sat at `idx`.
pub open spec fn detached<K>(
    old: Map<K, NodeState<K>>,
    new: Map<K, NodeState<K>>,
    parent: K,
    child: K,
    idx: int,
) -> bool {
    &&& parent != child
    &&& new.dom() == old.dom()
    &&& 0 <= idx < old[parent].children@.len()
    &&& old[parent].children@[idx] == child
    &&& new[parent].kind == old[parent].kind
    &&& new[parent].parent == old[parent].parent
    &&& new[parent].children@ == old[parent].children@.remove(idx)
    &&& new[child].kind == old[child].kind
    &&& new[child].children@ == old[child].children@
    &&& new[child].parent is None
    &&& forall|k: K|
        #[trigger] old.contains_key(k) && k != parent && k != child ==> new[k] == old[k]
}

/// `x` lies in the subtree below `c` (or is `c`).
pub open spec fn in_sub<K>(nodes: Map<K, NodeState<K>>, depth: Map<K, nat>, c: K, x: K) -> bool {
    &&& nodes.contains_key(x)
    &&& depth[x] >= depth[c]
    &&& anc_at(nodes, x, (depth[x] - depth[c]) as nat) == Some(c)
}

pub proof fn lemma_anc_at<K>(
    nodes: Map<K, NodeState<K>>,
    root: K,
    depth: Map<K, nat>,
    bound: nat,
    x: K,
    k: nat,
)
    requires
        tree_ok(nodes, root, depth, bound),
        nodes.contains_key(x),
    ensures
        k <= depth[x] ==> (anc_at(nodes, x, k) matches Some(y) && nodes.contains_key(y) && depth[y]
            == depth[x] - k),
        k > depth[x] ==> anc_at(nodes, x, k) is None,
    decreases k,
{
    if k != 0 {
        assert(depth_ok(nodes, depth, bound, x));
        assert(parent_ok(nodes, x));
        match nodes[x].parent {
            Some(p) => {
                lemma_anc_at(nodes, root, depth, bound, p, (k - 1) as nat);
            },
            None => {},
        }
    }
}

pub proof fn lemma_sub_step<K>(
    nodes: Map<K, NodeState<K>>,
    root: K,
    depth: Map<K, nat>,
    bound: nat,
    c: K,
    x: K,
    p: K,
)
    requires
        tree_ok(nodes, root, depth, bound),
        nodes.contains_key(x),
        nodes.contains_key(c),
        nodes[x].parent == Some(p),
        x != c,
    ensures
        in_sub(nodes, depth, c, x) <==> in_sub(nodes, depth, c, p),
{
    assert(depth_ok(nodes, depth, bound, x));
    assert(parent_ok(nodes, x));
    if in_sub(nodes, depth, c, x) {
        let j = (depth[x] - depth[c]) as nat;
        if j == 0 {
            assert(anc_at(nodes, x, 0) == Some(x));
        }
        assert(anc_at(nodes, x, j) == anc_at(nodes, p, (j - 1) as nat));
    }
    if in_sub(nodes, depth, c, p) {
        let j = (depth[p] - depth[c]) as nat;
        assert(anc_at(nodes, x, j + 1) == anc_at(nodes, p, j));
        assert((depth[x] - depth[c]) as nat == j + 1);
    }
}

pub open spec fn attach_depth<K>(
    nodes: Map<K, NodeState<K>>,
    depth: Map<K, nat>,
    parent: K,
    child: K,
) -> Map<K, nat> {
    Map::new(
        |x: K| nodes.contains_key(x),
        |x: K|
            if in_sub(nodes, depth, child, x) {
                depth[x] + depth[parent] + 1
            } else {
                depth[x]
            },
    )
}

pub open spec fn detach_depth<K>(nodes: Map<K, NodeState<K>>, depth: Map<K, nat>, child: K) -> Map<
    K,
    nat,
> {
    Map::new(
        |x: K| nodes.contains_key(x),
        |x: K|
            if in_sub(nodes, depth, child, x) {
                (depth[x] - depth[child]) as nat
            } else {
                depth[x]
            },
    )
}

pub proof fn lemma_anc_shift<K>(nodes: Map<K, NodeState<K>>, x: K, n: K, k: nat)
    requires
        anc_at(nodes, x, k) == Some(n),
    ensures
        anc_at(nodes, x, k + 1) == anc_at(nodes, n, 1),
    decreases k,
{
    if k != 0 {
        match nodes[x].parent {
            Some(p) => {
                lemma_anc_shift(nodes, p, n, (k - 1) as nat);
            },
            None => {},
        }
    }
}

pub proof fn lemma_anc_none_after<K>(nodes: Map<K, NodeState<K>>, x: K, k: nat, j: nat)
    requires
        anc_at(nodes, x, k) is None,
        k <= j,
    ensures
        anc_at(nodes, x, j) is None,
    decreases k,
{
    if k != 0 && nodes.contains_key(x) {
        match nodes[x].parent {
            Some(p) => {
                lemma_anc_none_after(nodes, p, (k - 1) as nat, (j - 1) as nat);
            },
            None => {},
        }
    }
}

pub proof fn lemma_anc_compose<K>(nodes: Map<K, NodeState<K>>, x: K, y: K, z: K, a: nat, b: nat)
    requires
        anc_at(nodes, x, a) == Some(y),
        anc_at(nodes, y, b) == Some(z),
    ensures
        anc_at(nodes, x, a + b) == Some(z),
    decreases a,
{
    if a != 0 {
        match nodes[x].parent {
            Some(p) => {
                lemma_anc_compose(nodes, p, y, z, (a - 1) as nat, b);
            },
            None => {},
        }
    }
}

/// A set closed under "child of" that contains `n` holds every node below `n`.
pub proof fn lemma_subtree_down<K>(nodes: Map<K, NodeState<K>>, n: K, removed: Set<K>, x: K, k: nat)
    requires
        is_subtree_set(nodes, n, removed),
        anc_at(nodes, x, k) == Some(n),
    ensures
        removed.contains(x),
    decreases k,
{
    if k != 0 {
        match nodes[x].parent {
            Some(p) => {
                lemma_subtree_down(nodes, n, removed, p, (k - 1) as nat);
                assert(nodes.contains_key(x));
            },
            None => {},
        }
    }
}

/// Every node of such a set lies below `n`.
pub proof fn lemma_subtree_up<K>(
    nodes: Map<K, NodeState<K>>,
    root: K,
    depth: Map<K, nat>,
    bound: nat,
    n: K,
    removed: Set<K>,
    x: K,
)
    requires
        tree_ok(nodes, root, depth, bound),
        is_subtree_set(nodes, n, removed),
        removed.contains(x),
    ensures
        is_ancestor_or_self(nodes, n, x),
    decreases depth[x],
{
    assert(nodes.contains_key(x));
    assert(depth_ok(nodes, depth, bound, x));
    if x == n {
        assert(anc_at(nodes, x, 0) == Some(n));
    } else {
        let p = nodes[x].parent.unwrap();
        assert(parent_ok(nodes, x));
        lemma_subtree_up(nodes, root, depth, bound, n, removed, p);
        let k = choose|k: nat| anc_at(nodes, p, k) == Some(n);
        assert(anc_at(nodes, x, 1) == Some(p)) by {
            assert(anc_at(nodes, p, 0) == Some(p));
        }
        lemma_anc_compose(nodes, x, p, n, 1, k);
    }
}

/// A childless node has nothing below it.
pub proof fn lemma_leaf_sub<K>(
    nodes: Map<K, NodeState<K>>,
    root: K,
    depth: Map<K, nat>,
    bound: nat,
    n: K,
    x: K,
)
    requires
        tree_ok(nodes, root, depth, bound),
        nodes.contains_key(n),
        nodes[n].children@.len() == 0,
        nodes.contains_key(x),
        x != n,
    ensures
        !in_sub(nodes, depth, n, x),
{
    if in_sub(nodes, depth, n, x) {
        let d = (depth[x] - depth[n]) as nat;
        assert(anc_at(nodes, x, 0) == Some(x));
        assert(d >= 1);
        lemma_anc_at(nodes, root, depth, bound, x, (d - 1) as nat);
        let y = anc_at(nodes, x, (d - 1) as nat).unwrap();
        lemma_anc_shift(nodes, x, y, (d - 1) as nat);
        assert(depth_ok(nodes, depth, bound, y));
        assert(parent_ok(nodes, y));
        match nodes[y].parent {
            Some(q) => {
                assert(anc_at(nodes, q, 0) == Some(q));
                assert(q == n);
                assert(nodes[n].children@.contains(y));
            },
            None => {},
        }
    }
}

pub proof fn lemma_attach<K>(
    old: Map<K, NodeState<K>>,
    new: Map<K, NodeState<K>>,
    root: K,
    depth: Map<K, nat>,
    bound: nat,
    parent: K,
    child: K,
    idx: int,
)
    requires
        tree_ok(old, root, depth, bound),
        old.contains_key(parent),
        old.contains_key(child),
        child != root,
        old[child].parent is None,
        !is_ancestor_or_self(old, child, parent),
        0 <= idx <= old[parent].children@.len(),
        attached(old, new, parent, child, idx),
    ensures
        tree_ok(new, root, attach_depth(old, depth, parent, child), bound + bound),
{
    let d2 = attach_depth(old, depth, parent, child);
    let b2 = bound + bound;
    assert(depth_ok(old, depth, bound, child));
    assert(depth_ok(old, depth, bound, parent));
    assert(anc_at(old, parent, 0) == Some(parent));
    assert(anc_at(old, child, 0) == Some(child));
    assert(in_sub(old, depth, child, child));
    assert(!in_sub(old, depth, child, parent)) by {
        if in_sub(old, depth, child, parent) {
            let k = (depth[parent] - depth[child]) as nat;
            assert(anc_at(old, parent, k) == Some(child));
        }
    }
    assert(children_ok(old, parent));
    assert(!old[parent].children@.contains(child)) by {
        if old[parent].children@.contains(child) {
            let i = choose|i: int|
                0 <= i < old[parent].children@.len() && old[parent].children@[i] == child;
            assert(old[old[parent].children@[i]].parent == Some(parent));
        }
    }
    assert forall|k: K| #[trigger] new.contains_key(k) implies parent_ok(new, k) && children_ok(
        new,
        k,
    ) && depth_ok(new, d2, b2, k) by {
        assert(old.contains_key(k));
        assert(depth_ok(old, depth, bound, k));
        assert(parent_ok(old, k));
        assert(children_ok(old, k));
        // depth
        if k != child {
            match old[k].parent {
                Some(p) => {
                    lemma_sub_step(old, root, depth, bound, child, k, p);
                    assert(depth_ok(old, depth, bound, p));
                },
                None => {
                    assert(anc_at(old, k, 0) == Some(k));
                },
            }
        }
        // parent links
        match new[k].parent {
            Some(p) => {
                if k != child {
                    assert(old[k].parent == Some(p));
                    assert(old[p].children@.contains(k));
                    if p == parent {
                        let i = choose|i: int|
                            0 <= i < old[p].children@.len() && old[p].children@[i] == k;
                        if i < idx {
                            assert(new[p].children@[i] == k);
                        } else {
                            assert(new[p].children@[i + 1] == k);
                        }
                    }
                } else {
                    assert(new[parent].children@[idx] == child);
                }
            },
            None => {},
        }
        // child links
        if k == parent {
            let cs = old[parent].children@;
            let ns = new[parent].children@;
            assert forall|i: int, j: int| 0 <= i < ns.len() && 0 <= j < ns.len() && i != j implies ns[i]
                != ns[j] by {
                if i < idx && j < idx {
                } else if i > idx && j > idx {
                    assert(ns[i] == cs[i - 1]);
                    assert(ns[j] == cs[j - 1]);
                } else if i == idx {
                    if j < idx {
                        assert(cs.contains(ns[j]));
                    } else {
                        assert(ns[j] == cs[j - 1]);
                        assert(cs.contains(ns[j]));
                    }
                } else if j == idx {
                    if i < idx {
                        assert(cs.contains(ns[i]));
                    } else {
                        assert(ns[i] == cs[i - 1]);
                        assert(cs.contains(ns[i]));
                    }
                } else if i < idx {
                    assert(ns[j] == cs[j - 1]);
                } else {
                    assert(ns[i] == cs[i - 1]);
                }
            }
            assert forall|i: int| 0 <= i < ns.len() implies new.contains_key(#[trigger] ns[i])
                && new[ns[i]].parent == Some(parent) by {
                if i == idx {
                } else {
                    let ch = if i < idx {
                        cs[i]
                    } else {
                        cs[i - 1]
                    };
                    assert(ns[i] == ch);
                    assert(old[ch].parent == Some(parent));
                    assert(depth_ok(old, depth, bound, ch));
                }
            }
        } else {
            let cs = old[k].children@;
            assert(new[k].children@ == cs);
            assert forall|i: int| 0 <= i < cs.len() implies new.contains_key(#[trigger] cs[i])
                && new[cs[i]].parent == Some(k) by {
                let ch = cs[i];
                assert(old[ch].parent == Some(k));
                assert(ch != child);
            }
        }
    }
}

pub proof fn lemma_detach<K>(
    old: Map<K, NodeState<K>>,
    new: Map<K, NodeState<K>>,
    root: K,
    depth: Map<K, nat>,
    bound: nat,
    parent: K,
    child: K,
    idx: int,
)
    requires
        tree_ok(old, root, depth, bound),
        old.contains_key(parent),
        old.contains_key(child),
        old[child].parent == Some(parent),
        child != root,
        detached(old, new, parent, child, idx),
    ensures
        tree_ok(new, root, detach_depth(old, depth, child), bound),
{
    let d2 = detach_depth(old, depth, child);
    assert(depth_ok(old, depth, bound, child));
    assert(depth_ok(old, depth, bound, parent));
    assert(anc_at(old, child, 0) == Some(child));
    assert(in_sub(old, depth, child, child));
    assert(!in_sub(old, depth, child, parent));
    assert(children_ok(old, parent));
    assert forall|k: K| #[trigger] new.contains_key(k) implies parent_ok(new, k) && children_ok(
        new,
        k,
    ) && depth_ok(new, d2, bound, k) by {
        assert(old.contains_key(k));
        assert(depth_ok(old, depth, bound, k));
        assert(parent_ok(old, k));
        assert(children_ok(old, k));
        if k != child {
            match old[k].parent {
                Some(p) => {
                    lemma_sub_step(old, root, depth, bound, child, k, p);
                    assert(depth_ok(old, depth, bound, p));
                },
                None => {
                    assert(anc_at(old, k, 0) == Some(k));
                },
            }
        }
        match new[k].parent {
            Some(p) => {
                assert(k != child);
                assert(old[k].parent == Some(p));
                assert(old[p].children@.contains(k));
                if p == parent {
                    let cs = old[p].children@;
                    let i = choose|i: int| 0 <= i < cs.len() && cs[i] == k;
                    assert(i != idx);
                    if i < idx {
                        assert(new[p].children@[i] == k);
                    } else {
                        assert(new[p].children@[i - 1] == k);
                    }
                }
            },
            None => {},
        }
        if k == parent {
            let cs = old[parent].children@;
            let ns = new[parent].children@;
            assert forall|i: int, j: int| 0 <= i < ns.len() && 0 <= j < ns.len() && i != j implies ns[i]
                != ns[j] by {
                let oi = if i < idx {
                    i
                } else {
                    i + 1
                };
                let oj = if j < idx {
                    j
                } else {
                    j + 1
                };
                assert(ns[i] == cs[oi]);
                assert(ns[j] == cs[oj]);
            }
            assert forall|i: int| 0 <= i < ns.len() implies new.contains_key(#[trigger] ns[i])
                && new[ns[i]].parent == Some(parent) by {
                let oi = if i < idx {
                    i
                } else {
                    i + 1
                };
                assert(ns[i] == cs[oi]);
                assert(cs[oi] != child);
                assert(old[cs[oi]].parent == Some(parent));
                assert(depth_ok(old, depth, bound, cs[oi]));
            }
        } else {
            let cs = old[k].children@;
            assert forall|i: int| 0 <= i < cs.len() implies new.contains_key(#[trigger] cs[i])
                && new[cs[i]].parent == Some(k) by {
                let ch = cs[i];
                assert(old[ch].parent == Some(k));
                if ch == parent {
                    assert(depth_ok(old, depth, bound, ch));
                }
            }
        }
    }
}

/// `x` is attached below the root (and is not the root itself).
pub open spec fn under_root<K>(nodes: Map<K, NodeState<K>>, root: K, x: K) -> bool {
    x != root && is_ancestor_or_self(nodes, root, x)
}

/// Every node attached below the root.
pub open spec fn attached_below_root<K>(nodes: Map<K, NodeState<K>>, root: K) -> Set<K> {
    Set::new(|x: K| nodes.contains_key(x) && under_root(nodes, root, x))
}

/// `removed` is exactly the subtree of `n`: it holds `n`, every node whose parent
/// it holds, and nothing else reachable only from outside.
pub open spec fn is_subtree_set<K>(nodes: Map<K, NodeState<K>>, n: K, removed: Set<K>) -> bool {
    &&& removed.contains(n)
    &&& forall|x: K| #[trigger] removed.contains(x) ==> nodes.contains_key(x)
    &&& forall|x: K|
        #[trigger] nodes.contains_key(x) && (nodes[x].parent matches Some(p) && removed.contains(
            p,
        )) ==> removed.contains(x)
    &&& forall|x: K|
        #[trigger] removed.contains(x) ==> x == n || (nodes[x].parent matches Some(p)
            && removed.contains(p))
}

pub open spec fn parent_ok<K>(nodes: Map<K, NodeState<K>>, k: K) -> bool {
    match nodes[k].parent {
        Some(p) => nodes.contains_key(p) && nodes[p].children@.contains(k),
        None => true,
    }
}

pub open spec fn children_ok<K>(nodes: Map<K, NodeState<K>>, k: K) -> bool {
    &&& nodes[k].children@.no_duplicates()
    &&& forall|i: int|
        0 <= i < nodes[k].children@.len() ==> nodes.contains_key(#[trigger] nodes[k].children@[i])
            && nodes[nodes[k].children@[i]].parent == Some(k)
}

pub open spec fn depth_ok<K>(nodes: Map<K, NodeState<K>>, depth: Map<K, nat>, bound: nat, k: K) -> bool {
    &&& depth.contains_key(k)
    &&& depth[k] < bound
    &&& match nodes[k].parent {
        None => depth[k] == 0,
        Some(p) => depth.contains_key(p) && depth[k] == depth[p] + 1,
    }
}

/// The tree shape: the root exists, parent and child links agree, and every
/// node has a finite depth (so there is no cycle).
pub open spec fn tree_ok<K>(nodes: Map<K, NodeState<K>>, root: K, depth: Map<K, nat>, bound: nat) -> bool {
    &&& nodes.contains_key(root)
    &&& nodes[root].kind is Root
    &&& nodes[root].parent is None
    &&& forall|k: K| #[trigger] nodes.contains_key(k) && k != root ==> !(nodes[k].kind is Root)
    &&& forall|k: K| #[trigger] nodes.contains_key(k) ==> parent_ok(nodes, k)
    &&& forall|k: K| #[trigger] nodes.contains_key(k) ==> children_ok(nodes, k)
    &&& forall|k: K| #[trigger] nodes.contains_key(k) ==> depth_ok(nodes, depth, bound, k)
}

/// A copy of a children list.
pub fn copy_children<K: Copy>(v: &Vec<K>) -> (r: Vec<K>)
    ensures
        r@ == v@,
{
    let mut r: Vec<K> = Vec::new();
    let mut i: usize = 0;
    while i < v.len()
        invariant
            i <= v@.len(),
            r@ == v@.subrange(0, i as int),
        decreases v@.len() - i,
    {
        r.push(v[i]);
        i = i + 1;
    }
    proof {
        assert(r@ =~= v@);
    }
    r
}



} // verus!

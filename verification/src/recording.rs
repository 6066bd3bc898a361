use std::collections::HashMap;
use vstd::prelude::*;
use vstd::string::StringExecFns;

use crate::ids::CallbackId;
use crate::protocol::{
    is_flush, mutation_error, operations_error, operations_error_from, valid_attribute_name, valid_attribute_name_spec, valid_tag,
    valid_tag_spec, FiberMutation, ProtocolError, ProtocolErrorView, SuccessResponse,
    JS_MAX_SAFE_INTEGER, PROTOCOL_VERSION,
};
use crate::text::{copy_string, decimal_spec, message_with, message_with_two, owned, str_eq};
use crate::tree::{
    anc_at, attach_depth, attached, children_ok, depth_ok, detach_depth, detached,
    insert_allowed, insert_index, is_ancestor_or_self, is_raw_text, is_text_element, lemma_anc_at, lemma_anc_none_after,
    lemma_anc_shift, lemma_attach, lemma_detach, parent_ok, tree_ok, NodeKind, NodeState,
};

verus! {

broadcast use vstd::std_specs::hash::group_hash_axioms;

/// Why the recording backend refused an operation.
#[derive(Clone, Debug, PartialEq, Eq)]
pub enum BackendError {
    InvalidRoot(u64),
    InvalidNode(u64),
    InvalidListener(u64),
    EventMismatch { listener: u64, expected: String, actual: String },
    InvalidMutation(String),
    IdExhausted(&'static str),
    Protocol(ProtocolError),
}

/// A backend error as plain values.
pub enum BackendErrorView {
    InvalidRoot(u64),
    InvalidNode(u64),
    InvalidListener(u64),
    EventMismatch { listener: u64, expected: Seq<char>, actual: Seq<char> },
    InvalidMutation(Seq<char>),
    IdExhausted(Seq<char>),
    Protocol(ProtocolErrorView),
}

impl View for BackendError {
    type V = BackendErrorView;

    open spec fn view(&self) -> BackendErrorView {
        match self {
            BackendError::InvalidRoot(n) => BackendErrorView::InvalidRoot(*n),
            BackendError::InvalidNode(n) => BackendErrorView::InvalidNode(*n),
            BackendError::InvalidListener(n) => BackendErrorView::InvalidListener(*n),
            BackendError::EventMismatch { listener, expected, actual } => BackendErrorView::EventMismatch {
                listener: *listener,
                expected: expected@,
                actual: actual@,
            },
            BackendError::InvalidMutation(m) => BackendErrorView::InvalidMutation(m@),
            BackendError::IdExhausted(k) => BackendErrorView::IdExhausted(k@),
            BackendError::Protocol(e) => BackendErrorView::Protocol(e@),
        }
    }
}

impl ProtocolError {
    /// A copy with the same view.
    pub fn copy(&self) -> (r: ProtocolError)
        ensures
            r@ == self@,
    {
        match self {
            ProtocolError::Json(m) => ProtocolError::Json(copy_string(m)),
            ProtocolError::UnsupportedVersion(v) => ProtocolError::UnsupportedVersion(*v),
            ProtocolError::InvalidSuccessFlag => ProtocolError::InvalidSuccessFlag,
            ProtocolError::InvalidFailureFlag => ProtocolError::InvalidFailureFlag,
            ProtocolError::ZeroFailureStatus => ProtocolError::ZeroFailureStatus,
            ProtocolError::ZeroId(f) => ProtocolError::ZeroId(f),
            ProtocolError::UnsafeId(f, v) => ProtocolError::UnsafeId(f, *v),
            ProtocolError::InvalidName(f) => ProtocolError::InvalidName(f),
            ProtocolError::InvalidEvent(e) => ProtocolError::InvalidEvent(copy_string(e)),
            ProtocolError::MissingFlush => ProtocolError::MissingFlush,
            ProtocolError::MultipleFlushes => ProtocolError::MultipleFlushes,
            ProtocolError::FlushNotFinal => ProtocolError::FlushNotFinal,
        }
    }
}

impl BackendError {
    /// A copy with the same view.
    pub fn copy(&self) -> (r: BackendError)
        ensures
            r@ == self@,
    {
        match self {
            BackendError::InvalidRoot(n) => BackendError::InvalidRoot(*n),
            BackendError::InvalidNode(n) => BackendError::InvalidNode(*n),
            BackendError::InvalidListener(n) => BackendError::InvalidListener(*n),
            BackendError::EventMismatch { listener, expected, actual } => BackendError::EventMismatch {
                listener: *listener,
                expected: copy_string(expected),
                actual: copy_string(actual),
            },
            BackendError::InvalidMutation(m) => BackendError::InvalidMutation(copy_string(m)),
            BackendError::IdExhausted(k) => BackendError::IdExhausted(k),
            BackendError::Protocol(e) => BackendError::Protocol(e.copy()),
        }
    }
}

/// One registered listener; `callback` names the closure that the caller
/// runs when the listener's event is dispatched.
#[derive(Debug)]
pub struct RecordedListener {
    pub id: u64,
    pub node: u64,
    pub name: String,
    pub callback: CallbackId,
}

/// The abstract state of a recording backend.
pub struct RecordingModel {
    pub root: u64,
    pub next_node: u64,
    pub next_listener: u64,
    pub nodes: Map<u64, NodeState<u64>>,
    pub listeners: Seq<RecordedListener>,
    pub pending: Seq<FiberMutation>,
    pub poisoned: bool,
    pub error: Option<BackendErrorView>,
}

/// A renderer backend that validates every mutation against its own tree and
/// records the accepted ones for the next response.  Its first refused
/// mutation poisons it for good.
pub struct RecordingBackend {
    root: u64,
    next_node: u64,
    next_listener: u64,
    nodes: HashMap<u64, NodeState<u64>>,
    listeners: Vec<RecordedListener>,
    pending: Vec<FiberMutation>,
    poisoned: bool,
    error: Option<BackendError>,
    depth: Ghost<Map<u64, nat>>,
    bound: Ghost<nat>,
}

/// `new` is `old` poisoned by its first error: pending mutations dropped and
/// the error kept.
pub open spec fn poisoned_from(old: RecordingModel, new: RecordingModel) -> bool {
    &&& new.poisoned
    &&& new.error is Some
    &&& new == (RecordingModel {
        poisoned: true,
        pending: Seq::empty(),
        error: new.error,
        ..old
    })
}

/// A poisoned backend stays exactly as it is: the error it answers with is
/// the first one, and nothing more is recorded.
pub open spec fn stays_poisoned(before: RecordingModel, after: RecordingModel) -> bool {
    before.poisoned ==> after == before
}

/// Once a backend is poisoned, any run of the calls that keep a poisoned
/// backend as it is (`take_response`, `flush` and every mutation) leaves it
/// as it was when first poisoned: every later `take_response` and `dispatch`
/// answers with that first error.
pub proof fn lemma_poison_is_permanent(models: Seq<RecordingModel>)
    requires
        models.len() > 0,
        models[0].poisoned,
        forall|i: int| 0 <= i < models.len() - 1 ==> stays_poisoned(#[trigger] models[i], models[i + 1]),
    ensures
        forall|i: int| 0 <= i < models.len() ==> #[trigger] models[i] == models[0],
{
    assert forall|i: int| 0 <= i < models.len() implies #[trigger] models[i] == models[0] by {
        lemma_poison_upto(models, i);
    }
}

proof fn lemma_poison_upto(models: Seq<RecordingModel>, i: int)
    requires
        0 <= i < models.len(),
        models[0].poisoned,
        forall|j: int| 0 <= j < models.len() - 1 ==> stays_poisoned(#[trigger] models[j], models[j + 1]),
    ensures
        models[i] == models[0],
    decreases i,
{
    if i > 0 {
        lemma_poison_upto(models, i - 1);
        assert(stays_poisoned(models[i - 1], models[i]));
    }
}

/// The backend was poisoned by a mutation refused with `message`.
pub open spec fn refused_with(m: RecordingModel, message: Seq<char>) -> bool {
    m.error == Some(BackendErrorView::InvalidMutation(message))
}

/// The refusal of an `insert_before` that breaks a tree rule, named after
/// the first rule it breaks.
pub open spec fn insert_refusal(
    nodes: Map<u64, NodeState<u64>>,
    root: u64,
    parent: u64,
    child: u64,
    reference: Option<u64>,
) -> Seq<char> {
    if is_raw_text(nodes, parent) {
        "raw-text node "@ + decimal_spec(parent as nat) + " cannot be a parent"@
    } else if is_raw_text(nodes, child) && !is_text_element(nodes, parent) {
        "raw-text node "@ + decimal_spec(child as nat) + " must be attached to a text element"@
    } else if child == root || nodes[child].parent is Some {
        "node "@ + decimal_spec(child as nat) + " is not detached"@
    } else if is_ancestor_or_self(nodes, child, parent) {
        "inserting node "@ + decimal_spec(child as nat) + " under "@ + decimal_spec(parent as nat)
            + " would create a cycle"@
    } else {
        "reference node "@ + decimal_spec(reference->0 as nat) + " is not a child of "@ + decimal_spec(
            parent as nat,
        )
    }
}

/// The identifier allocation: the identifier, if any, and the next counter;
/// the counter wraps to zero after the largest safe integer, and the root's
/// identifier is skipped.
/// Every recorded mutation is valid on its own and none is a flush: a
/// response built from them and one final flush always validates.
pub open spec fn recorded_ok(pending: Seq<FiberMutation>) -> bool {
    forall|i: int| 0 <= i < pending.len() ==> mutation_error(#[trigger] pending[i]) is None && !is_flush(pending[i])
}

proof fn lemma_valid_from(ops: Seq<FiberMutation>, i: int)
    requires
        0 <= i <= ops.len(),
        ops.len() > 0,
        recorded_ok(ops.drop_last()),
        is_flush(ops.last()),
        mutation_error(ops.last()) is None,
    ensures
        operations_error_from(ops, i) is None,
    decreases ops.len() - i,
{
    if i < ops.len() {
        if i < ops.len() - 1 {
            assert(ops.drop_last()[i] == ops[i]);
        }
        lemma_valid_from(ops, i + 1);
    }
}

/// Recorded mutations closed by one flush of a valid root form a valid
/// response.
pub proof fn lemma_recorded_then_flush(pending: Seq<FiberMutation>, root: u64)
    requires
        recorded_ok(pending),
        0 < root <= JS_MAX_SAFE_INTEGER,
    ensures
        operations_error(pending.push(FiberMutation::Flush { root }), false) is None,
{
    let ops = pending.push(FiberMutation::Flush { root });
    assert(ops.drop_last() =~= pending);
    lemma_valid_from(ops, 0);
}

pub open spec fn alloc_id(next: u64, root: u64) -> (Option<u64>, u64) {
    if next == 0 || next > JS_MAX_SAFE_INTEGER {
        (None, next)
    } else {
        let n1: u64 = if next == JS_MAX_SAFE_INTEGER {
            0
        } else {
            (next + 1) as u64
        };
        if next != root {
            (Some(next), n1)
        } else if n1 == 0 {
            (None, n1)
        } else {
            (Some(n1), if n1 == JS_MAX_SAFE_INTEGER {
                0u64
            } else {
                (n1 + 1) as u64
            })
        }
    }
}

pub open spec fn next_listener_id(next: u64) -> u64 {
    if next == JS_MAX_SAFE_INTEGER {
        0
    } else {
        (next + 1) as u64
    }
}

pub open spec fn listener_index(ls: Seq<RecordedListener>, id: u64) -> int {
    choose|i: int| 0 <= i < ls.len() && ls[i].id == id
}

pub open spec fn has_listener_id(ls: Seq<RecordedListener>, id: u64) -> bool {
    exists|i: int| 0 <= i < ls.len() && ls[i].id == id
}

pub open spec fn node_listens(ls: Seq<RecordedListener>, node: u64) -> bool {
    exists|i: int| 0 <= i < ls.len() && ls[i].node == node
}

pub open spec fn node_listens_to(ls: Seq<RecordedListener>, node: u64, name: Seq<char>) -> bool {
    exists|i: int| 0 <= i < ls.len() && ls[i].node == node && ls[i].name@ == name
}

/// `new` is `old` with `m` recorded.
pub open spec fn recorded(old: Seq<FiberMutation>, new: Seq<FiberMutation>, m: FiberMutation) -> bool {
    new == old.push(m)
}

impl View for RecordingBackend {
    type V = RecordingModel;

    closed spec fn view(&self) -> RecordingModel {
        RecordingModel {
            root: self.root,
            next_node: self.next_node,
            next_listener: self.next_listener,
            nodes: self.nodes@,
            listeners: self.listeners@,
            pending: self.pending@,
            poisoned: self.poisoned,
            error: match self.error {
                Some(e) => Some(e@),
                None => None,
            },
        }
    }
}

impl RecordingBackend {
    /// The backend invariant: a well-formed tree below the root, listeners in
    /// ascending identifier order below the counter, and an error exactly
    /// when poisoned, with nothing pending then.
    pub closed spec fn wf(&self) -> bool {
        &&& 0 < self.root <= JS_MAX_SAFE_INTEGER
        &&& tree_ok(self.nodes@, self.root, self.depth@, self.bound@)
        &&& self.poisoned <==> self.error is Some
        &&& self.poisoned ==> self.pending@.len() == 0
        &&& forall|i: int, j: int|
            0 <= i < j < self.listeners@.len() ==> self.listeners@[i].id < self.listeners@[j].id
        &&& forall|i: int|
            0 <= i < self.listeners@.len() ==> (#[trigger] self.listeners@[i]).id != 0 && (
            self.next_listener == 0 || self.listeners@[i].id < self.next_listener)
        &&& forall|k: u64| #[trigger] self.nodes@.contains_key(k) ==> 0 < k <= JS_MAX_SAFE_INTEGER
        &&& forall|i: int|
            0 <= i < self.listeners@.len() ==> (#[trigger] self.listeners@[i]).id
                <= JS_MAX_SAFE_INTEGER && 0 < self.listeners@[i].node <= JS_MAX_SAFE_INTEGER
        &&& recorded_ok(self.pending@)
    }

    /// A backend whose tree holds only `root`; the root must be a positive
    /// JavaScript-safe integer.
    pub fn new(root: u64) -> (r: Result<RecordingBackend, BackendError>)
        ensures
            (root == 0 || root > JS_MAX_SAFE_INTEGER) ==> (r matches Err(e) && e@
                == BackendErrorView::InvalidRoot(root)),
            0 < root <= JS_MAX_SAFE_INTEGER ==> (r matches Ok(b) && b.wf() && b@.root == root
                && b@.next_node == 1 && b@.next_listener == 1 && b@.nodes.dom() == set![root]
                && b@.nodes[root].kind is Root && b@.nodes[root].parent is None
                && b@.nodes[root].children@.len() == 0 && b@.listeners.len() == 0
                && b@.pending.len() == 0 && !b@.poisoned),
    {
        if root == 0 || root > JS_MAX_SAFE_INTEGER {
            return Err(BackendError::InvalidRoot(root));
        }
        let mut nodes: HashMap<u64, NodeState<u64>> = HashMap::new();
        nodes.insert(root, NodeState { kind: NodeKind::Root, parent: None, children: Vec::new() });
        let b = RecordingBackend {
            root,
            next_node: 1,
            next_listener: 1,
            nodes,
            listeners: Vec::new(),
            pending: Vec::new(),
            poisoned: false,
            error: None,
            depth: Ghost(Map::empty().insert(root, 0nat)),
            bound: Ghost(1),
        };
        proof {
            assert(b.nodes@.dom() =~= set![root]);
            assert forall|k: u64| #[trigger] b.nodes@.contains_key(k) implies children_ok(b.nodes@, k)
                && depth_ok(b.nodes@, b.depth@, b.bound@, k) && parent_ok(b.nodes@, k) by {
                assert(k == root);
            }
        }
        Ok(b)
    }

    pub fn root(&self) -> (r: u64)
        ensures
            r == self@.root,
    {
        self.root
    }

    /// The error the backend is poisoned with, if any.
    fn current_error(&self) -> (r: Option<BackendError>)
        requires
            self.wf(),
        ensures
            r is Some <==> self@.poisoned,
            r matches Some(e) ==> self@.error == Some(e@),
    {
        if !self.poisoned {
            return None;
        }
        match &self.error {
            Some(e) => Some(e.copy()),
            None => Some(BackendError::InvalidMutation(owned("backend is permanently poisoned"))),
        }
    }

    /// Poisons the backend with `error` unless it already is.
    fn record_error(&mut self, error: BackendError)
        requires
            old(self).wf(),
        ensures
            final(self).wf(),
            old(self)@.poisoned ==> final(self)@ == old(self)@,
            !old(self)@.poisoned ==> poisoned_from(old(self)@, final(self)@) && final(self)@.error
                == Some(error@),
            final(self).depth@ == old(self).depth@,
            final(self).bound@ == old(self).bound@,
    {
        if self.poisoned {
            return;
        }
        self.poisoned = true;
        self.error = Some(error);
        self.pending.clear();
        proof {
            assert(self@.pending =~= Seq::<FiberMutation>::empty());
        }
    }

    /// Records `operation` unless the backend is poisoned.
    fn record(&mut self, operation: FiberMutation)
        requires
            old(self).wf(),
            mutation_error(operation) is None,
            !is_flush(operation),
        ensures
            final(self).wf(),
            old(self)@.poisoned ==> final(self)@ == old(self)@,
            !old(self)@.poisoned ==> final(self)@ == (RecordingModel {
                pending: old(self)@.pending.push(operation),
                ..old(self)@
            }),
            final(self).depth@ == old(self).depth@,
            final(self).bound@ == old(self).bound@,
    {
        if self.poisoned {
            return;
        }
        self.pending.push(operation);
    }

    /// Dispatches `event` to `listener`: the listener must exist and be
    /// registered for that event.  Returns the callback to run.
    pub fn dispatch(&self, listener: u64, event: &str) -> (r: Result<CallbackId, BackendError>)
        requires
            self.wf(),
        ensures
            self@.poisoned ==> (r matches Err(e) && self@.error == Some(e@)),
            !self@.poisoned && !has_listener_id(self@.listeners, listener) ==> (r matches Err(e)
                && e@ == BackendErrorView::InvalidListener(listener)),
            !self@.poisoned && has_listener_id(self@.listeners, listener) ==> ({
                let l = self@.listeners[listener_index(self@.listeners, listener)];
                &&& l.name@ != event@ ==> (r matches Err(e) && e@ == (BackendErrorView::EventMismatch {
                    listener,
                    expected: l.name@,
                    actual: event@,
                }))
                &&& l.name@ == event@ ==> r == Ok::<CallbackId, BackendError>(l.callback)
            }),
    {
        match self.current_error() {
            Some(e) => return Err(e),
            None => {},
        }
        let pos = match self.find_listener(listener) {
            Some(i) => i,
            None => return Err(BackendError::InvalidListener(listener)),
        };
        let state = &self.listeners[pos];
        proof {
            let j = listener_index(self@.listeners, listener);
            assert(0 <= j < self@.listeners.len() && self@.listeners[j].id == listener);
            if j < pos {
                assert(self@.listeners[j].id < self@.listeners[pos as int].id);
            } else if j > pos {
                assert(self@.listeners[pos as int].id < self@.listeners[j].id);
            }
        }
        if !str_eq(event, state.name.as_str()) {
            return Err(
                BackendError::EventMismatch {
                    listener,
                    expected: copy_string(&state.name),
                    actual: owned(event),
                },
            );
        }
        Ok(state.callback)
    }

    /// The mutations recorded since the last response, closed by one flush of
    /// the root.  A response that does not validate poisons the backend.
    pub fn take_response(&mut self) -> (r: Result<SuccessResponse, BackendError>)
        requires
            old(self).wf(),
        ensures
            final(self).wf(),
            stays_poisoned(old(self)@, final(self)@),
            old(self)@.poisoned ==> final(self)@ == old(self)@ && (r matches Err(e) && old(self)@.error == Some(e@)),
            !old(self)@.poisoned ==> ({
                let ops = old(self)@.pending.push(FiberMutation::Flush { root: old(self)@.root });
                &&& r matches Ok(s) && s.version == PROTOCOL_VERSION && s.ok && s.operations@ == ops
                &&& final(self)@ == (RecordingModel { pending: Seq::empty(), ..old(self)@ })
            }),
    {
        match self.current_error() {
            Some(e) => return Err(e),
            None => {},
        }
        proof {
            lemma_recorded_then_flush(self@.pending, self@.root);
        }
        let mut operations: Vec<FiberMutation> = Vec::new();
        std::mem::swap(&mut operations, &mut self.pending);
        operations.push(FiberMutation::Flush { root: self.root });
        match SuccessResponse::new(operations) {
            Ok(response) => {
                proof {
                    assert(self@.pending =~= Seq::<FiberMutation>::empty());
                }
                Ok(response)
            },
            Err(error) => {
                let copy = error.copy();
                self.record_error(BackendError::Protocol(error));
                Err(BackendError::Protocol(copy))
            },
        }
    }

    /// Drops the mutations recorded since the last response.
    pub fn discard_pending(&mut self)
        requires
            old(self).wf(),
        ensures
            final(self).wf(),
            final(self)@ == (RecordingModel { pending: Seq::empty(), ..old(self)@ }),
    {
        self.pending.clear();
        proof {
            assert(self@.pending =~= Seq::<FiberMutation>::empty());
        }
    }

    fn find_listener(&self, id: u64) -> (r: Option<usize>)
        ensures
            r is Some <==> has_listener_id(self@.listeners, id),
            r matches Some(i) ==> i < self@.listeners.len() && self@.listeners[i as int].id == id,
    {
        let mut i: usize = 0;
        while i < self.listeners.len()
            invariant
                i <= self.listeners@.len(),
                forall|j: int| 0 <= j < i ==> self.listeners@[j].id != id,
            decreases self.listeners@.len() - i,
        {
            if self.listeners[i].id == id {
                return Some(i);
            }
            i = i + 1;
        }
        None
    }
}

impl RecordingBackend {
    fn allocate_node(&mut self) -> (r: Option<u64>)
        requires
            old(self).wf(),
            !old(self)@.poisoned,
        ensures
            final(self).wf(),
            ({
                let (a, next) = alloc_id(old(self)@.next_node, old(self)@.root);
                &&& r == a
                &&& a is Some ==> final(self)@ == (RecordingModel { next_node: next, ..old(self)@ })
                &&& a is None ==> poisoned_from(
                    RecordingModel { next_node: next, ..old(self)@ },
                    final(self)@,
                ) && final(self)@.error == Some(BackendErrorView::IdExhausted("node"@))
            }),
            final(self).depth@ == old(self).depth@,
            final(self).bound@ == old(self).bound@,
    {
        let id = self.next_node;
        if id == 0 || id > JS_MAX_SAFE_INTEGER {
            self.record_error(BackendError::IdExhausted("node"));
            return None;
        }
        self.next_node = if id == JS_MAX_SAFE_INTEGER {
            0
        } else {
            id + 1
        };
        if id != self.root {
            return Some(id);
        }
        let id2 = self.next_node;
        if id2 == 0 || id2 > JS_MAX_SAFE_INTEGER {
            self.record_error(BackendError::IdExhausted("node"));
            return None;
        }
        self.next_node = if id2 == JS_MAX_SAFE_INTEGER {
            0
        } else {
            id2 + 1
        };
        Some(id2)
    }

    fn allocate_listener(&mut self) -> (r: Option<u64>)
        requires
            old(self).wf(),
            !old(self)@.poisoned,
        ensures
            final(self).wf(),
            ({
                let id = old(self)@.next_listener;
                &&& (id == 0 || id > JS_MAX_SAFE_INTEGER) ==> r is None && poisoned_from(
                    old(self)@,
                    final(self)@,
                ) && final(self)@.error == Some(BackendErrorView::IdExhausted("listener"@))
                &&& 0 < id <= JS_MAX_SAFE_INTEGER ==> r == Some(id) && final(self)@ == (
                RecordingModel { next_listener: next_listener_id(id), ..old(self)@ })
            }),
            final(self).depth@ == old(self).depth@,
            final(self).bound@ == old(self).bound@,
    {
        let id = self.next_listener;
        if id == 0 || id > JS_MAX_SAFE_INTEGER {
            self.record_error(BackendError::IdExhausted("listener"));
            return None;
        }
        self.next_listener = if id == JS_MAX_SAFE_INTEGER {
            0
        } else {
            id + 1
        };
        proof {
            assert forall|i: int| 0 <= i < self.listeners@.len() implies (#[trigger] self.listeners@[i]).id != 0 && (
            self.next_listener == 0 || self.listeners@[i].id < self.next_listener) by {
                assert(old(self).listeners@[i].id < id);
            }
        }
        Some(id)
    }

    /// Allocates and adds a detached node of kind `kind`; zero when the
    /// backend is or becomes poisoned.
    fn create_node(&mut self, kind: NodeKind) -> (r: u64)
        requires
            old(self).wf(),
            !(kind is Root),
        ensures
            final(self).wf(),
            old(self)@.poisoned ==> r == 0 && final(self)@ == old(self)@,
            !old(self)@.poisoned ==> ({
                let (a, next) = alloc_id(old(self)@.next_node, old(self)@.root);
                let m1 = RecordingModel { next_node: next, ..old(self)@ };
                match a {
                    None => r == 0 && poisoned_from(m1, final(self)@) && final(self)@.error
                        == Some(BackendErrorView::IdExhausted("node"@)),
                    Some(n) => if old(self)@.nodes.contains_key(n) {
                        r == 0 && poisoned_from(m1, final(self)@) && refused_with(
                            final(self)@,
                            "duplicate node ID "@ + decimal_spec(n as nat),
                        )
                    } else {
                            &&& r == n
                            &&& final(self)@.nodes == old(self)@.nodes.insert(n, final(self)@.nodes[n])
                            &&& final(self)@.nodes[n].kind == kind
                            &&& final(self)@.nodes[n].parent is None
                            &&& final(self)@.nodes[n].children@.len() == 0
                            &&& final(self)@ == (RecordingModel { nodes: final(self)@.nodes, ..m1 })
                    },
                }
            }),
    {
        if self.poisoned {
            return 0;
        }
        let node = match self.allocate_node() {
            Some(n) => n,
            None => return 0,
        };
        if self.nodes.contains_key(&node) {
            let m = message_with("duplicate node ID ", node, "");
            proof {
                reveal_strlit("");
                assert(m@ =~= "duplicate node ID "@ + decimal_spec(node as nat));
            }
            self.record_error(BackendError::InvalidMutation(m));
            return 0;
        }
        let ghost old_nodes = self.nodes@;
        let ghost old_depth = self.depth@;
        self.nodes.insert(node, NodeState { kind, parent: None, children: Vec::new() });
        self.depth = Ghost(self.depth@.insert(node, 0));
        proof {
            let nodes = self.nodes@;
            assert(node != self.root);
            assert forall|k: u64| #[trigger] nodes.contains_key(k) implies parent_ok(nodes, k)
                && children_ok(nodes, k) && depth_ok(nodes, self.depth@, self.bound@, k) by {
                if k != node {
                    assert(old_nodes.contains_key(k));
                    assert(parent_ok(old_nodes, k));
                    assert(children_ok(old_nodes, k));
                    assert(depth_ok(old_nodes, old_depth, self.bound@, k));
                    assert forall|i: int|
                        0 <= i < nodes[k].children@.len() implies nodes.contains_key(
                        #[trigger] nodes[k].children@[i],
                    ) && nodes[nodes[k].children@[i]].parent == Some(k) by {
                        assert(old_nodes.contains_key(old_nodes[k].children@[i]));
                    }
                    match nodes[k].parent {
                        Some(p) => {
                            assert(p != node);
                        },
                        None => {},
                    }
                }
            }
            assert forall|k: u64| #[trigger] nodes.contains_key(k) && k != self.root implies !(
            nodes[k].kind is Root) by {
                if k != node {
                    assert(old_nodes.contains_key(k));
                }
            }
        }
        node
    }

    /// Creates a detached element; zero, and the backend poisoned, when the
    /// tag is not an authored tag or no identifier is left.
    pub fn create_element(&mut self, tag: &str) -> (r: u64)
        requires
            old(self).wf(),
        ensures
            final(self).wf(),
            stays_poisoned(old(self)@, final(self)@),
            old(self)@.poisoned ==> r == 0 && final(self)@ == old(self)@,
            !old(self)@.poisoned && !valid_tag_spec(tag@) ==> r == 0 && poisoned_from(
                old(self)@,
                final(self)@,
            ) && refused_with(
                final(self)@,
                "element tag `"@ + tag@ + "` is not a supported authored tag"@,
            ),
            !old(self)@.poisoned && valid_tag_spec(tag@) ==> ({
                let (a, next) = alloc_id(old(self)@.next_node, old(self)@.root);
                let m1 = RecordingModel { next_node: next, ..old(self)@ };
                match a {
                    None => r == 0 && poisoned_from(m1, final(self)@) && final(self)@.error
                        == Some(BackendErrorView::IdExhausted("node"@)),
                    Some(n) => if old(self)@.nodes.contains_key(n) {
                        r == 0 && poisoned_from(m1, final(self)@) && refused_with(
                            final(self)@,
                            "duplicate node ID "@ + decimal_spec(n as nat),
                        )
                    } else {
                            &&& r == n
                            &&& final(self)@.nodes == old(self)@.nodes.insert(n, final(self)@.nodes[n])
                            &&& final(self)@.nodes[n].kind matches NodeKind::Element(t) && t@ == tag@
                            &&& final(self)@.nodes[n].parent is None
                            &&& final(self)@.nodes[n].children@.len() == 0
                            &&& final(self)@.pending.drop_last() == old(self)@.pending
                            &&& final(self)@.pending.len() == old(self)@.pending.len() + 1
                            &&& final(self)@.pending.last() matches FiberMutation::CreateElement {
                                node,
                                tag: t,
                            } && node == n && t@ == tag@
                            &&& final(self)@ == (RecordingModel {
                                nodes: final(self)@.nodes,
                                pending: final(self)@.pending,
                                ..m1
                            })
                    },
                }
            }),
    {
        if !valid_tag(tag) {
            let mut m = owned("element tag `");
            m.append(tag);
            m.append("` is not a supported authored tag");
            self.record_error(BackendError::InvalidMutation(m));
            return 0;
        }
        let node = self.create_node(NodeKind::Element(owned(tag)));
        if node == 0 {
            return 0;
        }
        let ghost before = self@;
        self.record(FiberMutation::CreateElement { node, tag: owned(tag) });
        proof {
            assert(self@.pending.drop_last() =~= before.pending);
        }
        node
    }

    /// Creates a detached raw-text node; zero, and the backend poisoned, when
    /// no identifier is left.
    pub fn create_text(&mut self, text: &str) -> (r: u64)
        requires
            old(self).wf(),
        ensures
            final(self).wf(),
            stays_poisoned(old(self)@, final(self)@),
            old(self)@.poisoned ==> r == 0 && final(self)@ == old(self)@,
            !old(self)@.poisoned ==> ({
                let (a, next) = alloc_id(old(self)@.next_node, old(self)@.root);
                let m1 = RecordingModel { next_node: next, ..old(self)@ };
                match a {
                    None => r == 0 && poisoned_from(m1, final(self)@) && final(self)@.error
                        == Some(BackendErrorView::IdExhausted("node"@)),
                    Some(n) => if old(self)@.nodes.contains_key(n) {
                        r == 0 && poisoned_from(m1, final(self)@) && refused_with(
                            final(self)@,
                            "duplicate node ID "@ + decimal_spec(n as nat),
                        )
                    } else {
                            &&& r == n
                            &&& final(self)@.nodes == old(self)@.nodes.insert(n, final(self)@.nodes[n])
                            &&& final(self)@.nodes[n].kind is RawText
                            &&& final(self)@.nodes[n].parent is None
                            &&& final(self)@.nodes[n].children@.len() == 0
                            &&& final(self)@.pending.drop_last() == old(self)@.pending
                            &&& final(self)@.pending.len() == old(self)@.pending.len() + 1
                            &&& final(self)@.pending.last() matches FiberMutation::CreateText {
                                node,
                                text: t,
                            } && node == n && t@ == text@
                            &&& final(self)@ == (RecordingModel {
                                nodes: final(self)@.nodes,
                                pending: final(self)@.pending,
                                ..m1
                            })
                    },
                }
            }),
    {
        let node = self.create_node(NodeKind::RawText(owned(text)));
        if node == 0 {
            return 0;
        }
        let ghost before = self@;
        self.record(FiberMutation::CreateText { node, text: owned(text) });
        proof {
            assert(self@.pending.drop_last() =~= before.pending);
        }
        node
    }

    /// Changes nothing but the root check: a flush of another root poisons
    /// the backend.  Responses carry their own final flush.
    pub fn flush(&mut self, root: u64)
        requires
            old(self).wf(),
        ensures
            final(self).wf(),
            stays_poisoned(old(self)@, final(self)@),
            old(self)@.poisoned || root == old(self)@.root ==> final(self)@ == old(self)@,
            !old(self)@.poisoned && root != old(self)@.root ==> poisoned_from(
                old(self)@,
                final(self)@,
            ) && final(self)@.error == Some(BackendErrorView::InvalidRoot(root)),
    {
        if self.poisoned {
            return;
        }
        if root != self.root {
            self.record_error(BackendError::InvalidRoot(root));
        }
    }
}

impl RecordingBackend {
    /// Attaches the detached node `child` to `parent`, before `reference` when
    /// given.  Any violated tree rule poisons the backend.
    pub fn insert_before(&mut self, parent: u64, child: u64, reference: Option<u64>)
        requires
            old(self).wf(),
        ensures
            final(self).wf(),
            stays_poisoned(old(self)@, final(self)@),
            old(self)@.poisoned ==> final(self)@ == old(self)@,
            !old(self)@.poisoned && !old(self)@.nodes.contains_key(parent) ==> poisoned_from(
                old(self)@,
                final(self)@,
            ) && final(self)@.error == Some(BackendErrorView::InvalidNode(parent)),
            !old(self)@.poisoned && old(self)@.nodes.contains_key(parent) && !old(self)@.nodes.contains_key(child) ==> poisoned_from(old(self)@, final(self)@) && final(self)@.error == Some(BackendErrorView::InvalidNode(child)),
            !old(self)@.poisoned && old(self)@.nodes.contains_key(parent) && old(self)@.nodes.contains_key(child) && !insert_allowed(
                old(self)@.nodes,
                old(self)@.root,
                parent,
                child,
                reference,
            ) ==> poisoned_from(old(self)@, final(self)@) && refused_with(
                final(self)@,
                insert_refusal(old(self)@.nodes, old(self)@.root, parent, child, reference),
            ),
            !old(self)@.poisoned && insert_allowed(
                old(self)@.nodes,
                old(self)@.root,
                parent,
                child,
                reference,
            ) ==> {
                &&& attached(
                    old(self)@.nodes,
                    final(self)@.nodes,
                    parent,
                    child,
                    insert_index(old(self)@.nodes, parent, reference),
                )
                &&& final(self)@.pending == old(self)@.pending.push(
                    FiberMutation::InsertBefore { parent, child, reference },
                )
                &&& final(self)@ == (RecordingModel {
                    nodes: final(self)@.nodes,
                    pending: final(self)@.pending,
                    ..old(self)@
                })
            },
    {
        if self.poisoned {
            return;
        }
        let ghost nodes0 = self.nodes@;
        let p = parent;
        let c = child;
        if !self.nodes.contains_key(&p) {
            self.record_error(BackendError::InvalidNode(p));
            return;
        }
        if !self.nodes.contains_key(&c) {
            self.record_error(BackendError::InvalidNode(c));
            return;
        }
        let parent_state = self.nodes.get(&p).unwrap();
        let child_state = self.nodes.get(&c).unwrap();
        if let NodeKind::RawText(_) = parent_state.kind {
            let m = message_with("raw-text node ", p, " cannot be a parent");
            self.record_error(BackendError::InvalidMutation(m));
            return;
        }
        if let NodeKind::RawText(_) = child_state.kind {
            let parent_is_text = match &parent_state.kind {
                NodeKind::Element(tag) => str_eq(tag.as_str(), "text"),
                _ => false,
            };
            if !parent_is_text {
                let m = message_with("raw-text node ", c, " must be attached to a text element");
                self.record_error(BackendError::InvalidMutation(m));
                return;
            }
        }
        if c == self.root || child_state.parent.is_some() {
            let m = message_with("node ", c, " is not detached");
            self.record_error(BackendError::InvalidMutation(m));
            return;
        }
        let mut ancestor: Option<u64> = Some(p);
        let ghost mut steps: nat = 0;
        loop
            invariant
                self.wf(),
                self.nodes@ == nodes0,
                self@ == old(self)@,
                self.depth@ == old(self).depth@,
                self.bound@ == old(self).bound@,
                !self@.poisoned,
                p == parent,
                c == child,
                nodes0.contains_key(p),
                nodes0.contains_key(c),
                ancestor == anc_at(nodes0, p, steps),
                ancestor matches Some(a) ==> nodes0.contains_key(a),
                !is_raw_text(nodes0, p),
                is_raw_text(nodes0, c) ==> is_text_element(nodes0, p),
                c != old(self)@.root && nodes0[c].parent is None,
                forall|j: nat| j < steps ==> anc_at(nodes0, p, j) != Some(c),
            ensures
                self.wf(),
                self.nodes@ == nodes0,
                self@ == old(self)@,
                self.depth@ == old(self).depth@,
                self.bound@ == old(self).bound@,
                !self@.poisoned,
                nodes0.contains_key(p),
                nodes0.contains_key(c),
                ancestor is None,
                anc_at(nodes0, p, steps) is None,
                !is_raw_text(nodes0, p),
                is_raw_text(nodes0, c) ==> is_text_element(nodes0, p),
                c != old(self)@.root && nodes0[c].parent is None,
                forall|j: nat| j < steps ==> anc_at(nodes0, p, j) != Some(c),
            decreases
                (match ancestor {
                    Some(a) => self.depth@[a] + 1,
                    None => 0,
                }),
        {
            proof {
                lemma_anc_at(nodes0, self.root, self.depth@, self.bound@, p, steps);
            }
            match ancestor {
                None => break,
                Some(n) => {
                    if n == c {
                        proof {
                            assert(anc_at(nodes0, p, steps) == Some(c));
                            assert(is_ancestor_or_self(nodes0, c, p));
                        }
                        let m = message_with_two("inserting node ", c, " under ", p, " would create a cycle");
                        self.record_error(BackendError::InvalidMutation(m));
                        return;
                    }
                    let next = match self.nodes.get(&n) {
                        Some(st) => st.parent,
                        None => None,
                    };
                    proof {
                        assert(depth_ok(nodes0, self.depth@, self.bound@, n));
                        assert(parent_ok(nodes0, n));
                        assert(anc_at(nodes0, p, steps + 1) == anc_at(nodes0, n, 1)) by {
                            lemma_anc_shift(nodes0, p, n, steps);
                        }
                        match nodes0[n].parent {
                            Some(pp) => {
                                assert(anc_at(nodes0, pp, 0) == Some(pp));
                            },
                            None => {},
                        }
                        assert(anc_at(nodes0, n, 1) == next);
                        steps = steps + 1;
                    }
                    ancestor = next;
                },
            }
        }
        proof {
            assert(!is_ancestor_or_self(nodes0, c, p)) by {
                if is_ancestor_or_self(nodes0, c, p) {
                    let k = choose|k: nat| anc_at(nodes0, p, k) == Some(c);
                    if k >= steps {
                        lemma_anc_none_after(nodes0, p, steps, k);
                    }
                }
            }
        }
        let parent_state = self.nodes.get(&p).unwrap();
        let index: usize = match reference {
            Some(rv) => {
                let mut i: usize = 0;
                let n = parent_state.children.len();
                while i < n
                    invariant
                        n == parent_state.children@.len(),
                        i <= n,
                        forall|j: int| 0 <= j < i ==> parent_state.children@[j] != rv,
                    ensures
                        i <= n,
                        i < n ==> parent_state.children@[i as int] == rv,
                        forall|j: int| 0 <= j < i ==> parent_state.children@[j] != rv,
                    decreases n - i,
                {
                    if parent_state.children[i] == rv {
                        break;
                    }
                    i = i + 1;
                }
                if i == n {
                    let m = message_with_two("reference node ", rv, " is not a child of ", p, "");
                    proof {
                        reveal_strlit("");
                        assert(m@ =~= "reference node "@ + decimal_spec(rv as nat) + " is not a child of "@
                            + decimal_spec(p as nat));
                    }
                    self.record_error(BackendError::InvalidMutation(m));
                    return;
                }
                proof {
                    assert(children_ok(nodes0, p));
                    let cs = nodes0[p].children@;
                    assert(cs[i as int] == rv);
                    assert(cs.contains(rv));
                    let w = cs.index_of(rv);
                    assert(cs[w] == rv);
                    assert(w == i as int);
                }
                i
            },
            None => parent_state.children.len(),
        };
        proof {
            assert(insert_allowed(nodes0, self.root, p, c, reference));
        }
        let mut parent_state = self.nodes.remove(&p).unwrap();
        parent_state.children.insert(index, c);
        self.nodes.insert(p, parent_state);
        let mut child_state = self.nodes.remove(&c).unwrap();
        child_state.parent = Some(p);
        self.nodes.insert(c, child_state);
        proof {
            assert(attached(nodes0, self.nodes@, p, c, index as int));
            lemma_attach(nodes0, self.nodes@, self.root, self.depth@, self.bound@, p, c, index as int);
        }
        self.depth = Ghost(attach_depth(nodes0, self.depth@, p, c));
        self.bound = Ghost(self.bound@ + self.bound@);
        self.record(FiberMutation::InsertBefore { parent: p, child: c, reference });
        proof {
            assert forall|k: u64| #[trigger] self.nodes@.contains_key(k) && k != self.root implies !(
            self.nodes@[k].kind is Root) by {
                assert(nodes0.contains_key(k));
            }
        }
    }

    /// Detaches `child` from `parent`.  Any violated tree rule poisons the
    /// backend.
    pub fn remove(&mut self, parent: u64, child: u64)
        requires
            old(self).wf(),
        ensures
            final(self).wf(),
            stays_poisoned(old(self)@, final(self)@),
            old(self)@.poisoned ==> final(self)@ == old(self)@,
            !old(self)@.poisoned && !old(self)@.nodes.contains_key(child) ==> poisoned_from(
                old(self)@,
                final(self)@,
            ) && final(self)@.error == Some(BackendErrorView::InvalidNode(child)),
            !old(self)@.poisoned && old(self)@.nodes.contains_key(child) && old(self)@.nodes[child].parent != Some(parent) ==> poisoned_from(old(self)@, final(self)@)
                && refused_with(
                final(self)@,
                "node "@ + decimal_spec(child as nat) + " is not a child of "@ + decimal_spec(parent as nat),
            ),
            !old(self)@.poisoned && old(self)@.nodes.contains_key(child) && old(self)@.nodes[child].parent == Some(parent) ==> {
                &&& detached(
                    old(self)@.nodes,
                    final(self)@.nodes,
                    parent,
                    child,
                    old(self)@.nodes[parent].children@.index_of(child),
                )
                &&& final(self)@.pending == old(self)@.pending.push(
                    FiberMutation::Remove { parent, child },
                )
                &&& final(self)@ == (RecordingModel {
                    nodes: final(self)@.nodes,
                    pending: final(self)@.pending,
                    ..old(self)@
                })
            },
    {
        if self.poisoned {
            return;
        }
        let p = parent;
        let c = child;
        let attached_here = match self.nodes.get(&c) {
            Some(st) => st.parent == Some(p),
            None => {
                self.record_error(BackendError::InvalidNode(c));
                return;
            },
        };
        if !attached_here {
            let m = message_with_two("node ", c, " is not a child of ", p, "");
            proof {
                reveal_strlit("");
                assert(m@ =~= "node "@ + decimal_spec(c as nat) + " is not a child of "@ + decimal_spec(
                    p as nat,
                ));
            }
            self.record_error(BackendError::InvalidMutation(m));
            return;
        }
        let ghost nodes0 = self.nodes@;
        proof {
            assert(parent_ok(nodes0, c));
            assert(children_ok(nodes0, p));
            assert(depth_ok(nodes0, self.depth@, self.bound@, c));
        }
        let mut parent_state = self.nodes.remove(&p).unwrap();
        let n = parent_state.children.len();
        let mut i: usize = 0;
        while i < n
            invariant
                n == parent_state.children@.len(),
                parent_state.children@ == nodes0[p].children@,
                i <= n,
                nodes0[p].children@.contains(c),
                forall|j: int| 0 <= j < i ==> parent_state.children@[j] != c,
            ensures
                i < n,
                parent_state.children@[i as int] == c,
            decreases n - i,
        {
            if parent_state.children[i] == c {
                break;
            }
            i = i + 1;
        }
        proof {
            let cs = nodes0[p].children@;
            let w = cs.index_of(c);
            assert(cs[w] == c);
            assert(w == i as int);
        }
        parent_state.children.remove(i);
        self.nodes.insert(p, parent_state);
        let mut child_state = self.nodes.remove(&c).unwrap();
        child_state.parent = None;
        self.nodes.insert(c, child_state);
        proof {
            assert(anc_at(nodes0, p, 0) == Some(p));
            assert(detached(nodes0, self.nodes@, p, c, i as int));
            lemma_detach(nodes0, self.nodes@, self.root, self.depth@, self.bound@, p, c, i as int);
        }
        self.depth = Ghost(detach_depth(nodes0, self.depth@, c));
        self.record(FiberMutation::Remove { parent: p, child: c });
        proof {
            assert forall|k: u64| #[trigger] self.nodes@.contains_key(k) && k != self.root implies !(
            self.nodes@[k].kind is Root) by {
                assert(nodes0.contains_key(k));
            }
        }
    }

    fn listens(&self, node: u64) -> (r: bool)
        ensures
            r == node_listens(self@.listeners, node),
    {
        let mut i: usize = 0;
        while i < self.listeners.len()
            invariant
                i <= self.listeners@.len(),
                forall|j: int| 0 <= j < i ==> self.listeners@[j].node != node,
            decreases self.listeners@.len() - i,
        {
            if self.listeners[i].node == node {
                return true;
            }
            i = i + 1;
        }
        false
    }

    fn listens_to(&self, node: u64, name: &str) -> (r: bool)
        ensures
            r == node_listens_to(self@.listeners, node, name@),
    {
        let mut i: usize = 0;
        while i < self.listeners.len()
            invariant
                i <= self.listeners@.len(),
                forall|j: int|
                    0 <= j < i ==> !(self.listeners@[j].node == node && self.listeners@[j].name@
                        == name@),
            decreases self.listeners@.len() - i,
        {
            if self.listeners[i].node == node && str_eq(self.listeners[i].name.as_str(), name) {
                return true;
            }
            i = i + 1;
        }
        false
    }

    /// Destroys a detached, childless node without listeners.  Anything else
    /// poisons the backend.
    pub fn destroy_node(&mut self, node: u64)
        requires
            old(self).wf(),
        ensures
            final(self).wf(),
            stays_poisoned(old(self)@, final(self)@),
            old(self)@.poisoned ==> final(self)@ == old(self)@,
            !old(self)@.poisoned && node_listens(old(self)@.listeners, node) ==> poisoned_from(
                old(self)@,
                final(self)@,
            ) && refused_with(
                final(self)@,
                "node "@ + decimal_spec(node as nat) + " still has listeners"@,
            ),
            !old(self)@.poisoned && !node_listens(old(self)@.listeners, node) && !old(self)@.nodes.contains_key(node) ==> poisoned_from(old(self)@, final(self)@) && final(self)@.error == Some(BackendErrorView::InvalidNode(node)),
            !old(self)@.poisoned && !node_listens(old(self)@.listeners, node) && old(self)@.nodes.contains_key(node) ==> {
                let st = old(self)@.nodes[node];
                &&& (node == old(self)@.root || st.parent is Some || st.children@.len() != 0)
                    ==> poisoned_from(old(self)@, final(self)@) && refused_with(
                    final(self)@,
                    "node "@ + decimal_spec(node as nat) + " is not detached and empty"@,
                )
                &&& !(node == old(self)@.root || st.parent is Some || st.children@.len() != 0)
                    ==> final(self)@ == (RecordingModel {
                    nodes: old(self)@.nodes.remove(node),
                    pending: old(self)@.pending.push(FiberMutation::DestroyNode { node }),
                    ..old(self)@
                })
            },
    {
        if self.poisoned {
            return;
        }
        if self.listens(node) {
            let m = message_with("node ", node, " still has listeners");
            self.record_error(BackendError::InvalidMutation(m));
            return;
        }
        let removable = match self.nodes.get(&node) {
            Some(st) => !(node == self.root || st.parent.is_some() || st.children.len() != 0),
            None => {
                self.record_error(BackendError::InvalidNode(node));
                return;
            },
        };
        if !removable {
            let m = message_with("node ", node, " is not detached and empty");
            self.record_error(BackendError::InvalidMutation(m));
            return;
        }
        let ghost nodes0 = self.nodes@;
        let ghost depth0 = self.depth@;
        self.nodes.remove(&node);
        self.depth = Ghost(depth0.remove(node));
        self.record(FiberMutation::DestroyNode { node });
        proof {
            let nodes = self.nodes@;
            assert forall|k: u64| #[trigger] nodes.contains_key(k) implies parent_ok(nodes, k)
                && children_ok(nodes, k) && depth_ok(nodes, self.depth@, self.bound@, k) by {
                assert(nodes0.contains_key(k));
                assert(parent_ok(nodes0, k));
                assert(children_ok(nodes0, k));
                assert(depth_ok(nodes0, depth0, self.bound@, k));
                match nodes0[k].parent {
                    Some(p) => {
                        if p == node {
                            assert(nodes0[node].children@.contains(k));
                        }
                    },
                    None => {},
                }
                assert forall|i: int| 0 <= i < nodes[k].children@.len() implies nodes.contains_key(
                    #[trigger] nodes[k].children@[i],
                ) && nodes[nodes[k].children@[i]].parent == Some(k) by {
                    let ch = nodes0[k].children@[i];
                    assert(nodes0[ch].parent == Some(k));
                    assert(ch != node);
                }
            }
            assert forall|k: u64| #[trigger] nodes.contains_key(k) && k != self.root implies !(
            nodes[k].kind is Root) by {
                assert(nodes0.contains_key(k));
            }
        }
    }

    /// Records an attribute change on an element; `None` removes the
    /// attribute.  An unknown node, a non-element or an invalid name poisons
    /// the backend.
    pub fn set_attribute(&mut self, node: u64, name: &str, value: Option<&str>)
        requires
            old(self).wf(),
        ensures
            final(self).wf(),
            stays_poisoned(old(self)@, final(self)@),
            old(self)@.poisoned ==> final(self)@ == old(self)@,
            !old(self)@.poisoned && !old(self)@.nodes.contains_key(node) ==> poisoned_from(
                old(self)@,
                final(self)@,
            ) && final(self)@.error == Some(BackendErrorView::InvalidNode(node)),
            !old(self)@.poisoned && old(self)@.nodes.contains_key(node) && !(old(self)@.nodes[node].kind is Element && valid_attribute_name_spec(name@)) ==> poisoned_from(
                old(self)@,
                final(self)@,
            ) && refused_with(
                final(self)@,
                "invalid attribute `"@ + name@ + "` for node "@ + decimal_spec(node as nat),
            ),
            !old(self)@.poisoned && old(self)@.nodes.contains_key(node) && old(self)@.nodes[node].kind is Element && valid_attribute_name_spec(name@) ==> {
                &&& final(self)@.pending.drop_last() == old(self)@.pending
                &&& final(self)@.pending.len() == old(self)@.pending.len() + 1
                &&& final(self)@.pending.last() matches FiberMutation::SetAttribute {
                    node: n,
                    name: nm,
                    value: v,
                } && n == node && nm@ == name@ && match value {
                    Some(s) => v matches Some(vs) && vs@ == s@,
                    None => v is None,
                }
                &&& final(self)@ == (RecordingModel { pending: final(self)@.pending, ..old(self)@ })
            },
    {
        if self.poisoned {
            return;
        }
        let ok = match self.nodes.get(&node) {
            Some(st) => st.kind.is_element() && valid_attribute_name(name),
            None => {
                self.record_error(BackendError::InvalidNode(node));
                return;
            },
        };
        if !ok {
            let mut m = owned("invalid attribute `");
            m.append(name);
            let tail = message_with("` for node ", node, "");
            m.append(tail.as_str());
            proof {
                reveal_strlit("");
                assert(m@ =~= "invalid attribute `"@ + name@ + "` for node "@ + decimal_spec(
                    node as nat,
                ));
            }
            self.record_error(BackendError::InvalidMutation(m));
            return;
        }
        let value_owned = match value {
            Some(v) => Some(owned(v)),
            None => None,
        };
        let ghost before = self@;
        self.record(FiberMutation::SetAttribute { node, name: owned(name), value: value_owned });
        proof {
            assert(self@.pending.drop_last() =~= before.pending);
        }
    }

    /// Registers the only `tap` listener of an element and returns its
    /// identifier; zero, and the backend poisoned, otherwise.
    pub fn add_event_listener(&mut self, node: u64, name: &str, callback: CallbackId) -> (r: u64)
        requires
            old(self).wf(),
        ensures
            final(self).wf(),
            stays_poisoned(old(self)@, final(self)@),
            old(self)@.poisoned ==> r == 0 && final(self)@ == old(self)@,
            !old(self)@.poisoned && !(old(self)@.nodes.contains_key(node) && old(self)@.nodes[node].kind is Element) ==> r == 0 && poisoned_from(old(self)@, final(self)@)
                && final(self)@.error == Some(BackendErrorView::InvalidNode(node)),
            !old(self)@.poisoned && old(self)@.nodes.contains_key(node) && old(self)@.nodes[node].kind is Element && (name@ != "tap"@ || node_listens_to(
                old(self)@.listeners,
                node,
                name@,
            )) ==> r == 0 && poisoned_from(old(self)@, final(self)@) && refused_with(
                final(self)@,
                if name@ != "tap"@ {
                    "event `"@ + name@ + "` is not supported by protocol v1"@
                } else {
                    "node "@ + decimal_spec(node as nat) + " already has a `"@ + name@ + "` listener"@
                },
            ),
            !old(self)@.poisoned && old(self)@.nodes.contains_key(node) && old(self)@.nodes[node].kind is Element && name@ == "tap"@ && !node_listens_to(
                old(self)@.listeners,
                node,
                name@,
            ) ==> ({
                let id = old(self)@.next_listener;
                &&& (id == 0 || id > JS_MAX_SAFE_INTEGER) ==> r == 0 && poisoned_from(
                    old(self)@,
                    final(self)@,
                ) && final(self)@.error == Some(BackendErrorView::IdExhausted("listener"@))
                &&& 0 < id <= JS_MAX_SAFE_INTEGER ==> {
                    &&& r == id
                    &&& final(self)@.listeners.drop_last() == old(self)@.listeners
                    &&& final(self)@.listeners.len() == old(self)@.listeners.len() + 1
                    &&& final(self)@.listeners.last().id == id
                    &&& final(self)@.listeners.last().node == node
                    &&& final(self)@.listeners.last().name@ == name@
                    &&& final(self)@.listeners.last().callback == callback
                    &&& final(self)@.pending.drop_last() == old(self)@.pending
                    &&& final(self)@.pending.len() == old(self)@.pending.len() + 1
                    &&& final(self)@.pending.last() matches FiberMutation::AddEventListener {
                        node: n,
                        listener: l,
                        name: nm,
                    } && n == node && l == id && nm@ == name@
                    &&& final(self)@ == (RecordingModel {
                        next_listener: next_listener_id(id),
                        listeners: final(self)@.listeners,
                        pending: final(self)@.pending,
                        ..old(self)@
                    })
                }
            }),
    {
        if self.poisoned {
            return 0;
        }
        let valid_node = match self.nodes.get(&node) {
            Some(st) => st.kind.is_element(),
            None => false,
        };
        if !valid_node {
            self.record_error(BackendError::InvalidNode(node));
            return 0;
        }
        if !str_eq(name, "tap") {
            let mut m = owned("event `");
            m.append(name);
            m.append("` is not supported by protocol v1");
            self.record_error(BackendError::InvalidMutation(m));
            return 0;
        }
        if self.listens_to(node, name) {
            let mut m = message_with("node ", node, " already has a `");
            m.append(name);
            m.append("` listener");
            self.record_error(BackendError::InvalidMutation(m));
            return 0;
        }
        let listener = match self.allocate_listener() {
            Some(l) => l,
            None => return 0,
        };
        let ghost before = self@;
        let mut listeners: Vec<RecordedListener> = Vec::new();
        std::mem::swap(&mut listeners, &mut self.listeners);
        listeners.push(RecordedListener { id: listener, node, name: owned(name), callback });
        std::mem::swap(&mut listeners, &mut self.listeners);
        proof {
            let ls = self.listeners@;
            assert(ls.drop_last() =~= before.listeners);
            assert forall|i: int, j: int| 0 <= i < j < ls.len() implies ls[i].id < ls[j].id by {
                if j == ls.len() - 1 {
                    assert(before.listeners[i].id < listener);
                }
            }
            assert forall|i: int| 0 <= i < ls.len() implies (#[trigger] ls[i]).id != 0 && (
            self.next_listener == 0 || ls[i].id < self.next_listener) by {
                if i < ls.len() - 1 {
                    assert(ls[i] == before.listeners[i]);
                }
            }
        }
        let ghost before2 = self@;
        self.record(FiberMutation::AddEventListener { node, listener, name: owned(name) });
        proof {
            assert(self@.pending.drop_last() =~= before2.pending);
        }
        listener
    }

    /// Removes `listener`, which must be registered on `node`.  Anything else
    /// poisons the backend.
    pub fn remove_event_listener(&mut self, node: u64, listener: u64)
        requires
            old(self).wf(),
        ensures
            final(self).wf(),
            stays_poisoned(old(self)@, final(self)@),
            old(self)@.poisoned ==> final(self)@ == old(self)@,
            !old(self)@.poisoned && !has_listener_id(old(self)@.listeners, listener) ==> poisoned_from(
                old(self)@,
                final(self)@,
            ) && final(self)@.error == Some(BackendErrorView::InvalidListener(listener)),
            !old(self)@.poisoned && has_listener_id(old(self)@.listeners, listener) ==> ({
                let pos = listener_index(old(self)@.listeners, listener);
                &&& old(self)@.listeners[pos].node != node ==> poisoned_from(
                    old(self)@,
                    final(self)@,
                ) && refused_with(
                    final(self)@,
                    "listener "@ + decimal_spec(listener as nat) + " is not attached to node "@ + decimal_spec(
                        node as nat,
                    ),
                )
                &&& old(self)@.listeners[pos].node == node ==> final(self)@ == (RecordingModel {
                    listeners: old(self)@.listeners.remove(pos),
                    pending: old(self)@.pending.push(
                        FiberMutation::RemoveEventListener { node, listener },
                    ),
                    ..old(self)@
                })
            }),
    {
        if self.poisoned {
            return;
        }
        let pos = match self.find_listener(listener) {
            Some(i) => i,
            None => {
                self.record_error(BackendError::InvalidListener(listener));
                return;
            },
        };
        proof {
            let j = listener_index(self@.listeners, listener);
            assert(0 <= j < self@.listeners.len() && self@.listeners[j].id == listener);
            if j < pos {
                assert(self@.listeners[j].id < self@.listeners[pos as int].id);
            } else if j > pos {
                assert(self@.listeners[pos as int].id < self@.listeners[j].id);
            }
        }
        if self.listeners[pos].node != node {
            let m = message_with_two("listener ", listener, " is not attached to node ", node, "");
            proof {
                reveal_strlit("");
                assert(m@ =~= "listener "@ + decimal_spec(listener as nat) + " is not attached to node "@
                    + decimal_spec(node as nat));
            }
            self.record_error(BackendError::InvalidMutation(m));
            return;
        }
        let ghost before = self@;
        let mut listeners: Vec<RecordedListener> = Vec::new();
        std::mem::swap(&mut listeners, &mut self.listeners);
        listeners.remove(pos);
        std::mem::swap(&mut listeners, &mut self.listeners);
        proof {
            let ls = self.listeners@;
            let o = before.listeners;
            assert forall|a: int, b: int| 0 <= a < b < ls.len() implies ls[a].id < ls[b].id by {
                let oa = if a < pos { a } else { a + 1 };
                let ob = if b < pos { b } else { b + 1 };
                assert(ls[a] == o[oa]);
                assert(ls[b] == o[ob]);
            }
            assert forall|a: int| 0 <= a < ls.len() implies (#[trigger] ls[a]).id != 0 && (
            self.next_listener == 0 || ls[a].id < self.next_listener) by {
                let oa = if a < pos { a } else { a + 1 };
                assert(ls[a] == o[oa]);
            }
            assert(o[pos as int].id == listener);
            assert(o[pos as int].node == node);
        }
        self.record(FiberMutation::RemoveEventListener { node, listener });
    }
}

impl RecordingBackend {
    /// Moves the node identifier counter.
    pub fn set_next_node(&mut self, next: u64)
        requires
            old(self).wf(),
        ensures
            final(self).wf(),
            final(self)@ == (RecordingModel { next_node: next, ..old(self)@ }),
    {
        self.next_node = next;
    }

    /// Moves the listener identifier counter past every registered listener
    /// (or to zero, which exhausts it).
    pub fn set_next_listener(&mut self, next: u64)
        requires
            old(self).wf(),
            next == 0 || forall|i: int|
                0 <= i < old(self)@.listeners.len() ==> #[trigger] old(self)@.listeners[i].id < next,
        ensures
            final(self).wf(),
            final(self)@ == (RecordingModel { next_listener: next, ..old(self)@ }),
    {
        self.next_listener = next;
    }
}

} // verus!

use std::collections::HashMap;
use vstd::prelude::*;
use vstd::string::StringExecFns;

use crate::ids::{
    BridgeError, CallbackId, Command, EventMessage, ListenerId, NodeId, SessionId, Status,
};
use crate::text::{copy_string, decimal_spec, message_with, owned, str_eq};

verus! {

broadcast use vstd::std_specs::hash::group_hash_axioms;

/// The native renderer ABI version this bridge speaks.
pub const NATIVE_RENDERER_ABI_VERSION: u32 = 1;

pub const NATIVE_STATUS_OK: u32 = 0;
pub const NATIVE_STATUS_INVALID_ARGUMENT: u32 = 1;
pub const NATIVE_STATUS_INVALID_SESSION: u32 = 2;
pub const NATIVE_STATUS_WRONG_THREAD: u32 = 3;
pub const NATIVE_STATUS_UNSUPPORTED: u32 = 4;
pub const NATIVE_STATUS_INVALID_OWNERSHIP: u32 = 5;
pub const NATIVE_STATUS_INVALID_LISTENER: u32 = 6;
pub const NATIVE_STATUS_RESOURCE_EXHAUSTED: u32 = 7;
pub const NATIVE_STATUS_HOST_ERROR: u32 = 8;
pub const NATIVE_STATUS_PANIC: u32 = 9;
pub const NATIVE_STATUS_INTERNAL_ERROR: u32 = 10;

/// The bridge status a native status code stands for; unknown codes are
/// internal errors.
pub open spec fn status_of_native(status: u32) -> Status {
    if status == NATIVE_STATUS_OK {
        Status::InternalError
    } else if status == NATIVE_STATUS_INVALID_ARGUMENT {
        Status::InvalidArgument
    } else if status == NATIVE_STATUS_INVALID_SESSION {
        Status::InvalidSession
    } else if status == NATIVE_STATUS_WRONG_THREAD {
        Status::WrongThread
    } else if status == NATIVE_STATUS_UNSUPPORTED {
        Status::Unsupported
    } else if status == NATIVE_STATUS_INVALID_OWNERSHIP {
        Status::InvalidOwnership
    } else if status == NATIVE_STATUS_INVALID_LISTENER {
        Status::InvalidListener
    } else if status == NATIVE_STATUS_RESOURCE_EXHAUSTED {
        Status::ResourceExhausted
    } else if status == NATIVE_STATUS_HOST_ERROR {
        Status::HostError
    } else if status == NATIVE_STATUS_PANIC {
        Status::Panic
    } else {
        Status::InternalError
    }
}

/// The native code of a bridge status.
pub open spec fn native_of_status(status: Status) -> u32 {
    match status {
        Status::Success => NATIVE_STATUS_OK,
        Status::InvalidArgument => NATIVE_STATUS_INVALID_ARGUMENT,
        Status::InvalidSession => NATIVE_STATUS_INVALID_SESSION,
        Status::WrongThread => NATIVE_STATUS_WRONG_THREAD,
        Status::Unsupported => NATIVE_STATUS_UNSUPPORTED,
        Status::InvalidOwnership => NATIVE_STATUS_INVALID_OWNERSHIP,
        Status::InvalidListener => NATIVE_STATUS_INVALID_LISTENER,
        Status::ResourceExhausted => NATIVE_STATUS_RESOURCE_EXHAUSTED,
        Status::HostError => NATIVE_STATUS_HOST_ERROR,
        Status::Panic => NATIVE_STATUS_PANIC,
        Status::InternalError => NATIVE_STATUS_INTERNAL_ERROR,
    }
}

/// The native code of a bridge status.
pub fn status_to_native(status: Status) -> (r: u32)
    ensures
        r == native_of_status(status),
{
    match status {
        Status::Success => NATIVE_STATUS_OK,
        Status::InvalidArgument => NATIVE_STATUS_INVALID_ARGUMENT,
        Status::InvalidSession => NATIVE_STATUS_INVALID_SESSION,
        Status::WrongThread => NATIVE_STATUS_WRONG_THREAD,
        Status::Unsupported => NATIVE_STATUS_UNSUPPORTED,
        Status::InvalidOwnership => NATIVE_STATUS_INVALID_OWNERSHIP,
        Status::InvalidListener => NATIVE_STATUS_INVALID_LISTENER,
        Status::ResourceExhausted => NATIVE_STATUS_RESOURCE_EXHAUSTED,
        Status::HostError => NATIVE_STATUS_HOST_ERROR,
        Status::Panic => NATIVE_STATUS_PANIC,
        Status::InternalError => NATIVE_STATUS_INTERNAL_ERROR,
    }
}

/// The error a failed native operation is reported as.
/// The message of a native call `operation` that answered `status`.
pub open spec fn native_failure(operation: Seq<char>, status: u32) -> Seq<char> {
    "native "@ + operation + " failed with status "@ + decimal_spec(status as nat)
}

pub fn native_error(status: u32, operation: &str) -> (r: BridgeError)
    ensures
        r.status == status_of_native(status),
        r.message@ == native_failure(operation@, status),
{
    let kind = if status == NATIVE_STATUS_INVALID_ARGUMENT {
        Status::InvalidArgument
    } else if status == NATIVE_STATUS_INVALID_SESSION {
        Status::InvalidSession
    } else if status == NATIVE_STATUS_WRONG_THREAD {
        Status::WrongThread
    } else if status == NATIVE_STATUS_UNSUPPORTED {
        Status::Unsupported
    } else if status == NATIVE_STATUS_INVALID_OWNERSHIP {
        Status::InvalidOwnership
    } else if status == NATIVE_STATUS_INVALID_LISTENER {
        Status::InvalidListener
    } else if status == NATIVE_STATUS_RESOURCE_EXHAUSTED {
        Status::ResourceExhausted
    } else if status == NATIVE_STATUS_HOST_ERROR {
        Status::HostError
    } else if status == NATIVE_STATUS_PANIC {
        Status::Panic
    } else {
        Status::InternalError
    };
    let mut m = owned("native ");
    m.append(operation);
    let tail = message_with(" failed with status ", status as u64, "");
    m.append(tail.as_str());
    proof {
        reveal_strlit("");
        assert(tail@ =~= " failed with status "@ + decimal_spec(status as nat));
    }
    BridgeError::new_owned(kind, m)
}

/// The result of a native mount: a status and the new session.
#[derive(Clone, Copy, Debug, PartialEq, Eq)]
pub struct LynxElementBridgeNativeMountResult {
    pub status: u32,
    pub session: u32,
}

/// The result of a native destroy: a status and whether the session was
/// consumed.
#[derive(Clone, Copy, Debug, PartialEq, Eq)]
pub struct LynxElementBridgeNativeDestroyResult {
    pub status: u32,
    pub consumed: u32,
}

// ---------------------------------------------------------------------
// Acquisition checks
// ---------------------------------------------------------------------

/// Checks what `acquire` is handed: a nonzero host and both callbacks.
pub fn check_acquire_arguments(host: u64, has_on_event: bool, has_on_timer: bool) -> (r: Result<
    (),
    BridgeError,
>)
    ensures
        host == 0 ==> (r matches Err(e) && e.status == Status::InvalidArgument && e.message@
            == "native host handle must not be zero"@),
        host != 0 && !(has_on_event && has_on_timer) ==> (r matches Err(e) && e.status
            == Status::InvalidArgument && e.message@ == "native renderer callbacks must not be null"@),
        host != 0 && has_on_event && has_on_timer ==> r is Ok,
{
    if host == 0 {
        return Err(BridgeError::new(Status::InvalidArgument, "native host handle must not be zero"));
    }
    if !has_on_event || !has_on_timer {
        return Err(
            BridgeError::new(Status::InvalidArgument, "native renderer callbacks must not be null"),
        );
    }
    Ok(())
}

/// Checks the renderer's function table: it must exist, speak this ABI
/// version, be at least `required_size` bytes and hold every function.
pub fn check_api_table(
    available: bool,
    abi_version: u32,
    struct_size: usize,
    required_size: usize,
    all_functions: bool,
) -> (r: Result<(), BridgeError>)
    ensures
        r is Ok <==> available && abi_version == NATIVE_RENDERER_ABI_VERSION && struct_size
            >= required_size && all_functions,
        r matches Err(e) ==> e.status == Status::Unsupported,
        !available ==> (r matches Err(e) && e.message@ == "native renderer API V1 is unavailable"@),
        available && abi_version != NATIVE_RENDERER_ABI_VERSION ==> (r matches Err(e) && e.message@
            == "unsupported native renderer ABI version "@ + decimal_spec(abi_version as nat)),
        available && abi_version == NATIVE_RENDERER_ABI_VERSION && struct_size < required_size ==> (
        r matches Err(e) && e.message@ == "native renderer API V1 table is too small: "@
            + decimal_spec(struct_size as nat) + " bytes"@),
        available && abi_version == NATIVE_RENDERER_ABI_VERSION && struct_size >= required_size
            && !all_functions ==> (r matches Err(e) && e.message@
            == "native renderer API V1 has a null function"@),
{
    if !available {
        return Err(BridgeError::new(Status::Unsupported, "native renderer API V1 is unavailable"));
    }
    if abi_version != NATIVE_RENDERER_ABI_VERSION {
        let m = message_with("unsupported native renderer ABI version ", abi_version as u64, "");
        proof {
            reveal_strlit("");
            assert(m@ =~= "unsupported native renderer ABI version "@ + decimal_spec(abi_version as nat));
        }
        return Err(BridgeError::new_owned(Status::Unsupported, m));
    }
    if struct_size < required_size {
        return Err(
            BridgeError::new_owned(
                Status::Unsupported,
                message_with("native renderer API V1 table is too small: ", struct_size as u64, " bytes"),
            ),
        );
    }
    if !all_functions {
        return Err(
            BridgeError::new(Status::Unsupported, "native renderer API V1 has a null function"),
        );
    }
    Ok(())
}

/// Checks the outcome of the native `acquire`: success and a nonzero renderer.
pub fn check_acquired(status: u32, renderer: u64) -> (r: Result<u64, BridgeError>)
    ensures
        status != NATIVE_STATUS_OK ==> (r matches Err(e) && e.status == status_of_native(status)
            && e.message@ == native_failure("acquire"@, status)),
        status == NATIVE_STATUS_OK && renderer == 0 ==> (r matches Err(e) && e.status
            == Status::HostError && e.message@ == "native acquire returned a zero renderer handle"@),
        status == NATIVE_STATUS_OK && renderer != 0 ==> r == Ok::<u64, BridgeError>(renderer),
{
    if status != NATIVE_STATUS_OK {
        return Err(native_error(status, "acquire"));
    }
    if renderer == 0 {
        return Err(
            BridgeError::new(Status::HostError, "native acquire returned a zero renderer handle"),
        );
    }
    Ok(renderer)
}

/// Checks the outcome of the native `get_root`; on an error the caller
/// releases the renderer once.
pub fn check_root(status: u32, native_root: u32) -> (r: Result<u32, BridgeError>)
    ensures
        status != NATIVE_STATUS_OK ==> (r matches Err(e) && e.status == status_of_native(status)
            && e.message@ == native_failure("get_root"@, status)),
        status == NATIVE_STATUS_OK && native_root == 0 ==> (r matches Err(e) && e.status
            == Status::HostError && e.message@ == "native get_root returned a zero node handle"@),
        status == NATIVE_STATUS_OK && native_root != 0 ==> r == Ok::<u32, BridgeError>(native_root),
{
    if status != NATIVE_STATUS_OK {
        return Err(native_error(status, "get_root"));
    }
    if native_root == 0 {
        return Err(
            BridgeError::new(Status::HostError, "native get_root returned a zero node handle"),
        );
    }
    Ok(native_root)
}

// ---------------------------------------------------------------------
// The host state
// ---------------------------------------------------------------------

/// A registered native listener: its native handle and the bridge identity
/// it stands for.
#[derive(Debug)]
pub struct ListenerMapping {
    pub native: u32,
    pub node: NodeId,
    pub listener: ListenerId,
    pub callback: CallbackId,
    pub name: String,
}

/// A live native timer.
#[derive(Clone, Copy, Debug)]
pub struct TimerMapping {
    pub callback: CallbackId,
    pub repeating: bool,
}

/// One native renderer call that a command asks for.  Node handles are
/// native; a zero reference appends.
#[derive(Debug)]
pub enum NativeCall {
    CreateElement { tag: String },
    CreateRawText { text: String },
    InsertBefore { parent: u32, child: u32, reference: u32 },
    RemoveChild { parent: u32, child: u32 },
    DestroyNode { node: u32 },
    SetAttribute { node: u32, name: String, value: Option<String> },
    AddEventListener { node: u32, listener: u32, callback: u32, name: String },
    RemoveEventListener { node: u32, listener: u32, callback: u32, name: String },
}

/// The abstract state of a native host.
pub struct NativeModel {
    pub renderer: Option<u64>,
    pub root: u32,
    pub nodes: Seq<(u32, u32)>,
    pub listeners: Seq<ListenerMapping>,
    pub next_native_listener: Option<u32>,
    pub timers: Map<u32, TimerMapping>,
    pub last_sequence: Option<u32>,
    pub poisoned: bool,
}

/// The bookkeeping of one acquired native renderer: which bridge node each
/// native node handle stands for, the native listeners and timers, the last
/// applied batch and whether a failure has poisoned it.  The native calls
/// themselves are made by the embedding, which hands back their outcome.
pub struct NativeHost {
    renderer: Option<u64>,
    root: NodeId,
    nodes: Vec<(u32, u32)>,
    listeners: Vec<ListenerMapping>,
    next_native_listener: Option<u32>,
    timers: HashMap<u32, TimerMapping>,
    last_sequence: Option<u32>,
    poisoned: bool,
}

/// The native handle mapped for `node`, if any.
pub open spec fn mapped(nodes: Seq<(u32, u32)>, node: u32) -> Option<u32> {
    if exists|i: int| 0 <= i < nodes.len() && nodes[i].0 == node {
        Some(nodes[choose|i: int| 0 <= i < nodes.len() && nodes[i].0 == node].1)
    } else {
        None
    }
}

pub open spec fn handle_used(nodes: Seq<(u32, u32)>, handle: u32) -> bool {
    exists|i: int| 0 <= i < nodes.len() && nodes[i].1 == handle
}

pub open spec fn listener_exists(ls: Seq<ListenerMapping>, listener: u32) -> bool {
    exists|i: int| 0 <= i < ls.len() && ls[i].listener@ == listener
}

/// The position of the registration with this exact identity, if any.
pub open spec fn identity_at(
    ls: Seq<ListenerMapping>,
    i: int,
    node: u32,
    listener: u32,
    callback: u32,
    name: Seq<char>,
) -> bool {
    &&& 0 <= i < ls.len()
    &&& ls[i].node@ == node
    &&& ls[i].listener@ == listener
    &&& ls[i].callback@ == callback
    &&& ls[i].name@ == name
}

pub open spec fn native_listener_at(ls: Seq<ListenerMapping>, i: int, native: u32) -> bool {
    0 <= i < ls.len() && ls[i].native == native
}

impl View for NativeHost {
    type V = NativeModel;

    closed spec fn view(&self) -> NativeModel {
        NativeModel {
            renderer: self.renderer,
            root: self.root@,
            nodes: self.nodes@,
            listeners: self.listeners@,
            next_native_listener: self.next_native_listener,
            timers: self.timers@,
            last_sequence: self.last_sequence,
            poisoned: self.poisoned,
        }
    }
}

/// Node identifiers and native handles are each mapped at most once, and
/// native listener handles are unique.
pub open spec fn native_ok(m: NativeModel) -> bool {
    &&& forall|i: int, j: int|
        0 <= i < m.nodes.len() && 0 <= j < m.nodes.len() && i != j ==> m.nodes[i].0 != m.nodes[j].0
            && m.nodes[i].1 != m.nodes[j].1
    &&& forall|i: int, j: int|
        0 <= i < m.listeners.len() && 0 <= j < m.listeners.len() && i != j ==> m.listeners[i].native
            != m.listeners[j].native
}

/// Why the host refuses work: released, then poisoned.
pub open spec fn unusable_status(m: NativeModel) -> Option<Status> {
    if m.renderer is None {
        Some(Status::InvalidSession)
    } else if m.poisoned {
        Some(Status::HostError)
    } else {
        None
    }
}

/// One step of applying a command batch on the native renderer.
#[derive(Clone, Copy, Debug, PartialEq, Eq, Structural)]
pub enum BatchStep {
    /// Prepare, call and complete the command at this index.
    Apply(usize),
    /// Flush the renderer: a final batch only, after every command.
    Flush,
    /// Record the batch as applied.
    Finish,
}

/// The steps of a batch of `len` commands, in order: each command, a flush
/// when the batch is final, then the end.
pub open spec fn batch_plan(len: nat, final_commit: bool) -> Seq<BatchStep> {
    Seq::new(len, |i: int| BatchStep::Apply(i as usize)) + (if final_commit {
        seq![BatchStep::Flush]
    } else {
        Seq::empty()
    }) + seq![BatchStep::Finish]
}

/// The order of native work in a batch: the commands in order, then exactly
/// one flush after all of them for a final batch and none otherwise, then
/// the end.
pub proof fn lemma_batch_plan(len: nat, final_commit: bool)
    requires
        len < usize::MAX,
    ensures
        batch_plan(len, final_commit).len() == len + if final_commit {
            2int
        } else {
            1int
        },
        forall|i: int| 0 <= i < len ==> #[trigger] batch_plan(len, final_commit)[i] == BatchStep::Apply(i as usize),
        final_commit ==> batch_plan(len, final_commit)[len as int] == BatchStep::Flush,
        batch_plan(len, final_commit).last() == BatchStep::Finish,
        forall|i: int|
            0 <= i < batch_plan(len, final_commit).len() && #[trigger] batch_plan(len, final_commit)[i]
                == BatchStep::Flush ==> final_commit && i == len,
{
}

/// Walks the steps of one batch; the embedding performs each step and a
/// failed step ends the batch (see `NativeHost::command_failed`).
pub struct BatchFlow {
    len: usize,
    final_commit: bool,
    position: usize,
}

impl BatchFlow {
    pub closed spec fn plan(&self) -> Seq<BatchStep> {
        batch_plan(self.len as nat, self.final_commit)
    }

    pub closed spec fn position(&self) -> nat {
        self.position as nat
    }

    pub closed spec fn wf(&self) -> bool {
        &&& self.position < self.plan().len()
        &&& self.len < usize::MAX
    }

    /// The walk over a batch of `len` commands.
    pub fn start(len: usize, final_commit: bool) -> (r: BatchFlow)
        requires
            len < usize::MAX,
        ensures
            r.wf(),
            r.plan() == batch_plan(len as nat, final_commit),
            r.position() == 0,
    {
        BatchFlow { len, final_commit, position: 0 }
    }

    /// The current step.
    pub fn step(&self) -> (r: BatchStep)
        requires
            self.wf(),
        ensures
            r == self.plan()[self.position() as int],
    {
        if self.position < self.len {
            BatchStep::Apply(self.position)
        } else if self.position == self.len && self.final_commit {
            BatchStep::Flush
        } else {
            BatchStep::Finish
        }
    }

    /// Moves past a step that succeeded.
    pub fn advance(&mut self)
        requires
            old(self).wf(),
            old(self).plan()[old(self).position() as int] != BatchStep::Finish,
        ensures
            final(self).wf(),
            final(self).plan() == old(self).plan(),
            final(self).position() == old(self).position() + 1,
    {
        self.position = self.position + 1;
    }
}

/// A poisoned host stays poisoned: no call clears the flag.
pub open spec fn keeps_poison(before: NativeModel, after: NativeModel) -> bool {
    before.poisoned ==> after.poisoned
}

/// Poisoning is permanent: through any run of calls that keep the flag (every
/// call that changes the host), a poisoned host stays poisoned, and while it
/// holds its renderer every batch, event, timer and epoch call is refused with
/// `HostError` "NativeHost is permanently poisoned" before a native call.
pub proof fn lemma_poisoned_host_refuses(models: Seq<NativeModel>)
    requires
        models.len() > 0,
        models[0].poisoned,
        forall|i: int| 0 <= i < models.len() - 1 ==> keeps_poison(#[trigger] models[i], models[i + 1]),
    ensures
        forall|i: int| 0 <= i < models.len() ==> (#[trigger] models[i]).poisoned,
        forall|i: int|
            0 <= i < models.len() && models[i].renderer is Some ==> unusable_status(#[trigger] models[i])
                == Some(Status::HostError) && unusable_message(models[i])
                == "NativeHost is permanently poisoned"@,
{
    assert forall|i: int| 0 <= i < models.len() implies (#[trigger] models[i]).poisoned by {
        lemma_poisoned_upto(models, i);
    }
}

proof fn lemma_poisoned_upto(models: Seq<NativeModel>, i: int)
    requires
        0 <= i < models.len(),
        models[0].poisoned,
        forall|j: int| 0 <= j < models.len() - 1 ==> keeps_poison(#[trigger] models[j], models[j + 1]),
    ensures
        models[i].poisoned,
    decreases i,
{
    if i > 0 {
        lemma_poisoned_upto(models, i - 1);
        assert(keeps_poison(models[i - 1], models[i]));
    }
}

/// The message a released or poisoned host refuses work with.
pub open spec fn unusable_message(m: NativeModel) -> Seq<char> {
    if m.renderer is None {
        "native renderer is released"@
    } else {
        "NativeHost is permanently poisoned"@
    }
}

/// The message of a node that the host has not mapped.
pub open spec fn stale_native_node(node: u32) -> Seq<char> {
    "invalid or stale native node "@ + decimal_spec(node as nat)
}

impl NativeHost {
    /// The host of a freshly acquired renderer whose root node has the
    /// native handle `native_root`.
    pub fn new(renderer: u64, root: NodeId, native_root: u32) -> (r: NativeHost)
        ensures
            native_ok(r@),
            r@.renderer == Some(renderer),
            r@.root == root@,
            r@.nodes == seq![(root@, native_root)],
            r@.listeners.len() == 0,
            r@.next_native_listener == Some(1u32),
            r@.timers == Map::<u32, TimerMapping>::empty(),
            r@.last_sequence is None,
            !r@.poisoned,
    {
        let mut nodes: Vec<(u32, u32)> = Vec::new();
        nodes.push((root.get(), native_root));
        let r = NativeHost {
            renderer: Some(renderer),
            root,
            nodes,
            listeners: Vec::new(),
            next_native_listener: Some(1),
            timers: HashMap::new(),
            last_sequence: None,
            poisoned: false,
        };
        proof {
            assert(r@.nodes =~= seq![(root@, native_root)]);
        }
        r
    }

    /// The renderer, unless the host is released or poisoned.
    pub fn ensure_usable(&self) -> (r: Result<u64, BridgeError>)
        ensures
            match unusable_status(self@) {
                Some(s) => r matches Err(e) && e.status == s && e.message@ == unusable_message(self@),
                None => r == Ok::<u64, BridgeError>(self@.renderer->0),
            },
    {
        let renderer = match self.renderer {
            Some(r) => r,
            None => return Err(BridgeError::new(Status::InvalidSession, "native renderer is released")),
        };
        if self.poisoned {
            return Err(BridgeError::new(Status::HostError, "NativeHost is permanently poisoned"));
        }
        Ok(renderer)
    }

    /// Poisons the host unless the native call succeeded.
    pub fn require_host_success(&mut self, status: u32, operation: &str) -> (r: Result<
        (),
        BridgeError,
    >)
        requires
            native_ok(old(self)@),
        ensures
            native_ok(final(self)@),
            keeps_poison(old(self)@, final(self)@),
            status == NATIVE_STATUS_OK ==> r is Ok && final(self)@ == old(self)@,
            status != NATIVE_STATUS_OK ==> (r matches Err(e) && e.status == status_of_native(status)
                && e.message@ == native_failure(operation@, status)) && final(self)@ == (NativeModel {
                poisoned: true,
                ..old(self)@
            }),
    {
        if status == NATIVE_STATUS_OK {
            Ok(())
        } else {
            self.poisoned = true;
            Err(native_error(status, operation))
        }
    }

    fn native_node(&self, node: NodeId) -> (r: Result<u32, BridgeError>)
        requires
            native_ok(self@),
        ensures
            match mapped(self@.nodes, node@) {
                Some(h) => r == Ok::<u32, BridgeError>(h),
                None => r matches Err(e) && e.status == Status::InvalidOwnership && e.message@
                    == stale_native_node(node@),
            },
    {
        let n = node.get();
        let mut i: usize = 0;
        while i < self.nodes.len()
            invariant
                n == node@,
                native_ok(self@),
                i <= self.nodes@.len(),
                forall|j: int| 0 <= j < i ==> self.nodes@[j].0 != n,
            decreases self.nodes@.len() - i,
        {
            if self.nodes[i].0 == n {
                proof {
                    let k = choose|k: int| 0 <= k < self@.nodes.len() && self@.nodes[k].0 == n;
                    assert(k == i);
                }
                return Ok(self.nodes[i].1);
            }
            i = i + 1;
        }
        let m = message_with("invalid or stale native node ", n as u64, "");
        proof {
            reveal_strlit("");
            assert(m@ =~= stale_native_node(n));
        }
        Err(BridgeError::new_owned(Status::InvalidOwnership, m))
    }

    fn handle_in_use(&self, handle: u32) -> (r: bool)
        ensures
            r == handle_used(self@.nodes, handle),
    {
        let mut i: usize = 0;
        while i < self.nodes.len()
            invariant
                i <= self.nodes@.len(),
                forall|j: int| 0 <= j < i ==> self.nodes@[j].1 != handle,
            decreases self.nodes@.len() - i,
        {
            if self.nodes[i].1 == handle {
                return true;
            }
            i = i + 1;
        }
        false
    }

    fn has_listener(&self, listener: ListenerId) -> (r: bool)
        ensures
            r == listener_exists(self@.listeners, listener@),
    {
        let mut i: usize = 0;
        while i < self.listeners.len()
            invariant
                i <= self.listeners@.len(),
                forall|j: int| 0 <= j < i ==> self.listeners@[j].listener@ != listener@,
            decreases self.listeners@.len() - i,
        {
            if self.listeners[i].listener.get() == listener.get() {
                return true;
            }
            i = i + 1;
        }
        false
    }

    fn find_identity(&self, node: NodeId, listener: ListenerId, callback: CallbackId, name: &str) -> (r:
        Option<usize>)
        ensures
            r matches Some(i) ==> identity_at(self@.listeners, i as int, node@, listener@, callback@, name@),
            r is None ==> forall|i: int| !identity_at(self@.listeners, i, node@, listener@, callback@, name@),
    {
        let mut i: usize = 0;
        while i < self.listeners.len()
            invariant
                i <= self.listeners@.len(),
                forall|j: int| 0 <= j < i ==> !identity_at(self@.listeners, j, node@, listener@, callback@, name@),
            decreases self.listeners@.len() - i,
        {
            let m = &self.listeners[i];
            if m.node.get() == node.get() && m.listener.get() == listener.get() && m.callback.get()
                == callback.get() && str_eq(m.name.as_str(), name) {
                return Some(i);
            }
            i = i + 1;
        }
        None
    }

    fn find_native_listener(&self, native: u32) -> (r: Option<usize>)
        ensures
            r matches Some(i) ==> native_listener_at(self@.listeners, i as int, native),
            r is None ==> forall|i: int| !native_listener_at(self@.listeners, i, native),
    {
        let mut i: usize = 0;
        while i < self.listeners.len()
            invariant
                i <= self.listeners@.len(),
                forall|j: int| 0 <= j < i ==> !native_listener_at(self@.listeners, j, native),
            decreases self.listeners@.len() - i,
        {
            if self.listeners[i].native == native {
                return Some(i);
            }
            i = i + 1;
        }
        None
    }
}

/// The registration with native handle `h`, if any.
pub open spec fn listener_for(ls: Seq<ListenerMapping>, h: u32) -> Option<ListenerMapping> {
    if exists|i: int| native_listener_at(ls, i, h) {
        Some(ls[choose|i: int| native_listener_at(ls, i, h)])
    } else {
        None
    }
}

/// The native handle after `next`, if any is left.
pub open spec fn after_handle(next: u32) -> Option<u32> {
    if next == u32::MAX {
        None
    } else {
        Some((next + 1) as u32)
    }
}

/// Why a command cannot be turned into a native call, if it cannot.
pub open spec fn prepare_error(m: NativeModel, c: Command) -> Option<Status> {
    match c {
        Command::CreateElement { node, .. } => if mapped(m.nodes, node@) is Some {
            Some(Status::InvalidOwnership)
        } else {
            None
        },
        Command::CreateRawText { node, .. } => if mapped(m.nodes, node@) is Some {
            Some(Status::InvalidOwnership)
        } else {
            None
        },
        Command::AppendElement { parent, child } => if mapped(m.nodes, parent@) is None || mapped(
            m.nodes,
            child@,
        ) is None {
            Some(Status::InvalidOwnership)
        } else {
            None
        },
        Command::InsertElementBefore { parent, child, reference } => if mapped(m.nodes, parent@) is None
            || mapped(m.nodes, child@) is None || mapped(m.nodes, reference@) is None {
            Some(Status::InvalidOwnership)
        } else {
            None
        },
        Command::RemoveElement { parent, child } => if mapped(m.nodes, parent@) is None || mapped(
            m.nodes,
            child@,
        ) is None {
            Some(Status::InvalidOwnership)
        } else {
            None
        },
        Command::DestroyNode { node } => if node@ == m.root || mapped(m.nodes, node@) is None {
            Some(Status::InvalidOwnership)
        } else {
            None
        },
        Command::SetAttribute { node, .. } => if mapped(m.nodes, node@) is None {
            Some(Status::InvalidOwnership)
        } else {
            None
        },
        Command::AddEventListener { node, listener, .. } => if listener_exists(m.listeners, listener@) {
            Some(Status::InvalidListener)
        } else if mapped(m.nodes, node@) is None {
            Some(Status::InvalidOwnership)
        } else if m.next_native_listener is None {
            Some(Status::ResourceExhausted)
        } else {
            None
        },
        Command::RemoveEventListener { node, listener, callback, name } => if !(exists|i: int|
            identity_at(m.listeners, i, node@, listener@, callback@, name@)) {
            Some(Status::InvalidListener)
        } else if mapped(m.nodes, node@) is None {
            Some(Status::InvalidOwnership)
        } else {
            None
        },
    }
}

/// The message that `prepare` refuses command `c` with, where
/// `prepare_error` names a status: after the first check that fails.
pub open spec fn prepare_refusal(m: NativeModel, c: Command) -> Seq<char> {
    let stale_first = |a: u32, b: u32|
        if mapped(m.nodes, a) is None {
            stale_native_node(a)
        } else {
            stale_native_node(b)
        };
    match c {
        Command::CreateElement { node, .. } => "native node "@ + decimal_spec(node@ as nat)
            + " already exists"@,
        Command::CreateRawText { node, .. } => "native node "@ + decimal_spec(node@ as nat)
            + " already exists"@,
        Command::AppendElement { parent, child } => stale_first(parent@, child@),
        Command::InsertElementBefore { parent, child, reference } => if mapped(
            m.nodes,
            parent@,
        ) is None || mapped(m.nodes, child@) is None {
            stale_first(parent@, child@)
        } else {
            stale_native_node(reference@)
        },
        Command::RemoveElement { parent, child } => stale_first(parent@, child@),
        Command::DestroyNode { node } => if node@ == m.root {
            "the native root is caller-owned"@
        } else {
            stale_native_node(node@)
        },
        Command::SetAttribute { node, .. } => stale_native_node(node@),
        Command::AddEventListener { node, listener, .. } => if listener_exists(
            m.listeners,
            listener@,
        ) {
            "native listener "@ + decimal_spec(listener@ as nat) + " already exists"@
        } else if mapped(m.nodes, node@) is None {
            stale_native_node(node@)
        } else {
            "native listener handle space is exhausted"@
        },
        Command::RemoveEventListener { node, listener, callback, name } => if !(exists|i: int|
            identity_at(m.listeners, i, node@, listener@, callback@, name@)) {
            "native listener "@ + decimal_spec(listener@ as nat) + " identity does not match"@
        } else {
            stale_native_node(node@)
        },
    }
}

/// `call` is the native call for command `c` in state `m`.
pub open spec fn call_for(m: NativeModel, c: Command, call: NativeCall) -> bool {
    match c {
        Command::CreateElement { tag, .. } => call matches NativeCall::CreateElement { tag: t }
            && t@ == tag@,
        Command::CreateRawText { text, .. } => call matches NativeCall::CreateRawText { text: t }
            && t@ == text@,
        Command::AppendElement { parent, child } => call == NativeCall::InsertBefore {
            parent: mapped(m.nodes, parent@)->0,
            child: mapped(m.nodes, child@)->0,
            reference: 0,
        },
        Command::InsertElementBefore { parent, child, reference } => call
            == NativeCall::InsertBefore {
            parent: mapped(m.nodes, parent@)->0,
            child: mapped(m.nodes, child@)->0,
            reference: mapped(m.nodes, reference@)->0,
        },
        Command::RemoveElement { parent, child } => call == NativeCall::RemoveChild {
            parent: mapped(m.nodes, parent@)->0,
            child: mapped(m.nodes, child@)->0,
        },
        Command::DestroyNode { node } => call == NativeCall::DestroyNode {
            node: mapped(m.nodes, node@)->0,
        },
        Command::SetAttribute { node, name, value } => call matches NativeCall::SetAttribute {
            node: n,
            name: nm,
            value: v,
        } && n == mapped(m.nodes, node@)->0 && nm@ == name@ && match value {
            Some(s) => v matches Some(vs) && vs@ == s@,
            None => v is None,
        },
        Command::AddEventListener { node, callback, name, .. } => call matches NativeCall::AddEventListener {
            node: n,
            listener: l,
            callback: cb,
            name: nm,
        } && n == mapped(m.nodes, node@)->0 && l == m.next_native_listener->0 && cb == callback@
            && nm@ == name@,
        Command::RemoveEventListener { node, listener, callback, name } => call matches NativeCall::RemoveEventListener {
            node: n,
            listener: l,
            callback: cb,
            name: nm,
        } && n == mapped(m.nodes, node@)->0 && cb == callback@ && nm@ == name@ && (exists|i: int|
            identity_at(m.listeners, i, node@, listener@, callback@, name@) && m.listeners[i].native
                == l),
    }
}

/// The message of a timer that the host does not hold.
pub open spec fn stale_native_timer(timer: u32) -> Seq<char> {
    "invalid or stale native timer "@ + decimal_spec(timer as nat)
}

/// The refusal of a timer that the host does not hold.
fn stale_timer(timer: u32) -> (r: BridgeError)
    ensures
        r.status == Status::InvalidArgument,
        r.message@ == stale_native_timer(timer),
{
    let m = message_with("invalid or stale native timer ", timer as u64, "");
    proof {
        reveal_strlit("");
        assert(m@ =~= stale_native_timer(timer));
    }
    BridgeError::new_owned(Status::InvalidArgument, m)
}

/// The name of the native operation that `call` makes.
pub open spec fn call_operation(call: NativeCall) -> Seq<char> {
    match call {
        NativeCall::CreateElement { .. } => "create_element"@,
        NativeCall::CreateRawText { .. } => "create_raw_text"@,
        NativeCall::InsertBefore { .. } => "insert_before"@,
        NativeCall::RemoveChild { .. } => "remove_child"@,
        NativeCall::DestroyNode { .. } => "destroy_node"@,
        NativeCall::SetAttribute { .. } => "set_attribute"@,
        NativeCall::AddEventListener { .. } => "add_event_listener"@,
        NativeCall::RemoveEventListener { .. } => "remove_event_listener"@,
    }
}

impl NativeHost {
    /// Checks that the host may apply a batch with `sequence`: it must be
    /// usable, and the sequence newer than the last applied one.
    pub fn begin_batch(&self, sequence: u32) -> (r: Result<u64, BridgeError>)
        ensures
            unusable_status(self@) matches Some(s) ==> (r matches Err(e) && e.status == s
                && e.message@ == unusable_message(self@)),
            unusable_status(self@) is None && (self@.last_sequence matches Some(last) && sequence
                <= last) ==> (r matches Err(e) && e.status == Status::InvalidArgument && e.message@
                == "command batch sequence "@ + decimal_spec(sequence as nat)
                + " is not newer than the last applied sequence"@),
            unusable_status(self@) is None && !(self@.last_sequence matches Some(last) && sequence
                <= last) ==> r == Ok::<u64, BridgeError>(self@.renderer->0),
    {
        let renderer = match self.ensure_usable() {
            Ok(r) => r,
            Err(e) => return Err(e),
        };
        match self.last_sequence {
            Some(last) => {
                if sequence <= last {
                    return Err(
                        BridgeError::new_owned(
                            Status::InvalidArgument,
                            message_with(
                                "command batch sequence ",
                                sequence as u64,
                                " is not newer than the last applied sequence",
                            ),
                        ),
                    );
                }
            },
            None => {},
        }
        Ok(renderer)
    }

    /// Turns a command into the native call it needs, resolving node
    /// handles and allocating a native listener handle.
    #[verifier::rlimit(50)]
    #[verifier::spinoff_prover]
    pub fn prepare(&mut self, command: &Command) -> (r: Result<NativeCall, BridgeError>)
        requires
            native_ok(old(self)@),
        ensures
            native_ok(final(self)@),
            keeps_poison(old(self)@, final(self)@),
            prepare_error(old(self)@, *command) matches Some(s) ==> (r matches Err(e) && e.status
                == s && e.message@ == prepare_refusal(old(self)@, *command)) && final(self)@
                == old(self)@,
            prepare_error(old(self)@, *command) is None ==> (r matches Ok(call) && call_for(
                old(self)@,
                *command,
                call,
            )) && final(self)@ == (if command is AddEventListener {
                NativeModel {
                    next_native_listener: after_handle(old(self)@.next_native_listener->0),
                    ..old(self)@
                }
            } else {
                old(self)@
            }),
    {
        match command {
            Command::CreateElement { node, tag } => {
                match self.native_node(*node) {
                    Ok(_) => {
                        return Err(
                            BridgeError::new_owned(
                                Status::InvalidOwnership,
                                message_with("native node ", node.get() as u64, " already exists"),
                            ),
                        );
                    },
                    Err(_) => {},
                }
                Ok(NativeCall::CreateElement { tag: copy_string(tag) })
            },
            Command::CreateRawText { node, text } => {
                match self.native_node(*node) {
                    Ok(_) => {
                        return Err(
                            BridgeError::new_owned(
                                Status::InvalidOwnership,
                                message_with("native node ", node.get() as u64, " already exists"),
                            ),
                        );
                    },
                    Err(_) => {},
                }
                Ok(NativeCall::CreateRawText { text: copy_string(text) })
            },
            Command::AppendElement { parent, child } => {
                let p = match self.native_node(*parent) {
                    Ok(h) => h,
                    Err(e) => return Err(e),
                };
                let c = match self.native_node(*child) {
                    Ok(h) => h,
                    Err(e) => return Err(e),
                };
                Ok(NativeCall::InsertBefore { parent: p, child: c, reference: 0 })
            },
            Command::InsertElementBefore { parent, child, reference } => {
                let p = match self.native_node(*parent) {
                    Ok(h) => h,
                    Err(e) => return Err(e),
                };
                let c = match self.native_node(*child) {
                    Ok(h) => h,
                    Err(e) => return Err(e),
                };
                let rf = match self.native_node(*reference) {
                    Ok(h) => h,
                    Err(e) => return Err(e),
                };
                Ok(NativeCall::InsertBefore { parent: p, child: c, reference: rf })
            },
            Command::RemoveElement { parent, child } => {
                let p = match self.native_node(*parent) {
                    Ok(h) => h,
                    Err(e) => return Err(e),
                };
                let c = match self.native_node(*child) {
                    Ok(h) => h,
                    Err(e) => return Err(e),
                };
                Ok(NativeCall::RemoveChild { parent: p, child: c })
            },
            Command::DestroyNode { node } => {
                if node.get() == self.root.get() {
                    return Err(
                        BridgeError::new(Status::InvalidOwnership, "the native root is caller-owned"),
                    );
                }
                let n = match self.native_node(*node) {
                    Ok(h) => h,
                    Err(e) => return Err(e),
                };
                Ok(NativeCall::DestroyNode { node: n })
            },
            Command::SetAttribute { node, name, value } => {
                let n = match self.native_node(*node) {
                    Ok(h) => h,
                    Err(e) => return Err(e),
                };
                let v = match value {
                    Some(s) => Some(copy_string(s)),
                    None => None,
                };
                Ok(NativeCall::SetAttribute { node: n, name: copy_string(name), value: v })
            },
            Command::AddEventListener { node, listener, callback, name } => {
                if self.has_listener(*listener) {
                    return Err(
                        BridgeError::new_owned(
                            Status::InvalidListener,
                            message_with("native listener ", listener.get() as u64, " already exists"),
                        ),
                    );
                }
                let n = match self.native_node(*node) {
                    Ok(h) => h,
                    Err(e) => return Err(e),
                };
                let native_listener = match self.next_native_listener {
                    Some(h) => h,
                    None => {
                        return Err(
                            BridgeError::new(
                                Status::ResourceExhausted,
                                "native listener handle space is exhausted",
                            ),
                        );
                    },
                };
                self.next_native_listener = native_listener.checked_add(1);
                Ok(
                    NativeCall::AddEventListener {
                        node: n,
                        listener: native_listener,
                        callback: callback.get(),
                        name: copy_string(name),
                    },
                )
            },
            Command::RemoveEventListener { node, listener, callback, name } => {
                let i = match self.find_identity(*node, *listener, *callback, name.as_str()) {
                    Some(i) => i,
                    None => {
                        return Err(
                            BridgeError::new_owned(
                                Status::InvalidListener,
                                message_with(
                                    "native listener ",
                                    listener.get() as u64,
                                    " identity does not match",
                                ),
                            ),
                        );
                    },
                };
                let native_listener = self.listeners[i].native;
                let n = match self.native_node(*node) {
                    Ok(h) => h,
                    Err(e) => return Err(e),
                };
                Ok(
                    NativeCall::RemoveEventListener {
                        node: n,
                        listener: native_listener,
                        callback: callback.get(),
                        name: copy_string(name),
                    },
                )
            },
        }
    }

    /// A command of a batch failed: a failure after the first command
    /// leaves the renderer half-updated and poisons the host.
    pub fn command_failed(&mut self, applied: usize)
        ensures
            keeps_poison(old(self)@, final(self)@),
            applied == 0 ==> final(self)@ == old(self)@,
            applied != 0 ==> final(self)@ == (NativeModel { poisoned: true, ..old(self)@ }),
    {
        if applied != 0 {
            self.poisoned = true;
        }
    }

    /// Records a batch as applied once its final flush, if any, succeeded.
    pub fn finish_batch(&mut self, sequence: u32, flush_status: Option<u32>) -> (r: Result<
        (),
        BridgeError,
    >)
        requires
            native_ok(old(self)@),
        ensures
            native_ok(final(self)@),
            keeps_poison(old(self)@, final(self)@),
            (flush_status matches Some(s) && s != NATIVE_STATUS_OK) ==> (r matches Err(e)
                && e.status == status_of_native(flush_status->0) && e.message@ == native_failure(
                "flush"@,
                flush_status->0,
            )) && final(self)@ == (NativeModel {
                poisoned: true,
                ..old(self)@
            }),
            !(flush_status matches Some(s) && s != NATIVE_STATUS_OK) ==> r is Ok && final(self)@
                == (NativeModel { last_sequence: Some(sequence), ..old(self)@ }),
    {
        match flush_status {
            Some(s) => {
                match self.require_host_success(s, "flush") {
                    Ok(()) => {},
                    Err(e) => return Err(e),
                }
            },
            None => {},
        }
        self.last_sequence = Some(sequence);
        Ok(())
    }
}

/// `new` maps `node` to `h` and every other node as `old` does.
pub open spec fn nodes_with(old: Seq<(u32, u32)>, new: Seq<(u32, u32)>, node: u32, h: Option<u32>) -> bool {
    forall|k: u32| #[trigger] mapped(new, k) == if k == node {
        h
    } else {
        mapped(old, k)
    }
}

/// `new` registers `l` under handle `h` (or nothing, for `None`) and every
/// other handle as `old` does.
pub open spec fn listeners_with(
    old: Seq<ListenerMapping>,
    new: Seq<ListenerMapping>,
    h: u32,
    l: Option<ListenerMapping>,
) -> bool {
    forall|k: u32| #[trigger] listener_for(new, k) == if k == h {
        l
    } else {
        listener_for(old, k)
    }
}

/// `m` is a registration of handle `h` for this bridge identity.
pub open spec fn registers(
    m: ListenerMapping,
    h: u32,
    node: u32,
    listener: u32,
    callback: u32,
    name: Seq<char>,
) -> bool {
    m.native == h && m.node@ == node && m.listener@ == listener && m.callback@ == callback
        && m.name@ == name
}

impl NativeHost {
    fn push_node(&mut self, node: u32, h: u32)
        requires
            native_ok(old(self)@),
            node != 0,
            mapped(old(self)@.nodes, node) is None,
            !handle_used(old(self)@.nodes, h),
        ensures
            native_ok(final(self)@),
            final(self)@ == (NativeModel { nodes: final(self)@.nodes, ..old(self)@ }),
            final(self)@.nodes == old(self)@.nodes.push((node, h)),
            nodes_with(old(self)@.nodes, final(self)@.nodes, node, Some(h)),
    {
        let ghost o = self@.nodes;
        self.nodes.push((node, h));
        proof {
            let n = self@.nodes;
            assert forall|k: u32| #[trigger] mapped(n, k) == if k == node {
                Some(h)
            } else {
                mapped(o, k)
            } by {
                if k == node {
                    assert(n[o.len() as int].0 == k);
                    let j = choose|j: int| 0 <= j < n.len() && n[j].0 == k;
                    assert(j == o.len());
                } else {
                    if exists|i: int| 0 <= i < o.len() && o[i].0 == k {
                        let i = choose|i: int| 0 <= i < o.len() && o[i].0 == k;
                        assert(n[i].0 == k);
                        let j = choose|j: int| 0 <= j < n.len() && n[j].0 == k;
                        assert(j < o.len());
                        assert(o[j].0 == k);
                        if i != j {
                            assert(o[i].0 != o[j].0);
                        }
                    }
                    if exists|j: int| 0 <= j < n.len() && n[j].0 == k {
                        let j = choose|j: int| 0 <= j < n.len() && n[j].0 == k;
                        assert(j < o.len());
                        assert(o[j].0 == k);
                    }
                }
            }
            assert forall|i: int, j: int| 0 <= i < n.len() && 0 <= j < n.len() && i != j implies n[i].0
                != n[j].0 && n[i].1 != n[j].1 by {
                if i == o.len() {
                    assert(o[j].0 != node) by {
                        if o[j].0 == node {
                            assert(exists|x: int| 0 <= x < o.len() && o[x].0 == node);
                        }
                    }
                    assert(o[j].1 != h);
                } else if j == o.len() {
                    assert(o[i].0 != node) by {
                        if o[i].0 == node {
                            assert(exists|x: int| 0 <= x < o.len() && o[x].0 == node);
                        }
                    }
                    assert(o[i].1 != h);
                }
            }
        }
    }

    fn remove_node(&mut self, node: u32)
        requires
            native_ok(old(self)@),
        ensures
            native_ok(final(self)@),
            final(self)@ == (NativeModel { nodes: final(self)@.nodes, ..old(self)@ }),
            nodes_with(old(self)@.nodes, final(self)@.nodes, node, None),
            forall|h: u32| #[trigger] handle_used(final(self)@.nodes, h) ==> handle_used(old(self)@.nodes, h),
    {
        let ghost o = self@.nodes;
        let mut i: usize = 0;
        while i < self.nodes.len()
            invariant
                self@.nodes == o,
                i <= o.len(),
                forall|j: int| 0 <= j < i ==> o[j].0 != node,
            ensures
                self@.nodes == o,
                i <= o.len(),
                i < o.len() ==> o[i as int].0 == node,
                forall|j: int| 0 <= j < i ==> o[j].0 != node,
            decreases o.len() - i,
        {
            if self.nodes[i].0 == node {
                break;
            }
            i = i + 1;
        }
        if i == self.nodes.len() {
            proof {
                assert forall|k: u32| #[trigger] mapped(o, k) == if k == node {
                    None
                } else {
                    mapped(o, k)
                } by {}
            }
            return;
        }
        self.nodes.remove(i);
        proof {
            let n = self@.nodes;
            let sh = |a: int| if a < i { a } else { a + 1 };
            assert forall|a: int| 0 <= a < n.len() implies #[trigger] n[a] == o[sh(a)] by {}
            assert forall|k: u32| #[trigger] mapped(n, k) == if k == node {
                None
            } else {
                mapped(o, k)
            } by {
                if exists|j: int| 0 <= j < n.len() && n[j].0 == k {
                    let j = choose|j: int| 0 <= j < n.len() && n[j].0 == k;
                    assert(n[j] == o[sh(j)]);
                    if k == node {
                        assert(o[sh(j)].0 == o[i as int].0);
                        assert(sh(j) != i);
                    } else {
                        let x = choose|x: int| 0 <= x < o.len() && o[x].0 == k;
                        assert(o[sh(j)].0 == k);
                        if x != sh(j) {
                            assert(o[x].0 != o[sh(j)].0);
                        }
                    }
                }
                if k != node && exists|x: int| 0 <= x < o.len() && o[x].0 == k {
                    let x = choose|x: int| 0 <= x < o.len() && o[x].0 == k;
                    assert(x != i);
                    let j = if x < i { x } else { x - 1 };
                    assert(n[j] == o[sh(j)]);
                    assert(n[j].0 == k);
                }
            }
            assert forall|a: int, b: int| 0 <= a < n.len() && 0 <= b < n.len() && a != b implies n[a].0
                != n[b].0 && n[a].1 != n[b].1 by {
                assert(n[a] == o[sh(a)]);
                assert(n[b] == o[sh(b)]);
            }
            assert forall|h: u32| #[trigger] handle_used(n, h) implies handle_used(o, h) by {
                let j = choose|j: int| 0 <= j < n.len() && n[j].1 == h;
                assert(n[j] == o[sh(j)]);
            }
        }
    }

    fn remove_listener_handle(&mut self, h: u32)
        requires
            native_ok(old(self)@),
        ensures
            native_ok(final(self)@),
            final(self)@ == (NativeModel { listeners: final(self)@.listeners, ..old(self)@ }),
            listeners_with(old(self)@.listeners, final(self)@.listeners, h, None),
            forall|i: int| 0 <= i < final(self)@.listeners.len() ==> old(self)@.listeners.contains(
                #[trigger] final(self)@.listeners[i],
            ),
    {
        let ghost o = self@.listeners;
        match self.find_native_listener(h) {
            None => {
                proof {
                    assert forall|k: u32| #[trigger] listener_for(o, k) == if k == h {
                        None
                    } else {
                        listener_for(o, k)
                    } by {}
                    assert forall|i: int| 0 <= i < o.len() implies o.contains(#[trigger] o[i]) by {}
                }
            },
            Some(i) => {
                let mut ls: Vec<ListenerMapping> = Vec::new();
                std::mem::swap(&mut ls, &mut self.listeners);
                ls.remove(i);
                std::mem::swap(&mut ls, &mut self.listeners);
                proof {
                    let n = self@.listeners;
                    let sh = |a: int| if a < i { a } else { a + 1 };
                    assert forall|a: int| 0 <= a < n.len() implies #[trigger] n[a] == o[sh(a)] by {}
                    assert forall|k: u32| #[trigger] listener_for(n, k) == if k == h {
                        None
                    } else {
                        listener_for(o, k)
                    } by {
                        if exists|j: int| native_listener_at(n, j, k) {
                            let j = choose|j: int| native_listener_at(n, j, k);
                            assert(n[j] == o[sh(j)]);
                            if k == h {
                                assert(o[sh(j)].native == o[i as int].native);
                                assert(sh(j) != i);
                            } else {
                                let x = choose|x: int| native_listener_at(o, x, k);
                                assert(native_listener_at(o, sh(j), k));
                                if x != sh(j) {
                                    assert(o[x].native != o[sh(j)].native);
                                }
                            }
                        }
                        if k != h && exists|x: int| native_listener_at(o, x, k) {
                            let x = choose|x: int| native_listener_at(o, x, k);
                            assert(x != i);
                            let j = if x < i { x } else { x - 1 };
                            assert(n[j] == o[sh(j)]);
                            assert(native_listener_at(n, j, k));
                        }
                    }
                    assert forall|a: int, b: int|
                        0 <= a < n.len() && 0 <= b < n.len() && a != b implies n[a].native
                        != n[b].native by {
                        assert(n[a] == o[sh(a)]);
                        assert(n[b] == o[sh(b)]);
                    }
                    assert forall|a: int| 0 <= a < n.len() implies o.contains(#[trigger] n[a]) by {
                        assert(n[a] == o[sh(a)]);
                    }
                }
            },
        }
    }

    fn insert_listener(&mut self, m: ListenerMapping)
        requires
            native_ok(old(self)@),
        ensures
            native_ok(final(self)@),
            final(self)@ == (NativeModel { listeners: final(self)@.listeners, ..old(self)@ }),
            listeners_with(old(self)@.listeners, final(self)@.listeners, m.native, Some(m)),
    {
        let h = m.native;
        self.remove_listener_handle(h);
        let ghost o = self@.listeners;
        let mut ls: Vec<ListenerMapping> = Vec::new();
        std::mem::swap(&mut ls, &mut self.listeners);
        ls.push(m);
        std::mem::swap(&mut ls, &mut self.listeners);
        proof {
            let n = self@.listeners;
            assert(n[o.len() as int] == m);
            assert forall|k: u32| #[trigger] listener_for(n, k) == if k == h {
                Some(m)
            } else {
                listener_for(o, k)
            } by {
                if k == h {
                    assert(native_listener_at(n, o.len() as int, k));
                    let j = choose|j: int| native_listener_at(n, j, k);
                    if j < o.len() {
                        assert(native_listener_at(o, j, k));
                        assert(listener_for(o, k) is Some);
                    }
                } else {
                    if exists|j: int| native_listener_at(n, j, k) {
                        let j = choose|j: int| native_listener_at(n, j, k);
                        assert(j < o.len());
                        assert(native_listener_at(o, j, k));
                        let x = choose|x: int| native_listener_at(o, x, k);
                        if x != j {
                            assert(o[x].native != o[j].native);
                        }
                    }
                    if exists|x: int| native_listener_at(o, x, k) {
                        let x = choose|x: int| native_listener_at(o, x, k);
                        assert(native_listener_at(n, x, k));
                    }
                }
            }
            assert forall|a: int, b: int| 0 <= a < n.len() && 0 <= b < n.len() && a != b implies n[a].native
                != n[b].native by {
                if a == o.len() {
                    if native_listener_at(o, b, h) {
                        assert(listener_for(o, h) is Some);
                    }
                } else if b == o.len() {
                    if native_listener_at(o, a, h) {
                        assert(listener_for(o, h) is Some);
                    }
                }
            }
        }
    }

    /// Takes in the outcome of the native call made for `command`: a failed
    /// call poisons the host; a creation must return a fresh nonzero handle.
    pub fn complete(&mut self, command: &Command, call: &NativeCall, status: u32, created: u32) -> (r:
        Result<(), BridgeError>)
        requires
            native_ok(old(self)@),
        ensures
            native_ok(final(self)@),
            keeps_poison(old(self)@, final(self)@),
            status != NATIVE_STATUS_OK ==> (r matches Err(e) && e.status == status_of_native(status)
                && e.message@ == native_failure(call_operation(*call), status)) && final(self)@ == (
            NativeModel { poisoned: true, ..old(self)@ }),
            status == NATIVE_STATUS_OK ==> match *command {
                Command::CreateElement { node, .. } | Command::CreateRawText { node, .. } => {
                    &&& (created == 0 || handle_used(old(self)@.nodes, created) || mapped(
                        old(self)@.nodes,
                        node@,
                    ) is Some) ==> (r matches Err(e) && e.status == Status::HostError && e.message@
                        == "native "@ + call_operation(*call) + " returned an invalid node handle"@)
                        && final(self)@ == (NativeModel { poisoned: true, ..old(self)@ })
                    &&& !(created == 0 || handle_used(old(self)@.nodes, created) || mapped(
                        old(self)@.nodes,
                        node@,
                    ) is Some) ==> r is Ok && final(self)@ == (NativeModel {
                        nodes: old(self)@.nodes.push((node@, created)),
                        ..old(self)@
                    })
                },
                Command::DestroyNode { node } => r is Ok && nodes_with(
                    old(self)@.nodes,
                    final(self)@.nodes,
                    node@,
                    None,
                ) && final(self)@ == (NativeModel { nodes: final(self)@.nodes, ..old(self)@ }),
                Command::AddEventListener { node, listener, callback, name } => r is Ok && (
                *call matches NativeCall::AddEventListener { listener: h, .. } ==> (exists|m: ListenerMapping|
                    registers(m, h, node@, listener@, callback@, name@) && listeners_with(
                        old(self)@.listeners,
                        final(self)@.listeners,
                        h,
                        Some(m),
                    ))) && final(self)@ == (NativeModel {
                    listeners: final(self)@.listeners,
                    ..old(self)@
                }),
                Command::RemoveEventListener { .. } => r is Ok && (*call matches NativeCall::RemoveEventListener {
                    listener: h,
                    ..
                } ==> listeners_with(old(self)@.listeners, final(self)@.listeners, h, None)) && final(self)@ == (NativeModel { listeners: final(self)@.listeners, ..old(self)@ }),
                _ => r is Ok && final(self)@ == old(self)@,
            },
    {
        let operation = match call {
            NativeCall::CreateElement { .. } => "create_element",
            NativeCall::CreateRawText { .. } => "create_raw_text",
            NativeCall::InsertBefore { .. } => "insert_before",
            NativeCall::RemoveChild { .. } => "remove_child",
            NativeCall::DestroyNode { .. } => "destroy_node",
            NativeCall::SetAttribute { .. } => "set_attribute",
            NativeCall::AddEventListener { .. } => "add_event_listener",
            NativeCall::RemoveEventListener { .. } => "remove_event_listener",
        };
        match self.require_host_success(status, operation) {
            Ok(()) => {},
            Err(e) => return Err(e),
        }
        match command {
            Command::CreateElement { node, .. } | Command::CreateRawText { node, .. } => {
                let fresh_id = match self.native_node(*node) {
                    Ok(_) => false,
                    Err(_) => true,
                };
                if created == 0 || self.handle_in_use(created) || !fresh_id {
                    self.poisoned = true;
                    let mut m = owned("native ");
                    m.append(operation);
                    m.append(" returned an invalid node handle");
                    return Err(BridgeError::new_owned(Status::HostError, m));
                }
                self.push_node(node.get(), created);
                Ok(())
            },
            Command::DestroyNode { node } => {
                self.remove_node(node.get());
                Ok(())
            },
            Command::AddEventListener { node, listener, callback, name } => {
                match call {
                    NativeCall::AddEventListener { listener: h, .. } => {
                        let m = ListenerMapping {
                            native: *h,
                            node: *node,
                            listener: *listener,
                            callback: *callback,
                            name: copy_string(name),
                        };
                        let ghost gm = m;
                        self.insert_listener(m);
                        proof {
                            assert(registers(gm, *h, node@, listener@, callback@, name@));
                        }
                    },
                    _ => {},
                }
                Ok(())
            },
            Command::RemoveEventListener { .. } => {
                match call {
                    NativeCall::RemoveEventListener { listener: h, .. } => {
                        self.remove_listener_handle(*h);
                    },
                    _ => {},
                }
                Ok(())
            },
            _ => Ok(()),
        }
    }
}

impl NativeHost {
    /// Checks that a callback names the active renderer.
    pub fn validate_renderer(&self, renderer: u64) -> (r: Result<(), BridgeError>)
        ensures
            unusable_status(self@) matches Some(s) ==> (r matches Err(e) && e.status == s
                && e.message@ == unusable_message(self@)),
            unusable_status(self@) is None && renderer != self@.renderer->0 ==> (r matches Err(e)
                && e.status == Status::InvalidSession && e.message@
                == "native callback renderer does not match the active renderer"@),
            unusable_status(self@) is None && renderer == self@.renderer->0 ==> r is Ok,
    {
        let active = match self.ensure_usable() {
            Ok(r) => r,
            Err(e) => return Err(e),
        };
        if renderer != active {
            return Err(
                BridgeError::new(
                    Status::InvalidSession,
                    "native callback renderer does not match the active renderer",
                ),
            );
        }
        Ok(())
    }

    /// Builds the bridge event for a native event on `listener`: the
    /// renderer must be active and the listener's callback and event name
    /// must match its registration exactly.
    pub fn event_message(
        &self,
        session: SessionId,
        renderer: u64,
        listener: u32,
        callback: u32,
        name: &str,
        content_type: String,
        payload: Vec<u8>,
    ) -> (r: Result<EventMessage, BridgeError>)
        requires
            native_ok(self@),
        ensures
            unusable_status(self@) matches Some(s) ==> (r matches Err(e) && e.status == s
                && e.message@ == unusable_message(self@)),
            unusable_status(self@) is None && renderer != self@.renderer->0 ==> (r matches Err(e)
                && e.status == Status::InvalidSession && e.message@
                == "native callback renderer does not match the active renderer"@),
            unusable_status(self@) is None && renderer == self@.renderer->0 && callback == 0 ==> (
            r matches Err(e) && e.status == Status::InvalidArgument && e.message@
                == "callback ID must not be zero"@),
            unusable_status(self@) is None && renderer == self@.renderer->0 && callback != 0 ==> match listener_for(
                self@.listeners,
                listener,
            ) {
                None => r matches Err(e) && e.status == Status::InvalidListener && e.message@
                    == "invalid or stale native listener "@ + decimal_spec(listener as nat),
                Some(m) => if m.callback@ == callback && m.name@ == name@ {
                    r matches Ok(msg) && msg.session == session && msg.listener == m.listener
                        && msg.callback == m.callback && msg.content_type == content_type
                        && msg.payload == payload
                } else {
                    r matches Err(e) && e.status == Status::InvalidListener && e.message@
                        == "native listener "@ + decimal_spec(listener as nat)
                        + " identity does not match"@
                },
            },
    {
        match self.validate_renderer(renderer) {
            Ok(()) => {},
            Err(e) => return Err(e),
        }
        let callback = match CallbackId::new(callback) {
            Ok(c) => c,
            Err(e) => return Err(e),
        };
        let i = match self.find_native_listener(listener) {
            Some(i) => i,
            None => {
                proof {
                    assert(listener_for(self@.listeners, listener) is None);
                }
                let m = message_with("invalid or stale native listener ", listener as u64, "");
                proof {
                    reveal_strlit("");
                    assert(m@ =~= "invalid or stale native listener "@ + decimal_spec(listener as nat));
                }
                return Err(BridgeError::new_owned(Status::InvalidListener, m));
            },
        };
        proof {
            let j = choose|j: int| native_listener_at(self@.listeners, j, listener);
            if j != i {
                assert(self@.listeners[j].native != self@.listeners[i as int].native);
            }
        }
        let mapping = &self.listeners[i];
        if mapping.callback.get() != callback.get() || !str_eq(mapping.name.as_str(), name) {
            return Err(
                BridgeError::new_owned(
                    Status::InvalidListener,
                    message_with("native listener ", listener as u64, " identity does not match"),
                ),
            );
        }
        Ok(
            EventMessage {
                session,
                listener: mapping.listener,
                callback: mapping.callback,
                content_type,
                payload,
            },
        )
    }

    /// Takes in the outcome of the native `create_timer`: a failed call
    /// poisons the host, and so does a zero or already live timer handle.
    pub fn timer_created(&mut self, status: u32, timer: u32, callback: CallbackId, repeating: bool) -> (r:
        Result<u32, BridgeError>)
        requires
            native_ok(old(self)@),
        ensures
            native_ok(final(self)@),
            keeps_poison(old(self)@, final(self)@),
            status != NATIVE_STATUS_OK ==> (r matches Err(e) && e.status == status_of_native(status)
                && e.message@ == native_failure("create_timer"@, status)) && final(self)@ == (
            NativeModel { poisoned: true, ..old(self)@ }),
            status == NATIVE_STATUS_OK && (timer == 0 || old(self)@.timers.contains_key(timer)) ==> (
            r matches Err(e) && e.status == Status::HostError && e.message@
                == "native create_timer returned an invalid timer handle"@) && final(self)@ == (NativeModel {
                poisoned: true,
                ..old(self)@
            }),
            status == NATIVE_STATUS_OK && timer != 0 && !old(self)@.timers.contains_key(timer) ==> r
                == Ok::<u32, BridgeError>(timer) && final(self)@ == (NativeModel {
                timers: old(self)@.timers.insert(timer, TimerMapping { callback, repeating }),
                ..old(self)@
            }),
    {
        match self.require_host_success(status, "create_timer") {
            Ok(()) => {},
            Err(e) => return Err(e),
        }
        if timer == 0 || self.timers.contains_key(&timer) {
            self.poisoned = true;
            return Err(
                BridgeError::new(Status::HostError, "native create_timer returned an invalid timer handle"),
            );
        }
        self.timers.insert(timer, TimerMapping { callback, repeating });
        Ok(timer)
    }

    /// Resolves a native timer firing to its callback; a one-shot timer is
    /// consumed.
    pub fn timer_callback(&mut self, renderer: u64, timer: u32, callback: u32) -> (r: Result<
        CallbackId,
        BridgeError,
    >)
        requires
            native_ok(old(self)@),
        ensures
            native_ok(final(self)@),
            keeps_poison(old(self)@, final(self)@),
            r is Err ==> final(self)@ == old(self)@,
            unusable_status(old(self)@) matches Some(s) ==> (r matches Err(e) && e.status == s
                && e.message@ == unusable_message(old(self)@)),
            unusable_status(old(self)@) is None && renderer != old(self)@.renderer->0 ==> (
            r matches Err(e) && e.status == Status::InvalidSession && e.message@
                == "native callback renderer does not match the active renderer"@),
            unusable_status(old(self)@) is None && renderer == old(self)@.renderer->0 && callback == 0
                ==> (r matches Err(e) && e.status == Status::InvalidArgument && e.message@
                == "callback ID must not be zero"@),
            unusable_status(old(self)@) is None && renderer == old(self)@.renderer->0 && callback != 0
                ==> {
                let t = old(self)@.timers;
                &&& !t.contains_key(timer) ==> (r matches Err(e) && e.status
                    == Status::InvalidArgument && e.message@ == stale_native_timer(timer))
                &&& t.contains_key(timer) && t[timer].callback@ != callback ==> (r matches Err(e)
                    && e.status == Status::InvalidArgument && e.message@ == "native timer "@
                    + decimal_spec(timer as nat) + " callback identity does not match"@)
                &&& t.contains_key(timer) && t[timer].callback@ == callback ==> r
                    == Ok::<CallbackId, BridgeError>(t[timer].callback) && final(self)@ == (
                NativeModel {
                    timers: if t[timer].repeating {
                        t
                    } else {
                        t.remove(timer)
                    },
                    ..old(self)@
                })
            },
    {
        match self.validate_renderer(renderer) {
            Ok(()) => {},
            Err(e) => return Err(e),
        }
        let callback = match CallbackId::new(callback) {
            Ok(c) => c,
            Err(e) => return Err(e),
        };
        let mapping = match self.timers.get(&timer) {
            Some(m) => *m,
            None => {
                return Err(stale_timer(timer));
            },
        };
        if mapping.callback.get() != callback.get() {
            return Err(
                BridgeError::new_owned(
                    Status::InvalidArgument,
                    message_with("native timer ", timer as u64, " callback identity does not match"),
                ),
            );
        }
        if !mapping.repeating {
            self.timers.remove(&timer);
        }
        proof {
            assert(mapping.callback == callback) by {
                crate::ids::lemma_callback_id_eq(mapping.callback, callback);
            }
        }
        Ok(mapping.callback)
    }

    /// Checks that `timer` is a live timer that may be cancelled; returns
    /// the renderer to cancel it on.
    pub fn begin_cancel_timer(&self, timer: u32) -> (r: Result<u64, BridgeError>)
        ensures
            unusable_status(self@) matches Some(s) ==> (r matches Err(e) && e.status == s
                && e.message@ == unusable_message(self@)),
            unusable_status(self@) is None && (timer == 0 || !self@.timers.contains_key(timer)) ==> (
            r matches Err(e) && e.status == Status::InvalidArgument && e.message@ == stale_native_timer(
                timer,
            )),
            unusable_status(self@) is None && timer != 0 && self@.timers.contains_key(timer) ==> r
                == Ok::<u64, BridgeError>(self@.renderer->0),
    {
        let renderer = match self.ensure_usable() {
            Ok(r) => r,
            Err(e) => return Err(e),
        };
        if timer == 0 || !self.timers.contains_key(&timer) {
            return Err(stale_timer(timer));
        }
        Ok(renderer)
    }

    /// Takes in the outcome of the native `cancel_timer`.
    pub fn timer_cancelled(&mut self, timer: u32, status: u32) -> (r: Result<(), BridgeError>)
        requires
            native_ok(old(self)@),
        ensures
            native_ok(final(self)@),
            keeps_poison(old(self)@, final(self)@),
            status != NATIVE_STATUS_OK ==> (r matches Err(e) && e.status == status_of_native(status)
                && e.message@ == native_failure("cancel_timer"@, status)) && final(self)@ == (
            NativeModel { poisoned: true, ..old(self)@ }),
            status == NATIVE_STATUS_OK ==> r is Ok && final(self)@ == (NativeModel {
                timers: old(self)@.timers.remove(timer),
                ..old(self)@
            }),
    {
        match self.require_host_success(status, "cancel_timer") {
            Ok(()) => {},
            Err(e) => return Err(e),
        }
        self.timers.remove(&timer);
        Ok(())
    }

    /// Checks that the application released everything but the root before
    /// a new application lifecycle starts; returns the renderer whose style
    /// sheets are to be cleared.
    pub fn begin_epoch_reset(&self) -> (r: Result<u64, BridgeError>)
        requires
            native_ok(self@),
        ensures
            unusable_status(self@) matches Some(s) ==> (r matches Err(e) && e.status == s
                && e.message@ == unusable_message(self@)),
            unusable_status(self@) is None && !(self@.nodes.len() == 1 && self@.nodes[0].0
                == self@.root && self@.listeners.len() == 0 && self@.timers.len() == 0) ==> (
            r matches Err(e) && e.status == Status::InvalidOwnership && e.message@
                == "cannot reset native application epoch while application resources remain"@),
            unusable_status(self@) is None && self@.nodes.len() == 1 && self@.nodes[0].0
                == self@.root && self@.listeners.len() == 0 && self@.timers.len() == 0 ==> r
                == Ok::<u64, BridgeError>(self@.renderer->0),
    {
        let renderer = match self.ensure_usable() {
            Ok(r) => r,
            Err(e) => return Err(e),
        };
        if self.nodes.len() != 1 || self.nodes[0].0 != self.root.get() || self.listeners.len() != 0
            || self.timers.len() != 0 {
            return Err(
                BridgeError::new(
                    Status::InvalidOwnership,
                    "cannot reset native application epoch while application resources remain",
                ),
            );
        }
        Ok(renderer)
    }

    /// Takes in the outcome of clearing the style sheets: the next batch may
    /// start any sequence again.
    pub fn epoch_reset_done(&mut self, status: u32) -> (r: Result<(), BridgeError>)
        requires
            native_ok(old(self)@),
        ensures
            native_ok(final(self)@),
            keeps_poison(old(self)@, final(self)@),
            status != NATIVE_STATUS_OK ==> (r matches Err(e) && e.status == status_of_native(status)
                && e.message@ == native_failure("clear_style_sheets"@, status)) && final(self)@ == (
            NativeModel { poisoned: true, ..old(self)@ }),
            status == NATIVE_STATUS_OK ==> r is Ok && final(self)@ == (NativeModel {
                last_sequence: None,
                ..old(self)@
            }),
    {
        match self.require_host_success(status, "clear_style_sheets") {
            Ok(()) => {},
            Err(e) => return Err(e),
        }
        self.last_sequence = None;
        Ok(())
    }

    /// Forgets every mapping and hands out the renderer for its one release;
    /// a released host has none.
    pub fn begin_release(&mut self) -> (r: Result<u64, BridgeError>)
        requires
            native_ok(old(self)@),
        ensures
            native_ok(final(self)@),
            keeps_poison(old(self)@, final(self)@),
            old(self)@.renderer is None ==> (r matches Err(e) && e.status == Status::InvalidSession
                && e.message@ == "native renderer is already released"@) && final(self)@ == old(self)@,
            old(self)@.renderer matches Some(h) ==> r == Ok::<u64, BridgeError>(h) && final(self)@ == (NativeModel {
                renderer: None,
                nodes: Seq::empty(),
                listeners: Seq::empty(),
                timers: Map::empty(),
                ..old(self)@
            }),
    {
        let renderer = match self.renderer {
            Some(r) => r,
            None => {
                return Err(BridgeError::new(Status::InvalidSession, "native renderer is already released"));
            },
        };
        self.renderer = None;
        self.nodes.clear();
        self.listeners.clear();
        self.timers.clear();
        proof {
            assert(self@.nodes =~= Seq::<(u32, u32)>::empty());
            assert(self@.listeners =~= Seq::<ListenerMapping>::empty());
        }
        Ok(renderer)
    }

    /// Reports the outcome of the native `release`.
    pub fn release_done(status: u32) -> (r: Result<(), BridgeError>)
        ensures
            status == NATIVE_STATUS_OK ==> r is Ok,
            status != NATIVE_STATUS_OK ==> (r matches Err(e) && e.status == status_of_native(status)
                && e.message@ == native_failure("release"@, status)),
    {
        if status != NATIVE_STATUS_OK {
            return Err(native_error(status, "release"));
        }
        Ok(())
    }
}

/// The bridge statuses in the order of their native codes.
pub open spec fn status_order() -> Seq<Status> {
    seq![
        Status::Success,
        Status::InvalidArgument,
        Status::InvalidSession,
        Status::WrongThread,
        Status::Unsupported,
        Status::InvalidOwnership,
        Status::InvalidListener,
        Status::ResourceExhausted,
        Status::HostError,
        Status::Panic,
        Status::InternalError,
    ]
}

/// The native code of each bridge status is its position in the status
/// list (`Success` 0, `InvalidArgument` 1, `InvalidSession` 2, `WrongThread`
/// 3, `Unsupported` 4, `InvalidOwnership` 5, ... `InternalError` 10); every
/// status has one, no two share one, and reading an error code back gives
/// the status it was written for, while 0 and unknown codes read as
/// `InternalError`.
pub proof fn lemma_native_codes_follow_the_status_list()
    ensures
        forall|i: int| 0 <= i < 11 ==> native_of_status(#[trigger] status_order()[i]) == i,
        forall|i: int| 1 <= i < 11 ==> #[trigger] status_of_native(i as u32) == status_order()[i],
        forall|c: u32| c == 0 || c > 10 ==> #[trigger] status_of_native(c) == Status::InternalError,
        forall|s: Status| #[trigger] status_order().contains(s),
        forall|a: Status, b: Status| #[trigger] native_of_status(a) == #[trigger] native_of_status(b) ==> a == b,
        forall|s: Status| s != Status::Success ==> #[trigger] status_of_native(native_of_status(s)) == s,
{
    let o = status_order();
    assert forall|s: Status| #[trigger] o.contains(s) by {
        match s {
            Status::Success => assert(o[0] == s),
            Status::InvalidArgument => assert(o[1] == s),
            Status::InvalidSession => assert(o[2] == s),
            Status::WrongThread => assert(o[3] == s),
            Status::Unsupported => assert(o[4] == s),
            Status::InvalidOwnership => assert(o[5] == s),
            Status::InvalidListener => assert(o[6] == s),
            Status::ResourceExhausted => assert(o[7] == s),
            Status::HostError => assert(o[8] == s),
            Status::Panic => assert(o[9] == s),
            Status::InternalError => assert(o[10] == s),
        }
    }
}

} // verus!

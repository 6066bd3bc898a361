use vstd::prelude::*;

verus! {

/// Identifies one bridge session; never zero.
#[derive(Clone, Copy, Debug, PartialEq, Eq, Hash, Structural)]
pub struct SessionId(u32);

impl View for SessionId {
    type V = u32;

    closed spec fn view(&self) -> u32 {
        self.0
    }
}

/// Two values of this identifier type are equal exactly when their numbers are.
pub broadcast proof fn lemma_session_id_eq(a: SessionId, b: SessionId)
    ensures
        #![trigger a@, b@]
        a@ == b@ <==> a == b,
{
}

impl SessionId {
    /// Identifiers are never zero.
    #[verifier::type_invariant]
    spec fn nonzero(self) -> bool {
        self.0 != 0
    }

    /// Accepts every nonzero value; zero is an `InvalidArgument` error.
    pub fn new(value: u32) -> (r: Result<SessionId, BridgeError>)
        ensures
            r is Ok <==> value != 0,
            r matches Ok(id) ==> id@ == value,
            r matches Err(e) ==> e.status == Status::InvalidArgument && e.message@
                == "session ID must not be zero"@,
    {
        match nonzero_id(value, "session ID must not be zero") {
            Ok(v) => Ok(SessionId(v)),
            Err(e) => Err(e),
        }
    }

    pub(crate) fn from_raw(value: u32) -> (r: SessionId)
        requires
            value != 0,
        ensures
            r@ == value,
    {
        SessionId(value)
    }

    pub fn get(self) -> (r: u32)
        ensures
            r == self@,
            r != 0,
    {
        proof {
            use_type_invariant(&self);
        }
        self.0
    }
}

/// Identifies one node of a session tree; never zero.
#[derive(Clone, Copy, Debug, PartialEq, Eq, Hash, Structural)]
pub struct NodeId(u32);

impl View for NodeId {
    type V = u32;

    closed spec fn view(&self) -> u32 {
        self.0
    }
}

/// Two values of this identifier type are equal exactly when their numbers are.
pub broadcast proof fn lemma_node_id_eq(a: NodeId, b: NodeId)
    ensures
        #![trigger a@, b@]
        a@ == b@ <==> a == b,
{
}

impl NodeId {
    /// Identifiers are never zero.
    #[verifier::type_invariant]
    spec fn nonzero(self) -> bool {
        self.0 != 0
    }

    /// Accepts every nonzero value; zero is an `InvalidArgument` error.
    pub fn new(value: u32) -> (r: Result<NodeId, BridgeError>)
        ensures
            r is Ok <==> value != 0,
            r matches Ok(id) ==> id@ == value,
            r matches Err(e) ==> e.status == Status::InvalidArgument && e.message@
                == "node ID must not be zero"@,
    {
        match nonzero_id(value, "node ID must not be zero") {
            Ok(v) => Ok(NodeId(v)),
            Err(e) => Err(e),
        }
    }

    pub(crate) fn from_raw(value: u32) -> (r: NodeId)
        requires
            value != 0,
        ensures
            r@ == value,
    {
        NodeId(value)
    }

    pub fn get(self) -> (r: u32)
        ensures
            r == self@,
            r != 0,
    {
        proof {
            use_type_invariant(&self);
        }
        self.0
    }
}

/// Identifies one registered event listener; never zero.
#[derive(Clone, Copy, Debug, PartialEq, Eq, Hash, Structural)]
pub struct ListenerId(u32);

impl View for ListenerId {
    type V = u32;

    closed spec fn view(&self) -> u32 {
        self.0
    }
}

/// Two values of this identifier type are equal exactly when their numbers are.
pub broadcast proof fn lemma_listener_id_eq(a: ListenerId, b: ListenerId)
    ensures
        #![trigger a@, b@]
        a@ == b@ <==> a == b,
{
}

impl ListenerId {
    /// Identifiers are never zero.
    #[verifier::type_invariant]
    spec fn nonzero(self) -> bool {
        self.0 != 0
    }

    /// Accepts every nonzero value; zero is an `InvalidArgument` error.
    pub fn new(value: u32) -> (r: Result<ListenerId, BridgeError>)
        ensures
            r is Ok <==> value != 0,
            r matches Ok(id) ==> id@ == value,
            r matches Err(e) ==> e.status == Status::InvalidArgument && e.message@
                == "listener ID must not be zero"@,
    {
        match nonzero_id(value, "listener ID must not be zero") {
            Ok(v) => Ok(ListenerId(v)),
            Err(e) => Err(e),
        }
    }

    pub(crate) fn from_raw(value: u32) -> (r: ListenerId)
        requires
            value != 0,
        ensures
            r@ == value,
    {
        ListenerId(value)
    }

    pub fn get(self) -> (r: u32)
        ensures
            r == self@,
            r != 0,
    {
        proof {
            use_type_invariant(&self);
        }
        self.0
    }
}

/// Identifies the framework callback behind a listener; never zero.
#[derive(Clone, Copy, Debug, PartialEq, Eq, Hash, Structural)]
pub struct CallbackId(u32);

impl View for CallbackId {
    type V = u32;

    closed spec fn view(&self) -> u32 {
        self.0
    }
}

/// Two values of this identifier type are equal exactly when their numbers are.
pub broadcast proof fn lemma_callback_id_eq(a: CallbackId, b: CallbackId)
    ensures
        #![trigger a@, b@]
        a@ == b@ <==> a == b,
{
}

impl CallbackId {
    /// Identifiers are never zero.
    #[verifier::type_invariant]
    spec fn nonzero(self) -> bool {
        self.0 != 0
    }

    /// Accepts every nonzero value; zero is an `InvalidArgument` error.
    pub fn new(value: u32) -> (r: Result<CallbackId, BridgeError>)
        ensures
            r is Ok <==> value != 0,
            r matches Ok(id) ==> id@ == value,
            r matches Err(e) ==> e.status == Status::InvalidArgument && e.message@
                == "callback ID must not be zero"@,
    {
        match nonzero_id(value, "callback ID must not be zero") {
            Ok(v) => Ok(CallbackId(v)),
            Err(e) => Err(e),
        }
    }

    pub(crate) fn from_raw(value: u32) -> (r: CallbackId)
        requires
            value != 0,
        ensures
            r@ == value,
    {
        CallbackId(value)
    }

    pub fn get(self) -> (r: u32)
        ensures
            r == self@,
            r != 0,
    {
        proof {
            use_type_invariant(&self);
        }
        self.0
    }
}

/// Result codes shared by the bridge and its native boundary.
#[derive(Clone, Copy, Debug, PartialEq, Eq, Structural)]
pub enum Status {
    Success,
    InvalidArgument,
    InvalidSession,
    WrongThread,
    Unsupported,
    InvalidOwnership,
    InvalidListener,
    ResourceExhausted,
    HostError,
    Panic,
    InternalError,
}

/// A status together with a human-readable explanation.
#[derive(Clone, Debug, PartialEq, Eq)]
pub struct BridgeError {
    pub status: Status,
    pub message: String,
}

impl BridgeError {
    pub fn new(status: Status, message: &str) -> (r: BridgeError)
        ensures
            r.status == status,
            r.message@ == message@,
    {
        BridgeError { status, message: message.to_owned() }
    }

    /// An error that takes ownership of its message.
    pub fn new_owned(status: Status, message: String) -> (r: BridgeError)
        ensures
            r.status == status,
            r.message == message,
    {
        BridgeError { status, message }
    }
}

/// Rejects the zero identifier with an `InvalidArgument` error carrying `message`.
pub fn nonzero_id(value: u32, message: &str) -> (r: Result<u32, BridgeError>)
    ensures
        r is Ok <==> value != 0,
        r matches Ok(v) ==> v == value,
        r matches Err(e) ==> e.status == Status::InvalidArgument && e.message@ == message@,
{
    if value == 0 {
        Err(BridgeError::new(Status::InvalidArgument, message))
    } else {
        Ok(value)
    }
}

/// One renderer mutation, in the order a session recorded it.
#[derive(Clone, Debug, PartialEq, Eq)]
pub enum Command {
    CreateElement { node: NodeId, tag: String },
    CreateRawText { node: NodeId, text: String },
    AppendElement { parent: NodeId, child: NodeId },
    InsertElementBefore { parent: NodeId, child: NodeId, reference: NodeId },
    RemoveElement { parent: NodeId, child: NodeId },
    DestroyNode { node: NodeId },
    SetAttribute { node: NodeId, name: String, value: Option<String> },
    AddEventListener { node: NodeId, listener: ListenerId, callback: CallbackId, name: String },
    RemoveEventListener { node: NodeId, listener: ListenerId, callback: CallbackId, name: String },
}

/// An ordered, session-scoped set of in-memory renderer mutations.
#[derive(Clone, Debug, PartialEq, Eq)]
pub struct CommandBatch {
    pub session: SessionId,
    pub sequence: u32,
    pub commands: Vec<Command>,
    pub final_commit: bool,
}

/// A platform event addressed to one listener; the payload stays opaque.
#[derive(Clone, Debug, PartialEq, Eq)]
pub struct EventMessage {
    pub session: SessionId,
    pub listener: ListenerId,
    pub callback: CallbackId,
    pub content_type: String,
    pub payload: Vec<u8>,
}

} // verus!

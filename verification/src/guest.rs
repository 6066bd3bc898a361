use std::collections::HashMap;
use vstd::prelude::*;

use crate::ids::{BridgeError, CommandBatch, EventMessage, NodeId, Status};
use crate::text::{decimal_spec, message_with};

verus! {

broadcast use vstd::std_specs::hash::group_hash_axioms;

/// The guest ABI protocol version.
pub const PROTOCOL_VERSION_V2: u32 = 2;

/// A request to mount the guest application below `root`.
#[derive(Clone, Debug, PartialEq, Eq)]
pub struct MountRequest {
    pub protocol_version: u32,
    pub root: NodeId,
}

/// A request to deliver one event to the mounted guest application.
#[derive(Clone, Debug, PartialEq, Eq)]
pub struct EventRequest {
    pub protocol_version: u32,
    pub event: EventMessage,
}

/// What a guest call produced: a batch, or a status and message.
#[derive(Clone, Debug, PartialEq, Eq)]
pub enum GuestResult {
    Batch(CommandBatch),
    Failure { status: Status, message: String },
}

/// The versioned answer to one guest call.
#[derive(Clone, Debug, PartialEq, Eq)]
pub struct GuestResponse {
    pub protocol_version: u32,
    pub result: GuestResult,
}

/// `response` is a current-version answer carrying `result`.
pub open spec fn answers(response: GuestResponse, result: Result<CommandBatch, BridgeError>) -> bool {
    &&& response.protocol_version == PROTOCOL_VERSION_V2
    &&& match result {
        Ok(b) => response.result == GuestResult::Batch(b),
        Err(e) => response.result matches GuestResult::Failure { status, message } && status
            == e.status && message == e.message,
    }
}

/// `response` is a current-version failure with `status` and `message`.
pub open spec fn fails_with(response: GuestResponse, status: Status, message: Seq<char>) -> bool {
    &&& response.protocol_version == PROTOCOL_VERSION_V2
    &&& response.result matches GuestResult::Failure { status: s, message: m } && s == status
        && m@ == message
}

impl GuestResponse {
    /// Wraps a call's result in a current-version response.
    pub fn from_result(result: Result<CommandBatch, BridgeError>) -> (r: GuestResponse)
        ensures
            answers(r, result),
    {
        GuestResponse {
            protocol_version: PROTOCOL_VERSION_V2,
            result: match result {
                Ok(batch) => GuestResult::Batch(batch),
                Err(error) => GuestResult::Failure { status: error.status, message: error.message },
            },
        }
    }
}

/// Accepts exactly the current protocol version; any other is `Unsupported`.
pub fn check_protocol_version(actual: u32) -> (r: Result<(), BridgeError>)
    ensures
        r is Ok <==> actual == PROTOCOL_VERSION_V2,
        r matches Err(e) ==> e.status == Status::Unsupported && e.message@
            == "unsupported protocol version "@ + decimal_spec(actual as nat),
{
    if actual != PROTOCOL_VERSION_V2 {
        let m = message_with("unsupported protocol version ", actual as u64, "");
        proof {
            reveal_strlit("");
            assert(m@ =~= "unsupported protocol version "@ + decimal_spec(actual as nat));
        }
        return Err(BridgeError::new_owned(Status::Unsupported, m));
    }
    Ok(())
}

/// A guest application: mounted once, then fed events until destroyed.
pub trait GuestApplication: Sized {
    fn mount(request: MountRequest) -> Result<(Self, CommandBatch), BridgeError>;

    fn dispatch_event(&mut self, event: EventMessage) -> Result<CommandBatch, BridgeError>;

    fn destroy(self) -> Result<CommandBatch, BridgeError>;
}

/// Holds the mounted guest application, if any, and routes calls to it.
pub struct GuestRuntime<A> {
    application: Option<A>,
}

fn not_mounted() -> (r: BridgeError)
    ensures
        r.status == Status::InvalidSession,
        r.message@ == "guest application is not mounted"@,
{
    BridgeError::new(Status::InvalidSession, "guest application is not mounted")
}

/// The batch, or the error, of what an application's `mount` returned.
pub open spec fn mounted_batch<A>(res: Result<(A, CommandBatch), BridgeError>) -> Result<
    CommandBatch,
    BridgeError,
> {
    match res {
        Ok(p) => Ok(p.1),
        Err(e) => Err(e),
    }
}

/// The application that a successful `mount` returned, if any.
pub open spec fn mounted_application<A>(res: Result<(A, CommandBatch), BridgeError>) -> Option<A> {
    match res {
        Ok(p) => Some(p.0),
        Err(_) => None,
    }
}

impl<A: GuestApplication> GuestRuntime<A> {
    /// Whether an application is mounted.
    pub closed spec fn mounted(&self) -> bool {
        self.application is Some
    }

    /// The mounted application, if any.
    pub closed spec fn application(&self) -> Option<A> {
        self.application
    }

    /// A runtime with nothing mounted.
    pub fn new() -> (r: Self)
        ensures
            !r.mounted(),
    {
        GuestRuntime { application: None }
    }

    pub fn is_mounted(&self) -> (r: bool)
        ensures
            r == self.mounted(),
    {
        self.application.is_some()
    }

    /// Mounts the application for a decoded request.  A request that failed
    /// to decode, or a second mount, is answered with an error and changes
    /// nothing; otherwise the application decides.
    pub fn mount(&mut self, request: Result<MountRequest, BridgeError>) -> (r: GuestResponse)
        ensures
            r.protocol_version == PROTOCOL_VERSION_V2,
            request matches Err(e) ==> answers(r, Err(e)) && final(self).mounted() == old(self).mounted(),
            request is Ok && old(self).mounted() ==> fails_with(
                r,
                Status::InvalidSession,
                "guest application is already mounted"@,
            ) && final(self).mounted(),
            request is Ok && !old(self).mounted() ==> (final(self).mounted() <==> r.result is Batch),
            request is Ok && !old(self).mounted() ==> exists|res: Result<(A, CommandBatch), BridgeError>|
                #[trigger] call_ensures(A::mount, (request->Ok_0,), res) && answers(
                    r,
                    mounted_batch(res),
                ) && final(self).application() == mounted_application(res),
    {
        let request = match request {
            Ok(request) => request,
            Err(e) => return GuestResponse::from_result(Err(e)),
        };
        if self.application.is_some() {
            return GuestResponse::from_result(
                Err(BridgeError::new(Status::InvalidSession, "guest application is already mounted")),
            );
        }
        match A::mount(request) {
            Ok((application, batch)) => {
                self.application = Some(application);
                GuestResponse::from_result(Ok(batch))
            },
            Err(e) => GuestResponse::from_result(Err(e)),
        }
    }

    /// Delivers a decoded event to the mounted application.
    pub fn dispatch_event(&mut self, request: Result<EventRequest, BridgeError>) -> (r: GuestResponse)
        ensures
            r.protocol_version == PROTOCOL_VERSION_V2,
            final(self).mounted() == old(self).mounted(),
            request matches Err(e) ==> answers(r, Err(e)),
            request is Ok && !old(self).mounted() ==> fails_with(r, Status::InvalidSession, "guest application is not mounted"@),
            request is Ok && old(self).mounted() ==> exists|app: &mut A, res: Result<CommandBatch, BridgeError>|
                #[trigger] call_ensures(A::dispatch_event, (app, request->Ok_0.event), res)
                    && mut_ref_current(app) == old(self).application()->0 && mut_ref_future(app)
                    == final(self).application()->0 && answers(r, res),
    {
        let request = match request {
            Ok(request) => request,
            Err(e) => return GuestResponse::from_result(Err(e)),
        };
        match &mut self.application {
            Some(application) => GuestResponse::from_result(application.dispatch_event(request.event)),
            None => GuestResponse::from_result(Err(not_mounted())),
        }
    }

    /// Destroys the mounted application; afterwards nothing is mounted.
    pub fn destroy(&mut self) -> (r: GuestResponse)
        ensures
            r.protocol_version == PROTOCOL_VERSION_V2,
            !final(self).mounted(),
            !old(self).mounted() ==> fails_with(r, Status::InvalidSession, "guest application is not mounted"@),
            old(self).mounted() ==> exists|res: Result<CommandBatch, BridgeError>|
                #[trigger] call_ensures(A::destroy, (old(self).application()->0,), res) && answers(
                    r,
                    res,
                ),
    {
        let mut taken: Option<A> = None;
        std::mem::swap(&mut taken, &mut self.application);
        match taken {
            Some(application) => GuestResponse::from_result(application.destroy()),
            None => GuestResponse::from_result(Err(not_mounted())),
        }
    }
}

/// A buffer in guest memory: its address and length.
#[derive(Clone, Copy, Debug, PartialEq, Eq, Structural)]
pub struct BufferDescriptor {
    pub pointer: usize,
    pub length: u32,
}

impl BufferDescriptor {
    /// Packs the descriptor into one 64-bit value, address in the high half.
    pub fn pack_wasm32(self) -> (r: u64)
        ensures
            r == ((self.pointer as u64) << 32u64) | (self.length as u64),
            self.pointer < 0x1_0000_0000 ==> r == self.pointer * 0x1_0000_0000 + self.length,
    {
        let p = self.pointer as u64;
        let l = self.length as u64;
        let r = (p << 32u64) | l;
        proof {
            if self.pointer < 0x1_0000_0000 {
                assert(p < 0x1_0000_0000 && l < 0x1_0000_0000 ==> (p << 32u64) | l == p
                    * 0x1_0000_0000 + l) by (bit_vector);
            }
        }
        r
    }
}

/// The buffer registry of a guest module: input buffers handed to the host
/// for writing requests, output buffers holding responses, and the guest
/// runtime itself.  Each buffer is known by its address and length; the
/// bytes live in memory that the embedding owns.
pub struct AbiRuntime<A> {
    guest: GuestRuntime<A>,
    inputs: HashMap<usize, u32>,
    outputs: HashMap<usize, u32>,
}

/// A buffer is registered under `pointer` with exactly `length` bytes.
pub open spec fn registered(buffers: Map<usize, u32>, pointer: usize, length: u32) -> bool {
    buffers.contains_key(pointer) && buffers[pointer] == length
}

/// Input buffers: a nonempty buffer registered at an address is released
/// by its exact length and only once; a release with another length leaves
/// it registered.
pub proof fn lemma_buffer_released_once(
    inputs: Map<usize, u32>,
    pointer: usize,
    length: u32,
    other: u32,
)
    requires
        other != length,
    ensures
        registered(inputs.insert(pointer, length), pointer, length),
        !registered(inputs.insert(pointer, length), pointer, other),
        !registered(inputs.insert(pointer, length).remove(pointer), pointer, length),
        inputs.insert(pointer, length).remove(pointer).remove(pointer) == inputs.insert(
            pointer,
            length,
        ).remove(pointer),
{
    assert(inputs.insert(pointer, length).remove(pointer).remove(pointer) =~= inputs.insert(
        pointer,
        length,
    ).remove(pointer));
}

fn remove_buffer(buffers: &mut HashMap<usize, u32>, pointer: usize, length: u32) -> (r: bool)
    ensures
        r == registered(old(buffers)@, pointer, length),
        r ==> final(buffers)@ == old(buffers)@.remove(pointer),
        !r ==> final(buffers)@ == old(buffers)@,
{
    let known = match buffers.get(&pointer) {
        Some(l) => *l == length,
        None => false,
    };
    if known {
        buffers.remove(&pointer);
        true
    } else {
        false
    }
}

impl<A: GuestApplication> AbiRuntime<A> {
    pub closed spec fn inputs(&self) -> Map<usize, u32> {
        self.inputs@
    }

    pub closed spec fn outputs(&self) -> Map<usize, u32> {
        self.outputs@
    }

    pub closed spec fn mounted(&self) -> bool {
        self.guest.mounted()
    }

    /// The mounted application, if any.
    pub closed spec fn application(&self) -> Option<A> {
        self.guest.application()
    }

    /// A runtime with no buffer and nothing mounted.
    pub fn new() -> (r: Self)
        ensures
            r.inputs() == Map::<usize, u32>::empty(),
            r.outputs() == Map::<usize, u32>::empty(),
            !r.mounted(),
    {
        AbiRuntime { guest: GuestRuntime::new(), inputs: HashMap::new(), outputs: HashMap::new() }
    }

    /// Registers an input buffer of `length` bytes at `pointer` and returns its
    /// address; an empty buffer is never registered and its address is zero.
    /// The buffer of a nonempty request comes from the allocator, whose
    /// addresses are never zero, so a nonzero address means a registered
    /// buffer.
    pub fn allocate(&mut self, length: u32, pointer: usize) -> (r: usize)
        requires
            length != 0 ==> pointer != 0,
        ensures
            length != 0 <==> r != 0,
            length == 0 ==> r == 0 && final(self).inputs() == old(self).inputs(),
            length != 0 ==> r == pointer && final(self).inputs() == old(self).inputs().insert(
                pointer,
                length,
            ),
            final(self).outputs() == old(self).outputs(),
            final(self).mounted() == old(self).mounted(),
    {
        if length == 0 {
            return 0;
        }
        self.inputs.insert(pointer, length);
        pointer
    }

    /// Releases the input buffer at `pointer` if it has exactly `length` bytes.
    pub fn dealloc(&mut self, pointer: usize, length: u32) -> (r: bool)
        ensures
            r == registered(old(self).inputs(), pointer, length),
            r ==> final(self).inputs() == old(self).inputs().remove(pointer),
            !r ==> final(self).inputs() == old(self).inputs(),
            final(self).outputs() == old(self).outputs(),
            final(self).mounted() == old(self).mounted(),
    {
        remove_buffer(&mut self.inputs, pointer, length)
    }

    fn input(&self, pointer: usize, length: u32) -> (r: Result<(), BridgeError>)
        ensures
            r is Ok <==> registered(self.inputs(), pointer, length),
            r matches Err(e) ==> e.status == Status::InvalidArgument && e.message@
                == "invalid guest input buffer"@,
    {
        let known = match self.inputs.get(&pointer) {
            Some(l) => *l == length,
            None => false,
        };
        if known {
            Ok(())
        } else {
            Err(BridgeError::new(Status::InvalidArgument, "invalid guest input buffer"))
        }
    }

    /// Mounts from the input buffer at `pointer`, whose decoded contents are
    /// `request`.  An unknown buffer is answered with `InvalidArgument`.
    pub fn mount(&mut self, pointer: usize, length: u32, request: Result<MountRequest, BridgeError>) -> (r:
        GuestResponse)
        ensures
            r.protocol_version == PROTOCOL_VERSION_V2,
            !registered(old(self).inputs(), pointer, length) ==> fails_with(
                r,
                Status::InvalidArgument,
                "invalid guest input buffer"@,
            ) && final(self).mounted() == old(self).mounted(),
            registered(old(self).inputs(), pointer, length) ==> (request matches Err(e) ==> answers(
                r,
                Err(e),
            ) && final(self).mounted() == old(self).mounted()),
            registered(old(self).inputs(), pointer, length) && request is Ok && old(self).mounted()
                ==> fails_with(r, Status::InvalidSession, "guest application is already mounted"@)
                && final(self).mounted(),
            registered(old(self).inputs(), pointer, length) && request is Ok && !old(self).mounted() ==> (final(self).mounted() <==> r.result is Batch),
            registered(old(self).inputs(), pointer, length) && request is Ok && !old(self).mounted()
                ==> exists|res: Result<(A, CommandBatch), BridgeError>|
                #[trigger] call_ensures(A::mount, (request->Ok_0,), res) && answers(
                    r,
                    mounted_batch(res),
                ) && final(self).application() == mounted_application(res),
            final(self).inputs() == old(self).inputs(),
            final(self).outputs() == old(self).outputs(),
    {
        match self.input(pointer, length) {
            Ok(()) => self.guest.mount(request),
            Err(error) => GuestResponse::from_result(Err(error)),
        }
    }

    /// Delivers the event decoded from the input buffer at `pointer`.
    pub fn dispatch_event(
        &mut self,
        pointer: usize,
        length: u32,
        request: Result<EventRequest, BridgeError>,
    ) -> (r: GuestResponse)
        ensures
            r.protocol_version == PROTOCOL_VERSION_V2,
            final(self).mounted() == old(self).mounted(),
            !registered(old(self).inputs(), pointer, length) ==> fails_with(
                r,
                Status::InvalidArgument,
                "invalid guest input buffer"@,
            ),
            registered(old(self).inputs(), pointer, length) ==> (request matches Err(e) ==> answers(
                r,
                Err(e),
            )),
            registered(old(self).inputs(), pointer, length) && request is Ok && !old(self).mounted() ==> fails_with(r, Status::InvalidSession, "guest application is not mounted"@),
            registered(old(self).inputs(), pointer, length) && request is Ok && old(self).mounted()
                ==> exists|app: &mut A, res: Result<CommandBatch, BridgeError>|
                #[trigger] call_ensures(A::dispatch_event, (app, request->Ok_0.event), res)
                    && mut_ref_current(app) == old(self).application()->0 && mut_ref_future(app)
                    == final(self).application()->0 && answers(r, res),
            final(self).inputs() == old(self).inputs(),
            final(self).outputs() == old(self).outputs(),
    {
        match self.input(pointer, length) {
            Ok(()) => self.guest.dispatch_event(request),
            Err(error) => GuestResponse::from_result(Err(error)),
        }
    }

    /// Destroys the mounted application.
    pub fn destroy(&mut self) -> (r: GuestResponse)
        ensures
            r.protocol_version == PROTOCOL_VERSION_V2,
            !final(self).mounted(),
            !old(self).mounted() ==> fails_with(r, Status::InvalidSession, "guest application is not mounted"@),
            old(self).mounted() ==> exists|res: Result<CommandBatch, BridgeError>|
                #[trigger] call_ensures(A::destroy, (old(self).application()->0,), res) && answers(
                    r,
                    res,
                ),
            final(self).inputs() == old(self).inputs(),
            final(self).outputs() == old(self).outputs(),
    {
        self.guest.destroy()
    }

    /// Registers the encoded response of `length` bytes at `pointer` as an
    /// output buffer and describes it.
    pub fn store_output(&mut self, pointer: usize, length: u32) -> (r: BufferDescriptor)
        ensures
            r == (BufferDescriptor { pointer, length }),
            final(self).outputs() == old(self).outputs().insert(pointer, length),
            final(self).inputs() == old(self).inputs(),
            final(self).mounted() == old(self).mounted(),
    {
        self.outputs.insert(pointer, length);
        BufferDescriptor { pointer, length }
    }

    /// Whether `descriptor` names a live output buffer of exactly its length.
    pub fn output(&self, descriptor: BufferDescriptor) -> (r: bool)
        ensures
            r == registered(self.outputs(), descriptor.pointer, descriptor.length),
    {
        match self.outputs.get(&descriptor.pointer) {
            Some(l) => *l == descriptor.length,
            None => false,
        }
    }

    /// Releases the output buffer at `pointer` if it has exactly `length` bytes.
    pub fn output_dealloc(&mut self, pointer: usize, length: u32) -> (r: bool)
        ensures
            r == registered(old(self).outputs(), pointer, length),
            r ==> final(self).outputs() == old(self).outputs().remove(pointer),
            !r ==> final(self).outputs() == old(self).outputs(),
            final(self).inputs() == old(self).inputs(),
            final(self).mounted() == old(self).mounted(),
    {
        remove_buffer(&mut self.outputs, pointer, length)
    }
}

} // verus!

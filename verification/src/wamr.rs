use vstd::prelude::*;

use crate::guest::{BufferDescriptor, GuestResult, PROTOCOL_VERSION_V2};
use crate::ids::{BridgeError, CommandBatch, Status};
use crate::text::{decimal_spec, message_with, owned};

verus! {

/// The guest protocol version a WAMR guest must report: the one the guest
/// runtime speaks.
pub const GUEST_PROTOCOL_VERSION: u32 = PROTOCOL_VERSION_V2;

/// An error of a bridge backend; a fatal one poisons the session.
#[derive(Clone, Debug, PartialEq, Eq)]
pub struct BackendError {
    pub status: Status,
    pub message: String,
    pub poison_session: bool,
}

impl BackendError {
    /// An error after which the session cannot be trusted.
    pub fn fatal(status: Status, message: String) -> (r: BackendError)
        ensures
            r.status == status,
            r.message == message,
            r.poison_session,
    {
        BackendError { status, message, poison_session: true }
    }

    /// A bridge error raised while a session's state was being changed; it
    /// poisons the session.
    pub fn from_bridge(error: BridgeError) -> (r: BackendError)
        ensures
            r.status == error.status,
            r.message == error.message,
            r.poison_session,
    {
        BackendError { status: error.status, message: error.message, poison_session: true }
    }

    /// An error that leaves the session usable.
    pub fn recoverable(status: Status, message: String) -> (r: BackendError)
        ensures
            r.status == status,
            r.message == message,
            !r.poison_session,
    {
        BackendError { status, message, poison_session: false }
    }
}

/// The address half of a packed output descriptor.
pub open spec fn descriptor_pointer(d: u64) -> u32 {
    (d >> 32u64) as u32
}

/// The length half of a packed output descriptor.
pub open spec fn descriptor_length(d: u64) -> u32 {
    (d & 0xffff_ffffu64) as u32
}

/// Splits a packed output descriptor; an empty descriptor is a fatal
/// `InvalidArgument`.
pub fn unpack_output_descriptor(descriptor: u64) -> (r: Result<(u32, u32), BackendError>)
    ensures
        descriptor_pointer(descriptor) == 0 || descriptor_length(descriptor) == 0 ==> (r matches Err(
            e,
        ) && e.status == Status::InvalidArgument && e.message@
            == "guest returned an empty output descriptor"@ && e.poison_session),
        descriptor_pointer(descriptor) != 0 && descriptor_length(descriptor) != 0 ==> r == Ok::<
            (u32, u32),
            BackendError,
        >((descriptor_pointer(descriptor), descriptor_length(descriptor))),
{
    let pointer = (descriptor >> 32u64) as u32;
    let length = (descriptor & 0xffff_ffffu64) as u32;
    if pointer == 0 || length == 0 {
        return Err(
            BackendError::fatal(
                Status::InvalidArgument,
                owned("guest returned an empty output descriptor"),
            ),
        );
    }
    Ok((pointer, length))
}

/// Unpacking a packed descriptor gives back its address and length.
pub proof fn lemma_descriptor_round_trip(d: BufferDescriptor)
    requires
        d.pointer < 0x1_0000_0000,
    ensures
        ({
            let packed = ((d.pointer as u64) << 32u64) | (d.length as u64);
            descriptor_pointer(packed) == d.pointer && descriptor_length(packed) == d.length
        }),
{
    let p = d.pointer as u64;
    let l = d.length as u64;
    assert(p < 0x1_0000_0000 ==> (((p << 32u64) | l) >> 32u64) == p) by (bit_vector)
        requires
            l < 0x1_0000_0000,
    ;
    assert((((p << 32u64) | l) & 0xffff_ffffu64) == l) by (bit_vector)
        requires
            l < 0x1_0000_0000,
    ;
}

/// What a guest response means to the host: its batch, or its error.  An
/// error that claims success is a protocol violation.
pub fn guest_result_to_batch(result: GuestResult) -> (r: Result<CommandBatch, BackendError>)
    ensures
        match result {
            GuestResult::Batch(b) => r == Ok::<CommandBatch, BackendError>(b),
            GuestResult::Failure { status, message } => if status == Status::Success {
                r matches Err(e) && e.status == Status::InvalidArgument && e.message@
                    == "guest error response used an OK status"@ && e.poison_session
            } else {
                r matches Err(e) && e.status == status && e.message == message && !e.poison_session
            },
        },
{
    match result {
        GuestResult::Batch(batch) => Ok(batch),
        GuestResult::Failure { status, message } => {
            if let Status::Success = status {
                Err(
                    BackendError::fatal(
                        Status::InvalidArgument,
                        owned("guest error response used an OK status"),
                    ),
                )
            } else {
                Err(BackendError::recoverable(status, message))
            }
        },
    }
}

/// The size of a module to load: nonempty and below 4 GiB.
pub fn check_module_size(length: usize) -> (r: Result<u32, BackendError>)
    ensures
        length > u32::MAX ==> (r matches Err(e) && e.status == Status::InvalidArgument
            && e.message@ == "WASM module is larger than 4 GiB"@ && !e.poison_session),
        length == 0 ==> (r matches Err(e) && e.status == Status::InvalidArgument && e.message@
            == "WASM module must not be empty"@ && !e.poison_session),
        0 < length <= u32::MAX ==> r == Ok::<u32, BackendError>(length as u32),
{
    if length > 0xffff_ffffusize {
        return Err(
            BackendError::recoverable(Status::InvalidArgument, owned("WASM module is larger than 4 GiB")),
        );
    }
    if length == 0 {
        return Err(
            BackendError::recoverable(Status::InvalidArgument, owned("WASM module must not be empty")),
        );
    }
    Ok(length as u32)
}

/// The size of a guest request: below 4 GiB.
pub fn check_request_size(length: usize) -> (r: Result<u32, BackendError>)
    ensures
        length > u32::MAX ==> (r matches Err(e) && e.status == Status::InvalidArgument
            && e.message@ == "guest request is larger than 4 GiB"@ && !e.poison_session),
        length <= u32::MAX ==> r == Ok::<u32, BackendError>(length as u32),
{
    if length > 0xffff_ffffusize {
        return Err(
            BackendError::recoverable(
                Status::InvalidArgument,
                owned("guest request is larger than 4 GiB"),
            ),
        );
    }
    Ok(length as u32)
}

/// The guest's `alloc` must not return null for a nonempty request.
pub fn check_input_allocation(pointer: u32, length: u32) -> (r: Result<(), BackendError>)
    ensures
        pointer == 0 && length != 0 ==> (r matches Err(e) && e.status == Status::ResourceExhausted
            && e.message@ == "guest alloc returned a null pointer"@ && e.poison_session),
        !(pointer == 0 && length != 0) ==> r is Ok,
{
    if pointer == 0 && length != 0 {
        return Err(
            BackendError::fatal(Status::ResourceExhausted, owned("guest alloc returned a null pointer")),
        );
    }
    Ok(())
}

/// The guest must confirm a deallocation with exactly 1.
pub fn check_deallocation(answer: u32, output: bool) -> (r: Result<(), BackendError>)
    ensures
        answer != 1 ==> (r matches Err(e) && e.status == Status::HostError && e.message@ == (if output {
            "guest rejected its output deallocation"@
        } else {
            "guest rejected its input deallocation"@
        }) && e.poison_session),
        answer == 1 ==> r is Ok,
{
    if answer != 1 {
        let m = if output {
            owned("guest rejected its output deallocation")
        } else {
            owned("guest rejected its input deallocation")
        };
        return Err(BackendError::fatal(Status::HostError, m));
    }
    Ok(())
}

/// The guest must speak the supported protocol version.
pub fn check_guest_version(actual: u32) -> (r: Result<(), BackendError>)
    ensures
        actual != GUEST_PROTOCOL_VERSION ==> (r matches Err(e) && e.status == Status::Unsupported
            && e.message@ == "unsupported guest protocol version "@ + decimal_spec(actual as nat)
            && !e.poison_session),
        actual == GUEST_PROTOCOL_VERSION ==> r is Ok,
{
    if actual != GUEST_PROTOCOL_VERSION {
        let m = message_with("unsupported guest protocol version ", actual as u64, "");
        proof {
            reveal_strlit("");
            assert(m@ =~= "unsupported guest protocol version "@ + decimal_spec(actual as nat));
        }
        return Err(BackendError::recoverable(Status::Unsupported, m));
    }
    Ok(())
}

/// An export's signature matches when its parameter and result types are
/// exactly the expected ones.
pub fn signature_matches(parameters: &[u8], results: &[u8], expected_parameters: &[u8], expected_results: &[u8]) -> (r:
    bool)
    ensures
        r == (parameters@ == expected_parameters@ && results@ == expected_results@),
{
    crate::text::bytes_eq(parameters, expected_parameters) && crate::text::bytes_eq(
        results,
        expected_results,
    )
}

/// Judges one export of a guest: a missing export is refused when it is
/// required and skipped (`Ok(false)`) when it is optional; a present one must
/// have exactly the expected signature (`Ok(true)`).  Refusals are
/// recoverable `Unsupported` errors that name the export.
pub fn check_export(
    name: &str,
    required: bool,
    present: bool,
    parameters: &[u8],
    results: &[u8],
    expected_parameters: &[u8],
    expected_results: &[u8],
) -> (r: Result<bool, BackendError>)
    ensures
        !present && required ==> (r matches Err(e) && e.status == Status::Unsupported && e.message@
            == "guest export "@ + name@ + " is missing"@ && !e.poison_session),
        !present && !required ==> r == Ok::<bool, BackendError>(false),
        present && !(parameters@ == expected_parameters@ && results@ == expected_results@) ==> (
        r matches Err(e) && e.status == Status::Unsupported && e.message@ == "guest export "@ + name@
            + " has an incompatible signature"@ && !e.poison_session),
        present && parameters@ == expected_parameters@ && results@ == expected_results@ ==> r == Ok::<
            bool,
            BackendError,
        >(true),
{
    if !present {
        if required {
            let mut m = owned("guest export ");
            m.append(name);
            m.append(" is missing");
            return Err(BackendError::recoverable(Status::Unsupported, m));
        }
        return Ok(false);
    }
    if !signature_matches(parameters, results, expected_parameters, expected_results) {
        let mut m = owned("guest export ");
        m.append(name);
        m.append(" has an incompatible signature");
        return Err(BackendError::recoverable(Status::Unsupported, m));
    }
    Ok(true)
}

} // verus!

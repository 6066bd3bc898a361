use lynx_element_bridge::guest::{
    check_protocol_version, AbiRuntime, BufferDescriptor, EventRequest, GuestApplication, GuestResponse,
    GuestResult, MountRequest, PROTOCOL_VERSION_V2,
};
use lynx_element_bridge::ids::{BridgeError, CallbackId, CommandBatch, EventMessage, ListenerId, NodeId, SessionId, Status};
use lynx_element_bridge::wamr::{
    check_deallocation, check_guest_version, check_input_allocation, check_module_size, guest_result_to_batch,
    signature_matches, unpack_output_descriptor,
};

struct TestApplication;

fn batch(sequence: u32) -> CommandBatch {
    CommandBatch { session: SessionId::new(1).unwrap(), sequence, commands: Vec::new(), final_commit: true }
}

impl GuestApplication for TestApplication {
    fn mount(_: MountRequest) -> Result<(Self, CommandBatch), BridgeError> {
        Ok((Self, batch(1)))
    }

    fn dispatch_event(&mut self, _: EventMessage) -> Result<CommandBatch, BridgeError> {
        Ok(batch(2))
    }

    fn destroy(self) -> Result<CommandBatch, BridgeError> {
        Ok(batch(3))
    }
}

fn mount_request() -> Result<MountRequest, BridgeError> {
    Ok(MountRequest { protocol_version: PROTOCOL_VERSION_V2, root: NodeId::new(1).unwrap() })
}

fn is_batch(response: &GuestResponse) -> bool {
    matches!(response.result, GuestResult::Batch(_))
}

fn failure_status(response: &GuestResponse) -> Option<Status> {
    match &response.result {
        GuestResult::Failure { status, .. } => Some(*status),
        GuestResult::Batch(_) => None,
    }
}

#[test]
fn abi_buffers_remain_owned_until_the_matching_deallocator_runs() {
    let mut runtime = AbiRuntime::<TestApplication>::new();
    let length: u32 = 16;
    let input = runtime.allocate(length, 0x1000);
    assert_ne!(input, 0);
    let response = runtime.mount(input, length, mount_request());
    assert!(is_batch(&response));
    let output = runtime.store_output(0x2000, 24);

    assert!(!runtime.dealloc(input, length - 1));
    assert!(runtime.dealloc(input, length));
    assert!(!runtime.dealloc(input, length));
    assert!(!runtime.output_dealloc(output.pointer, output.length - 1));
    assert!(runtime.output(output));
    assert!(runtime.output_dealloc(output.pointer, output.length));
    assert!(!runtime.output(output));
    assert!(!runtime.output_dealloc(output.pointer, output.length));
}

#[test]
fn lifecycle_supports_repeated_calls_and_deterministic_errors() {
    let mut runtime = AbiRuntime::<TestApplication>::new();
    let invalid = runtime.dispatch_event(usize::MAX, 4, Err(BridgeError::new(Status::InvalidArgument, "unused")));
    assert_eq!(failure_status(&invalid), Some(Status::InvalidArgument));

    let input = runtime.allocate(8, 0x1000);
    let mounted = runtime.mount(input, 8, mount_request());
    assert!(is_batch(&mounted));

    let event = EventRequest {
        protocol_version: PROTOCOL_VERSION_V2,
        event: EventMessage {
            session: SessionId::new(1).unwrap(),
            listener: ListenerId::new(2).unwrap(),
            callback: CallbackId::new(3).unwrap(),
            content_type: "application/octet-stream".into(),
            payload: Vec::new(),
        },
    };
    let event_input = runtime.allocate(12, 0x3000);
    let dispatched = runtime.dispatch_event(event_input, 12, Ok(event));
    assert!(is_batch(&dispatched));

    let destroyed = runtime.destroy();
    assert!(is_batch(&destroyed));
    let destroyed_again = runtime.destroy();
    assert_eq!(failure_status(&destroyed_again), Some(Status::InvalidSession));
}

#[test]
fn second_mount_and_empty_buffers_are_refused() {
    let mut runtime = AbiRuntime::<TestApplication>::new();
    assert_eq!(runtime.allocate(0, 0x1000), 0);
    let input = runtime.allocate(4, 0x1000);
    assert!(is_batch(&runtime.mount(input, 4, mount_request())));
    assert_eq!(failure_status(&runtime.mount(input, 4, mount_request())), Some(Status::InvalidSession));
    let decode_error = runtime.mount(input, 4, Err(BridgeError::new(Status::Unsupported, "v1")));
    assert_eq!(failure_status(&decode_error), Some(Status::Unsupported));
    assert!(check_protocol_version(PROTOCOL_VERSION_V2).is_ok());
    assert_eq!(check_protocol_version(1).unwrap_err().status, Status::Unsupported);
}

#[test]
fn descriptors_pack_and_unpack() {
    let packed = BufferDescriptor { pointer: 0x1234, length: 0x56 }.pack_wasm32();
    assert_eq!(packed, 0x0000_1234_0000_0056);
    assert_eq!(unpack_output_descriptor(packed).unwrap(), (0x1234, 0x56));
    let empty = unpack_output_descriptor(0x0000_1234_0000_0000).unwrap_err();
    assert_eq!(empty.status, Status::InvalidArgument);
    assert!(empty.poison_session);
}

#[test]
fn guest_results_map_to_backend_outcomes() {
    assert!(guest_result_to_batch(GuestResult::Batch(batch(4))).is_ok());
    let lying = guest_result_to_batch(GuestResult::Failure { status: Status::Success, message: "x".into() })
        .unwrap_err();
    assert_eq!(lying.status, Status::InvalidArgument);
    assert!(lying.poison_session);
    let honest = guest_result_to_batch(GuestResult::Failure { status: Status::InvalidListener, message: "stale".into() })
        .unwrap_err();
    assert_eq!(honest.status, Status::InvalidListener);
    assert_eq!(honest.message, "stale");
    assert!(!honest.poison_session);
    assert!(check_module_size(0).is_err());
    assert_eq!(check_module_size(10).unwrap(), 10);
    assert!(check_input_allocation(0, 4).unwrap_err().poison_session);
    assert!(check_input_allocation(0, 0).is_ok());
    assert_eq!(check_deallocation(0, true).unwrap_err().status, Status::HostError);
    assert_eq!(check_guest_version(1).unwrap_err().status, Status::Unsupported);
    assert!(check_guest_version(2).is_ok());
    assert!(check_guest_version(PROTOCOL_VERSION_V2).is_ok());
    assert!(signature_matches(&[0x7f], &[], &[0x7f], &[]));
    assert!(!signature_matches(&[0x7f], &[0x7e], &[0x7f], &[]));
}

fn failure_message(response: &GuestResponse) -> Option<String> {
    match &response.result {
        GuestResult::Failure { message, .. } => Some(message.clone()),
        GuestResult::Batch(_) => None,
    }
}

#[test]
fn guest_refusals_say_why() {
    let mut runtime = AbiRuntime::<TestApplication>::new();
    assert_eq!(
        failure_message(&runtime.mount(0x9000, 4, mount_request())).unwrap(),
        "invalid guest input buffer"
    );
    assert_eq!(failure_message(&runtime.destroy()).unwrap(), "guest application is not mounted");
    let input = runtime.allocate(4, 0x1000);
    assert!(is_batch(&runtime.mount(input, 4, mount_request())));
    assert_eq!(
        failure_message(&runtime.mount(input, 4, mount_request())).unwrap(),
        "guest application is already mounted"
    );
    assert_eq!(check_protocol_version(1).unwrap_err().message, "unsupported protocol version 1");
    assert_eq!(check_guest_version(7).unwrap_err().message, "unsupported guest protocol version 7");
    assert_eq!(check_module_size(0).unwrap_err().message, "WASM module must not be empty");
    assert_eq!(check_deallocation(0, false).unwrap_err().message, "guest rejected its input deallocation");
}

struct RefusingApplication;

impl GuestApplication for RefusingApplication {
    fn mount(_: MountRequest) -> Result<(Self, CommandBatch), BridgeError> {
        Err(BridgeError::new(Status::Unsupported, "refused by the application"))
    }

    fn dispatch_event(&mut self, _: EventMessage) -> Result<CommandBatch, BridgeError> {
        Ok(batch(2))
    }

    fn destroy(self) -> Result<CommandBatch, BridgeError> {
        Ok(batch(3))
    }
}

#[test]
fn the_application_answers_mount_dispatch_and_destroy() {
    let mut refusing = AbiRuntime::<RefusingApplication>::new();
    let input = refusing.allocate(4, 0x1000);
    let refused = refusing.mount(input, 4, mount_request());
    assert_eq!(failure_status(&refused), Some(Status::Unsupported));
    assert_eq!(failure_message(&refused).unwrap(), "refused by the application");
    assert_eq!(failure_message(&refusing.destroy()).unwrap(), "guest application is not mounted");

    let mut runtime = AbiRuntime::<TestApplication>::new();
    let input = runtime.allocate(4, 0x1000);
    match runtime.mount(input, 4, mount_request()).result {
        GuestResult::Batch(b) => assert_eq!(b.sequence, 1),
        GuestResult::Failure { .. } => panic!("mount failed"),
    }
    match runtime.destroy().result {
        GuestResult::Batch(b) => assert_eq!(b.sequence, 3),
        GuestResult::Failure { .. } => panic!("destroy failed"),
    }
}

#[test]
fn exports_are_judged_by_presence_and_exact_signature() {
    use_check_export();
}

fn use_check_export() {
    let missing = lynx_element_bridge::wamr::check_export("alloc", true, false, &[], &[], &[0], &[0]).unwrap_err();
    assert_eq!(missing.status, Status::Unsupported);
    assert_eq!(missing.message, "guest export alloc is missing");
    assert!(!missing.poison_session);
    assert_eq!(lynx_element_bridge::wamr::check_export("_start", false, false, &[], &[], &[], &[]).unwrap(), false);
    let wrong = lynx_element_bridge::wamr::check_export("mount", true, true, &[0], &[0], &[0, 0], &[1]).unwrap_err();
    assert_eq!(wrong.message, "guest export mount has an incompatible signature");
    assert!(lynx_element_bridge::wamr::check_export("mount", true, true, &[0, 0], &[1], &[0, 0], &[1]).unwrap());
}

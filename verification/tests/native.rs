use lynx_element_bridge::native::{BatchFlow, BatchStep};
use lynx_element_bridge::ids::{CallbackId, Command, ListenerId, NodeId, SessionId, Status};
use lynx_element_bridge::native::{
    check_acquire_arguments, check_acquired, check_api_table, check_root, native_error, status_to_native,
    NativeCall, NativeHost, NATIVE_STATUS_HOST_ERROR, NATIVE_STATUS_OK,
};

fn node(n: u32) -> NodeId {
    NodeId::new(n).unwrap()
}

#[test]
fn native_statuses_round_trip() {
    for status in [
        Status::InvalidArgument,
        Status::InvalidSession,
        Status::WrongThread,
        Status::Unsupported,
        Status::InvalidOwnership,
        Status::InvalidListener,
        Status::ResourceExhausted,
        Status::HostError,
        Status::Panic,
        Status::InternalError,
    ] {
        assert_eq!(native_error(status_to_native(status), "op").status, status);
    }
    assert_eq!(status_to_native(Status::Success), 0);
    assert_eq!(native_error(99, "op").status, Status::InternalError);
    assert_eq!(native_error(8, "flush").message, "native flush failed with status 8");
}

#[test]
fn acquisition_checks_every_input() {
    assert_eq!(check_acquire_arguments(0, true, true).unwrap_err().status, Status::InvalidArgument);
    assert_eq!(check_acquire_arguments(1, false, true).unwrap_err().status, Status::InvalidArgument);
    assert!(check_acquire_arguments(1, true, true).is_ok());
    assert!(check_api_table(false, 1, 200, 100, true).is_err());
    assert!(check_api_table(true, 2, 200, 100, true).is_err());
    assert!(check_api_table(true, 1, 50, 100, true).is_err());
    assert!(check_api_table(true, 1, 200, 100, false).is_err());
    assert!(check_api_table(true, 1, 200, 100, true).is_ok());
    assert_eq!(check_acquired(NATIVE_STATUS_OK, 0).unwrap_err().status, Status::HostError);
    assert_eq!(check_acquired(NATIVE_STATUS_HOST_ERROR, 7).unwrap_err().status, Status::HostError);
    assert_eq!(check_acquired(NATIVE_STATUS_OK, 7).unwrap(), 7);
    assert_eq!(check_root(NATIVE_STATUS_OK, 0).unwrap_err().status, Status::HostError);
    assert_eq!(check_root(NATIVE_STATUS_OK, 100).unwrap(), 100);
}

#[test]
fn commands_map_bridge_nodes_to_native_handles() {
    let mut host = NativeHost::new(77, node(1), 100);
    assert_eq!(host.begin_batch(1).unwrap(), 77);
    let create = Command::CreateElement { node: node(2), tag: "view".into() };
    let call = host.prepare(&create).unwrap();
    assert!(matches!(&call, NativeCall::CreateElement { tag } if tag == "view"));
    host.complete(&create, &call, NATIVE_STATUS_OK, 200).unwrap();
    let append = Command::AppendElement { parent: node(1), child: node(2) };
    let call = host.prepare(&append).unwrap();
    assert!(matches!(call, NativeCall::InsertBefore { parent: 100, child: 200, reference: 0 }));
    host.complete(&append, &call, NATIVE_STATUS_OK, 0).unwrap();
    host.finish_batch(1, Some(NATIVE_STATUS_OK)).unwrap();
    assert_eq!(host.begin_batch(1).unwrap_err().status, Status::InvalidArgument);
    assert_eq!(host.begin_batch(2).unwrap(), 77);
    assert_eq!(host.prepare(&create).unwrap_err().status, Status::InvalidOwnership);
    let destroy_root = Command::DestroyNode { node: node(1) };
    assert_eq!(host.prepare(&destroy_root).unwrap_err().status, Status::InvalidOwnership);
}

#[test]
fn duplicate_native_handles_poison_the_host() {
    let mut host = NativeHost::new(77, node(1), 100);
    let create = Command::CreateElement { node: node(2), tag: "view".into() };
    let call = host.prepare(&create).unwrap();
    assert_eq!(host.complete(&create, &call, NATIVE_STATUS_OK, 100).unwrap_err().status, Status::HostError);
    assert_eq!(host.begin_batch(5).unwrap_err().status, Status::HostError);
}

#[test]
fn listener_identity_is_exact_and_handles_are_not_reused() {
    let mut host = NativeHost::new(77, node(1), 100);
    let add = Command::AddEventListener {
        node: node(1),
        listener: ListenerId::new(3).unwrap(),
        callback: CallbackId::new(4).unwrap(),
        name: "tap".into(),
    };
    let call = host.prepare(&add).unwrap();
    assert!(matches!(&call, NativeCall::AddEventListener { node: 100, listener: 1, callback: 4, name } if name == "tap"));
    host.complete(&add, &call, NATIVE_STATUS_OK, 0).unwrap();
    assert_eq!(host.prepare(&add).unwrap_err().status, Status::InvalidListener);
    let session = SessionId::new(9).unwrap();
    let event = host.event_message(session, 77, 1, 4, "tap", "a/b".into(), vec![1]).unwrap();
    assert_eq!(event.listener, ListenerId::new(3).unwrap());
    assert_eq!(host.event_message(session, 77, 1, 5, "tap", "a/b".into(), vec![]).unwrap_err().status, Status::InvalidListener);
    assert_eq!(host.event_message(session, 78, 1, 4, "tap", "a/b".into(), vec![]).unwrap_err().status, Status::InvalidSession);
    let wrong = Command::RemoveEventListener {
        node: node(1),
        listener: ListenerId::new(3).unwrap(),
        callback: CallbackId::new(4).unwrap(),
        name: "longpress".into(),
    };
    assert_eq!(host.prepare(&wrong).unwrap_err().status, Status::InvalidListener);
    let remove = Command::RemoveEventListener {
        node: node(1),
        listener: ListenerId::new(3).unwrap(),
        callback: CallbackId::new(4).unwrap(),
        name: "tap".into(),
    };
    let call = host.prepare(&remove).unwrap();
    host.complete(&remove, &call, NATIVE_STATUS_OK, 0).unwrap();
    let call = host.prepare(&add).unwrap();
    assert!(matches!(call, NativeCall::AddEventListener { listener: 2, .. }));
}

#[test]
fn timers_fire_by_exact_identity_and_one_shots_are_consumed() {
    let mut host = NativeHost::new(77, node(1), 100);
    let callback = CallbackId::new(6).unwrap();
    assert_eq!(host.timer_created(NATIVE_STATUS_OK, 5, callback, false).unwrap(), 5);
    assert_eq!(host.timer_created(NATIVE_STATUS_OK, 6, callback, true).unwrap(), 6);
    assert_eq!(host.timer_callback(77, 5, 7).unwrap_err().status, Status::InvalidArgument);
    assert_eq!(host.timer_callback(77, 5, 6).unwrap(), callback);
    assert_eq!(host.timer_callback(77, 5, 6).unwrap_err().status, Status::InvalidArgument);
    assert_eq!(host.timer_callback(77, 6, 6).unwrap(), callback);
    assert_eq!(host.timer_callback(77, 6, 6).unwrap(), callback);
    assert_eq!(host.begin_cancel_timer(5).unwrap_err().status, Status::InvalidArgument);
    assert_eq!(host.begin_cancel_timer(6).unwrap(), 77);
    host.timer_cancelled(6, NATIVE_STATUS_OK).unwrap();
    assert_eq!(host.begin_epoch_reset().unwrap(), 77);
    host.epoch_reset_done(NATIVE_STATUS_OK).unwrap();
    assert_eq!(host.begin_release().unwrap(), 77);
    assert_eq!(host.begin_release().unwrap_err().status, Status::InvalidSession);
    assert!(NativeHost::release_done(NATIVE_STATUS_OK).is_ok());
}

#[test]
fn a_failure_after_the_first_command_poisons_the_host() {
    let mut host = NativeHost::new(77, node(1), 100);
    host.command_failed(0);
    assert!(host.begin_batch(1).is_ok());
    host.command_failed(1);
    assert_eq!(host.begin_batch(1).unwrap_err().status, Status::HostError);
}

#[test]
fn native_refusals_name_what_they_refuse() {
    let mut host = NativeHost::new(77, node(1), 100);
    let append = Command::AppendElement { parent: node(1), child: node(9) };
    assert_eq!(host.prepare(&append).unwrap_err().message, "invalid or stale native node 9");
    assert_eq!(
        host.prepare(&Command::DestroyNode { node: node(1) }).unwrap_err().message,
        "the native root is caller-owned"
    );
    let create = Command::CreateElement { node: node(2), tag: "view".into() };
    let call = host.prepare(&create).unwrap();
    assert_eq!(
        host.complete(&create, &call, NATIVE_STATUS_HOST_ERROR, 0).unwrap_err().message,
        "native create_element failed with status 8"
    );
    assert_eq!(host.begin_batch(1).unwrap_err().message, "NativeHost is permanently poisoned");

    let mut host = NativeHost::new(77, node(1), 100);
    host.finish_batch(4, None).unwrap();
    assert_eq!(
        host.begin_batch(4).unwrap_err().message,
        "command batch sequence 4 is not newer than the last applied sequence"
    );
    assert_eq!(host.begin_cancel_timer(3).unwrap_err().message, "invalid or stale native timer 3");
    host.begin_release().unwrap();
    assert_eq!(host.begin_release().unwrap_err().message, "native renderer is already released");
    assert_eq!(host.begin_batch(5).unwrap_err().message, "native renderer is released");
}

#[test]
fn a_failure_after_applied_commands_poisons_for_good() {
    let mut host = NativeHost::new(77, node(1), 100);
    // a refusal of the first command on the bridge side changes nothing
    let stale = Command::AppendElement { parent: node(1), child: node(9) };
    assert!(host.prepare(&stale).is_err());
    host.command_failed(0);
    assert_eq!(host.begin_batch(1).unwrap(), 77);
    // the first command applies, the second fails natively
    let create = Command::CreateElement { node: node(2), tag: "view".into() };
    let call = host.prepare(&create).unwrap();
    host.complete(&create, &call, NATIVE_STATUS_OK, 200).unwrap();
    let append = Command::AppendElement { parent: node(1), child: node(2) };
    let call = host.prepare(&append).unwrap();
    assert_eq!(host.complete(&append, &call, NATIVE_STATUS_HOST_ERROR, 0).unwrap_err().status, Status::HostError);
    for refused in [host.begin_batch(2).unwrap_err(), host.begin_cancel_timer(1).unwrap_err(), host.begin_epoch_reset().unwrap_err()] {
        assert_eq!(refused.status, Status::HostError);
        assert_eq!(refused.message, "NativeHost is permanently poisoned");
    }
}

#[test]
fn batches_run_their_commands_then_flush_only_when_final() {
    let walk = |len: usize, final_commit: bool| {
        let mut flow = BatchFlow::start(len, final_commit);
        let mut steps = Vec::new();
        loop {
            let step = flow.step();
            steps.push(step);
            if step == BatchStep::Finish {
                return steps;
            }
            flow.advance();
        }
    };
    assert_eq!(walk(2, true), vec![BatchStep::Apply(0), BatchStep::Apply(1), BatchStep::Flush, BatchStep::Finish]);
    assert_eq!(walk(2, false), vec![BatchStep::Apply(0), BatchStep::Apply(1), BatchStep::Finish]);
    assert_eq!(walk(0, true), vec![BatchStep::Flush, BatchStep::Finish]);
    assert_eq!(walk(0, false), vec![BatchStep::Finish]);
}

use lynx_element_bridge::ids::CallbackId;
use lynx_element_bridge::protocol::{
    valid_attribute_name, valid_tag, FailureResponse, FiberMutation, ProtocolError, ProtocolResponse,
    SuccessResponse, JS_MAX_SAFE_INTEGER, PROTOCOL_VERSION,
};
use lynx_element_bridge::recording::{BackendError, RecordingBackend};

fn callback() -> CallbackId {
    CallbackId::new(1).unwrap()
}

#[test]
fn ids_are_positive_javascript_safe_integers() {
    let at_max = ProtocolResponse::success(vec![FiberMutation::Flush { root: JS_MAX_SAFE_INTEGER }]).unwrap();
    assert!(at_max.validate().is_ok());
    assert!(ProtocolResponse::success(vec![FiberMutation::Flush { root: JS_MAX_SAFE_INTEGER + 1 }]).is_err());
    assert!(ProtocolResponse::success(vec![
        FiberMutation::AddEventListener { node: 1, listener: JS_MAX_SAFE_INTEGER, name: "tap".into() },
        FiberMutation::Flush { root: 1 },
    ])
    .is_ok());
    assert!(ProtocolResponse::success(vec![
        FiberMutation::AddEventListener { node: 1, listener: JS_MAX_SAFE_INTEGER + 1, name: "tap".into() },
        FiberMutation::Flush { root: 1 },
    ])
    .is_err());
    assert!(RecordingBackend::new(JS_MAX_SAFE_INTEGER).is_ok());
    assert_eq!(
        RecordingBackend::new(JS_MAX_SAFE_INTEGER + 1).err().unwrap(),
        BackendError::InvalidRoot(JS_MAX_SAFE_INTEGER + 1)
    );

    let mut backend = RecordingBackend::new(1).unwrap();
    backend.set_next_node(JS_MAX_SAFE_INTEGER);
    assert_eq!(backend.create_element("view"), JS_MAX_SAFE_INTEGER);
    assert_eq!(backend.create_element("view"), 0);
    assert_eq!(backend.take_response(), Err(BackendError::IdExhausted("node")));

    let mut backend = RecordingBackend::new(1).unwrap();
    let first = backend.create_element("view");
    let second = backend.create_element("view");
    backend.set_next_listener(JS_MAX_SAFE_INTEGER);
    assert_eq!(backend.add_event_listener(first, "tap", callback()), JS_MAX_SAFE_INTEGER);
    assert_eq!(backend.add_event_listener(second, "tap", callback()), 0);
    assert_eq!(backend.take_response(), Err(BackendError::IdExhausted("listener")));
}

#[test]
fn allocation_is_independent_of_root_and_flushes_are_coalesced() {
    let mut backend = RecordingBackend::new(JS_MAX_SAFE_INTEGER).unwrap();
    assert_eq!(backend.create_element("view"), 1);
    let root = backend.root();
    backend.flush(root);
    backend.flush(root);

    let response = backend.take_response().unwrap();
    assert_eq!(
        response
            .operations
            .iter()
            .filter(|operation| matches!(operation, FiberMutation::Flush { .. }))
            .count(),
        1
    );
    assert_eq!(response.operations.last(), Some(&FiberMutation::Flush { root: JS_MAX_SAFE_INTEGER }));

    backend.flush(root);
    assert_eq!(
        backend.take_response().unwrap().operations,
        vec![FiberMutation::Flush { root: JS_MAX_SAFE_INTEGER }]
    );
}

#[test]
fn raw_text_cycles_invalid_names_and_duplicate_events_poison_permanently() {
    let mut raw_backend = RecordingBackend::new(1).unwrap();
    let raw = raw_backend.create_text("raw");
    raw_backend.insert_before(1, raw, None);
    let first_error = raw_backend.take_response().unwrap_err();
    assert_eq!(raw_backend.take_response(), Err(first_error));

    let mut raw_parent_backend = RecordingBackend::new(1).unwrap();
    let raw_parent = raw_parent_backend.create_text("raw");
    let child = raw_parent_backend.create_element("view");
    raw_parent_backend.insert_before(raw_parent, child, None);
    assert!(raw_parent_backend.take_response().is_err());

    let mut cycle_backend = RecordingBackend::new(1).unwrap();
    let outer = cycle_backend.create_element("view");
    let inner = cycle_backend.create_element("view");
    cycle_backend.insert_before(1, outer, None);
    cycle_backend.insert_before(outer, inner, None);
    cycle_backend.remove(1, outer);
    cycle_backend.insert_before(inner, outer, None);
    let first_error = cycle_backend.take_response().unwrap_err();
    cycle_backend.flush(1);
    assert_eq!(cycle_backend.take_response(), Err(first_error));

    let mut tag_backend = RecordingBackend::new(1).unwrap();
    assert_eq!(tag_backend.create_element("page"), 0);
    assert!(tag_backend.take_response().is_err());

    let mut structural_tag_backend = RecordingBackend::new(1).unwrap();
    assert_eq!(structural_tag_backend.create_element("list"), 0);
    assert!(structural_tag_backend.take_response().is_err());

    let mut attribute_backend = RecordingBackend::new(1).unwrap();
    let node = attribute_backend.create_element("view");
    attribute_backend.set_attribute(node, "prototype", Some("value"));
    assert!(attribute_backend.take_response().is_err());

    let mut event_backend = RecordingBackend::new(1).unwrap();
    let node = event_backend.create_element("view");
    assert_eq!(event_backend.add_event_listener(node, "click", callback()), 0);
    assert!(event_backend.take_response().is_err());

    let mut duplicate_backend = RecordingBackend::new(1).unwrap();
    let node = duplicate_backend.create_element("view");
    duplicate_backend.add_event_listener(node, "tap", callback());
    assert_eq!(duplicate_backend.add_event_listener(node, "tap", callback()), 0);
    assert!(duplicate_backend.take_response().is_err());
}

#[test]
fn no_op_listener_still_returns_one_final_flush() {
    let mut backend = RecordingBackend::new(1).unwrap();
    let node = backend.create_element("view");
    let listener = backend.add_event_listener(node, "tap", callback());
    backend.take_response().unwrap();

    assert_eq!(backend.dispatch(listener, "tap").unwrap(), callback());

    assert_eq!(backend.take_response().unwrap().operations, vec![FiberMutation::Flush { root: 1 }]);
}

#[test]
fn stale_listener_is_recoverable_but_backend_mutation_errors_are_not() {
    let mut backend = RecordingBackend::new(1).unwrap();
    let node = backend.create_element("view");
    let listener = backend.add_event_listener(node, "tap", callback());
    backend.remove_event_listener(node, listener);
    assert_eq!(backend.dispatch(listener, "tap"), Err(BackendError::InvalidListener(listener)));
    assert!(backend.take_response().is_ok());

    backend.insert_before(1, 99, None);
    let error = backend.take_response().unwrap_err();
    assert_eq!(backend.take_response(), Err(error));
}

#[test]
fn recorded_mutations_appear_in_order_before_the_flush() {
    let mut backend = RecordingBackend::new(1).unwrap();
    let view = backend.create_element("view");
    let text = backend.create_element("text");
    let raw = backend.create_text("hi");
    backend.insert_before(1, view, None);
    backend.insert_before(view, text, None);
    backend.insert_before(text, raw, None);
    backend.set_attribute(view, "data-x", None);
    let ops = backend.take_response().unwrap().operations;
    assert_eq!(ops.len(), 8);
    assert_eq!(ops[0], FiberMutation::CreateElement { node: view, tag: "view".into() });
    assert_eq!(ops[3], FiberMutation::InsertBefore { parent: 1, child: view, reference: None });
    assert_eq!(ops[6], FiberMutation::SetAttribute { node: view, name: "data-x".into(), value: None });
    assert_eq!(ops[7], FiberMutation::Flush { root: 1 });
    backend.remove(text, raw);
    backend.destroy_node(raw);
    let ops = backend.take_response().unwrap().operations;
    assert_eq!(ops, vec![
        FiberMutation::Remove { parent: text, child: raw },
        FiberMutation::DestroyNode { node: raw },
        FiberMutation::Flush { root: 1 },
    ]);
    backend.dispatch(12345, "tap").unwrap_err();
    backend.discard_pending();
}

#[test]
fn event_names_must_match_the_registration() {
    let mut backend = RecordingBackend::new(1).unwrap();
    let node = backend.create_element("view");
    let listener = backend.add_event_listener(node, "tap", callback());
    assert_eq!(
        backend.dispatch(listener, "longpress"),
        Err(BackendError::EventMismatch { listener, expected: "tap".into(), actual: "longpress".into() })
    );
}

#[test]
fn response_validation_reports_each_error() {
    assert_eq!(SuccessResponse::new(Vec::new()), Err(ProtocolError::MissingFlush));
    assert_eq!(
        SuccessResponse::new(vec![FiberMutation::Flush { root: 1 }, FiberMutation::DestroyNode { node: 2 }]),
        Err(ProtocolError::FlushNotFinal)
    );
    assert_eq!(
        SuccessResponse::new(vec![FiberMutation::DestroyNode { node: 0 }]),
        Err(ProtocolError::ZeroId("node"))
    );
    assert_eq!(
        SuccessResponse::new(vec![FiberMutation::Remove { parent: 1, child: JS_MAX_SAFE_INTEGER + 1 }]),
        Err(ProtocolError::UnsafeId("child", JS_MAX_SAFE_INTEGER + 1))
    );
    assert_eq!(
        SuccessResponse::new(vec![FiberMutation::CreateElement { node: 1, tag: "Bad".into() }]),
        Err(ProtocolError::InvalidName("tag"))
    );
    assert_eq!(
        SuccessResponse::new(vec![FiberMutation::AddEventListener { node: 1, listener: 1, name: "click".into() }]),
        Err(ProtocolError::InvalidEvent("click".into()))
    );
    let bad_version = SuccessResponse { version: 2, ok: true, operations: vec![FiberMutation::Flush { root: 1 }] };
    assert_eq!(bad_version.validate(), Err(ProtocolError::UnsupportedVersion(2)));
    let not_ok = SuccessResponse { version: PROTOCOL_VERSION, ok: false, operations: vec![FiberMutation::Flush { root: 1 }] };
    assert_eq!(not_ok.validate(), Err(ProtocolError::InvalidSuccessFlag));
    assert_eq!(FailureResponse::new(0, "x", Vec::new()), Err(ProtocolError::ZeroFailureStatus));
    let failure = FailureResponse::new(8, "backend failed", Vec::new()).unwrap();
    assert!(!failure.ok);
    let mut flipped = failure.clone();
    flipped.ok = true;
    assert_eq!(flipped.validate(), Err(ProtocolError::InvalidFailureFlag));
}

#[test]
fn tags_and_attribute_names_follow_the_authored_subset() {
    assert!(valid_tag("view"));
    assert!(valid_tag("x-1"));
    assert!(!valid_tag(""));
    assert!(!valid_tag("1x"));
    assert!(!valid_tag("raw-text"));
    assert!(!valid_tag(&"a".repeat(65)));
    assert!(valid_tag(&"a".repeat(64)));
    assert!(valid_attribute_name("data.x:y_z-1"));
    assert!(!valid_attribute_name("constructor"));
    assert!(!valid_attribute_name("_x"));
    assert!(!valid_attribute_name(&"a".repeat(129)));
}

fn refusal(build: impl FnOnce(&mut RecordingBackend)) -> BackendError {
    let mut backend = RecordingBackend::new(1).unwrap();
    build(&mut backend);
    backend.take_response().unwrap_err()
}

#[test]
fn refused_mutations_name_the_rule_and_the_identifiers() {
    let invalid = |m: &str| BackendError::InvalidMutation(m.to_string());
    assert_eq!(
        refusal(|b| {
            b.create_element("page");
        }),
        invalid("element tag `page` is not a supported authored tag")
    );
    assert_eq!(
        refusal(|b| {
            let raw = b.create_text("x");
            let view = b.create_element("view");
            b.insert_before(raw, view, None);
        }),
        invalid("raw-text node 2 cannot be a parent")
    );
    assert_eq!(
        refusal(|b| {
            let raw = b.create_text("x");
            b.insert_before(1, raw, None);
        }),
        invalid("raw-text node 2 must be attached to a text element")
    );
    assert_eq!(
        refusal(|b| {
            let view = b.create_element("view");
            b.insert_before(1, view, None);
            b.insert_before(1, view, None);
        }),
        invalid("node 2 is not detached")
    );
    assert_eq!(
        refusal(|b| {
            let outer = b.create_element("view");
            let inner = b.create_element("view");
            b.insert_before(outer, inner, None);
            b.insert_before(inner, outer, None);
        }),
        invalid("inserting node 2 under 3 would create a cycle")
    );
    assert_eq!(
        refusal(|b| {
            let a = b.create_element("view");
            let c = b.create_element("view");
            b.insert_before(1, c, Some(a));
        }),
        invalid("reference node 2 is not a child of 1")
    );
    assert_eq!(
        refusal(|b| {
            let a = b.create_element("view");
            b.remove(1, a);
        }),
        invalid("node 2 is not a child of 1")
    );
    assert_eq!(
        refusal(|b| {
            let a = b.create_element("view");
            b.insert_before(1, a, None);
            b.destroy_node(a);
        }),
        invalid("node 2 is not detached and empty")
    );
    assert_eq!(
        refusal(|b| {
            let a = b.create_element("view");
            b.add_event_listener(a, "tap", callback());
            b.destroy_node(a);
        }),
        invalid("node 2 still has listeners")
    );
    assert_eq!(
        refusal(|b| {
            let a = b.create_element("view");
            b.set_attribute(a, "", None);
        }),
        invalid("invalid attribute `` for node 2")
    );
    assert_eq!(
        refusal(|b| {
            let a = b.create_element("view");
            b.add_event_listener(a, "scroll", callback());
        }),
        invalid("event `scroll` is not supported by protocol v1")
    );
    assert_eq!(
        refusal(|b| {
            let a = b.create_element("view");
            b.add_event_listener(a, "tap", callback());
            b.add_event_listener(a, "tap", callback());
        }),
        invalid("node 2 already has a `tap` listener")
    );
    assert_eq!(
        refusal(|b| {
            let a = b.create_element("view");
            let c = b.create_element("view");
            let listener = b.add_event_listener(a, "tap", callback());
            b.remove_event_listener(c, listener);
        }),
        invalid("listener 1 is not attached to node 3")
    );
}

#[test]
fn a_poisoned_backend_keeps_its_first_error() {
    let mut backend = RecordingBackend::new(1).unwrap();
    let view = backend.create_element("view");
    let listener = backend.add_event_listener(view, "tap", callback());
    backend.create_element("page");
    let first = backend.take_response().unwrap_err();
    assert_eq!(first, BackendError::InvalidMutation("element tag `page` is not a supported authored tag".into()));
    backend.flush(7);
    backend.insert_before(1, 99, None);
    assert_eq!(backend.create_element("view"), 0);
    backend.flush(1);
    assert_eq!(backend.take_response().unwrap_err(), first);
    assert_eq!(backend.take_response().unwrap_err(), first);
    assert_eq!(backend.dispatch(listener, "tap").unwrap_err(), first);
}

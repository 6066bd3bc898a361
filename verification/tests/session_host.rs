use lynx_element_bridge::attributes::AttributeList;
use lynx_element_bridge::owned::OwnedSession;
use lynx_element_bridge::host::HostFake;
use lynx_element_bridge::ids::{BridgeError, CallbackId, Command, ListenerId, NodeId, SessionId, Status};
use lynx_element_bridge::session::Session;

#[test]
fn ordered_mutations_mount_and_update_a_tree() {
    let session_id = SessionId::new(7).unwrap();
    let root = NodeId::new(1).unwrap();
    let mut session = Session::create(session_id, root).unwrap();
    let view = session.create_element("view").unwrap();
    let text = session.create_element("text").unwrap();
    let raw = session.create_text("Count: 0").unwrap();
    session.set_attribute(view, "id", Some("counter")).unwrap();
    session.insert_before(root, view, None).unwrap();
    session.insert_before(view, text, None).unwrap();
    session.insert_before(text, raw, None).unwrap();

    let batch = session.take_batch().unwrap();
    assert!(batch
        .commands
        .iter()
        .all(|command| !matches!(command, Command::DestroyNode { .. } | Command::RemoveElement { .. })));
    let mut host = HostFake::new(session_id, root);
    host.apply(&batch).unwrap();

    assert_eq!(host.commits(), 1);
    assert_eq!(host.snapshot().children[0].attributes.get("id"), Some(&"counter".into()));
    assert_eq!(host.snapshot().children[0].children[0].children[0].text.as_deref(), Some("Count: 0"));
}

#[test]
fn event_payload_is_opaque_and_destroy_releases_host_state() {
    let session_id = SessionId::new(3).unwrap();
    let root = NodeId::new(1).unwrap();
    let mut session = Session::create(session_id, root).unwrap();
    let button = session.create_element("view").unwrap();
    session.insert_before(root, button, None).unwrap();
    let callback = CallbackId::new(9).unwrap();
    let listener = session.add_event_listener(button, "tap", callback).unwrap();
    let event = session.event(listener, "application/vnd.example.tap", vec![0, 255, 7]).unwrap();
    assert_eq!(event.callback, callback);
    assert_eq!(event.payload, vec![0, 255, 7]);

    let mut host = HostFake::new(session_id, root);
    host.apply(&session.take_batch().unwrap()).unwrap();
    assert_eq!(host.listener_count(), 1);
    host.apply(&session.destroy().unwrap()).unwrap();
    assert_eq!(host.listener_count(), 0);
    assert!(host.snapshot().children.is_empty());
}

#[test]
fn identifiers_reject_zero() {
    assert_eq!(SessionId::new(0).unwrap_err().status, Status::InvalidArgument);
    assert_eq!(NodeId::new(0).unwrap_err().status, Status::InvalidArgument);
    assert_eq!(ListenerId::new(0).unwrap_err().status, Status::InvalidArgument);
    assert_eq!(CallbackId::new(0).unwrap_err().status, Status::InvalidArgument);
    assert_eq!(NodeId::new(5).unwrap().get(), 5);
}

#[test]
fn node_identifiers_skip_the_root() {
    let mut session = Session::create(SessionId::new(1).unwrap(), NodeId::new(2).unwrap()).unwrap();
    assert_eq!(session.create_element("view").unwrap().get(), 1);
    assert_eq!(session.create_element("view").unwrap().get(), 3);
    let mut rooted_at_one = Session::create(SessionId::new(1).unwrap(), NodeId::new(1).unwrap()).unwrap();
    assert_eq!(rooted_at_one.create_element("view").unwrap().get(), 2);
}

#[test]
fn insertion_rules_are_enforced() {
    let root = NodeId::new(1).unwrap();
    let mut session = Session::create(SessionId::new(1).unwrap(), root).unwrap();
    let outer = session.create_element("view").unwrap();
    let inner = session.create_element("view").unwrap();
    let raw = session.create_text("x").unwrap();
    session.insert_before(root, outer, None).unwrap();
    session.insert_before(outer, inner, None).unwrap();
    // a raw text node needs a text element as its parent
    assert_eq!(session.insert_before(root, raw, None).unwrap_err().status, Status::InvalidOwnership);
    // the root cannot be attached, and an attached node must be removed first
    assert_eq!(session.insert_before(outer, root, None).unwrap_err().status, Status::InvalidOwnership);
    assert_eq!(session.insert_before(root, inner, None).unwrap_err().status, Status::InvalidOwnership);
    // a node cannot be attached below itself
    session.remove(root, outer).unwrap();
    assert_eq!(session.insert_before(inner, outer, None).unwrap_err().status, Status::InvalidOwnership);
    // the reference must be a direct child
    let other = session.create_element("view").unwrap();
    assert_eq!(
        session.insert_before(root, other, Some(inner)).unwrap_err().status,
        Status::InvalidOwnership
    );
    session.insert_before(root, outer, None).unwrap();
    session.insert_before(root, other, Some(outer)).unwrap();
    let mut host = HostFake::new(SessionId::new(1).unwrap(), root);
    host.apply(&session.take_batch().unwrap()).unwrap();
    assert_eq!(host.snapshot().children.len(), 2);
}

#[test]
fn destroyed_nodes_and_sessions_refuse_work() {
    let root = NodeId::new(1).unwrap();
    let mut session = Session::create(SessionId::new(4).unwrap(), root).unwrap();
    let node = session.create_element("view").unwrap();
    session.insert_before(root, node, None).unwrap();
    assert_eq!(session.destroy_node(node).unwrap_err().status, Status::InvalidOwnership);
    session.remove(root, node).unwrap();
    session.destroy_node(node).unwrap();
    assert_eq!(session.destroy_node(node).unwrap_err().status, Status::InvalidOwnership);
    let batch = session.destroy().unwrap();
    assert!(batch.final_commit);
    assert_eq!(session.take_batch().unwrap_err().status, Status::InvalidSession);
    assert_eq!(session.create_element("view").unwrap_err().status, Status::InvalidSession);
    assert_eq!(session.destroy().unwrap_err().status, Status::InvalidSession);
}

#[test]
fn destroy_tears_down_listeners_before_nodes_and_keeps_detached_nodes() {
    let root = NodeId::new(1).unwrap();
    let mut session = Session::create(SessionId::new(2).unwrap(), root).unwrap();
    let view = session.create_element("view").unwrap();
    let child = session.create_element("view").unwrap();
    let loose = session.create_element("view").unwrap();
    session.insert_before(root, view, None).unwrap();
    session.insert_before(view, child, None).unwrap();
    session.add_event_listener(child, "tap", CallbackId::new(1).unwrap()).unwrap();
    session.take_batch().unwrap();
    let batch = session.destroy().unwrap();
    let listener_removal = batch
        .commands
        .iter()
        .position(|c| matches!(c, Command::RemoveEventListener { .. }))
        .unwrap();
    let child_destroy = batch
        .commands
        .iter()
        .position(|c| matches!(c, Command::DestroyNode { node } if *node == child))
        .unwrap();
    assert!(listener_removal < child_destroy);
    assert!(!batch.commands.iter().any(|c| matches!(c, Command::DestroyNode { node } if *node == loose)));
    assert_eq!(batch.sequence, 2);
}

#[test]
fn listeners_are_unique_per_event_name_and_stale_after_removal() {
    let root = NodeId::new(1).unwrap();
    let mut session = Session::create(SessionId::new(2).unwrap(), root).unwrap();
    let view = session.create_element("view").unwrap();
    let callback = CallbackId::new(4).unwrap();
    let listener = session.add_event_listener(view, "tap", callback).unwrap();
    assert_eq!(
        session.add_event_listener(view, "tap", callback).unwrap_err().status,
        Status::InvalidOwnership
    );
    let other = session.create_element("view").unwrap();
    assert_eq!(session.remove_event_listener(other, listener).unwrap_err().status, Status::InvalidOwnership);
    session.remove_event_listener(view, listener).unwrap();
    assert_eq!(session.event(listener, "a/b", Vec::new()).unwrap_err().status, Status::InvalidListener);
    let raw = session.create_text("t").unwrap();
    assert_eq!(session.add_event_listener(raw, "tap", callback).unwrap_err().status, Status::InvalidArgument);
}

#[test]
fn batches_carry_increasing_sequences_and_discarding_drops_pending() {
    let root = NodeId::new(1).unwrap();
    let mut session = Session::create(SessionId::new(2).unwrap(), root).unwrap();
    session.create_element("view").unwrap();
    let first = session.take_batch().unwrap();
    assert_eq!(first.sequence, 1);
    assert_eq!(first.commands.len(), 1);
    session.create_element("view").unwrap();
    session.discard_pending().unwrap();
    let second = session.take_batch().unwrap();
    assert_eq!(second.sequence, 2);
    assert!(second.commands.is_empty());
    assert_eq!(session.create_element("").unwrap_err().status, Status::InvalidArgument);
}

#[test]
fn host_refuses_commands_that_do_not_fit_its_tree() {
    let session_id = SessionId::new(5).unwrap();
    let root = NodeId::new(1).unwrap();
    let other_session = lynx_element_bridge::ids::CommandBatch {
        session: SessionId::new(6).unwrap(),
        sequence: 1,
        commands: Vec::new(),
        final_commit: true,
    };
    let mut host = HostFake::new(session_id, root);
    assert_eq!(host.apply(&other_session).unwrap_err().status, Status::InvalidSession);
    let node = NodeId::new(2).unwrap();
    let batch = lynx_element_bridge::ids::CommandBatch {
        session: session_id,
        sequence: 1,
        commands: vec![
            Command::CreateElement { node, tag: "view".into() },
            Command::CreateElement { node, tag: "view".into() },
        ],
        final_commit: true,
    };
    let error: BridgeError = host.apply(&batch).unwrap_err();
    assert_eq!(error.status, Status::InvalidOwnership);
    assert_eq!(host.commits(), 0);
    let destroy_root = lynx_element_bridge::ids::CommandBatch {
        session: session_id,
        sequence: 2,
        commands: vec![Command::DestroyNode { node: root }],
        final_commit: false,
    };
    assert_eq!(host.apply(&destroy_root).unwrap_err().status, Status::InvalidOwnership);
    let set = lynx_element_bridge::ids::CommandBatch {
        session: session_id,
        sequence: 3,
        commands: vec![
            Command::SetAttribute { node: root, name: "a".into(), value: Some("1".into()) },
            Command::SetAttribute { node: root, name: "a".into(), value: Some("2".into()) },
        ],
        final_commit: true,
    };
    host.apply(&set).unwrap();
    assert_eq!(host.snapshot().attributes.get("a"), Some(&"2".to_string()));
    assert_eq!(host.snapshot().tag, "page");
    assert_eq!(host.commits(), 1);
}

#[test]
fn every_session_command_replays_on_a_host_that_follows_its_batches() {
    let session_id = SessionId::new(4).unwrap();
    let root = NodeId::new(1).unwrap();
    let mut session = Session::create(session_id, root).unwrap();
    let mut host = HostFake::new(session_id, root);
    let list = session.create_element("view").unwrap();
    let first = session.create_element("text").unwrap();
    let second = session.create_element("image").unwrap();
    let label = session.create_text("hello").unwrap();
    session.insert_before(root, list, None).unwrap();
    session.insert_before(list, second, None).unwrap();
    session.insert_before(list, first, Some(second)).unwrap();
    session.insert_before(first, label, None).unwrap();
    session.set_attribute(second, "src", Some("a.png")).unwrap();
    let listener = session.add_event_listener(second, "tap", CallbackId::new(2).unwrap()).unwrap();
    host.apply(&session.take_batch().unwrap()).unwrap();
    let snapshot = host.snapshot();
    assert_eq!(snapshot.children[0].children[0].tag, "text");
    assert_eq!(snapshot.children[0].children[1].tag, "image");
    assert_eq!(snapshot.children[0].children[0].children[0].text.as_deref(), Some("hello"));
    assert_eq!(host.listener_count(), 1);

    session.remove_event_listener(second, listener).unwrap();
    session.set_attribute(second, "src", None).unwrap();
    session.remove(list, second).unwrap();
    session.destroy_node(second).unwrap();
    host.apply(&session.take_batch().unwrap()).unwrap();
    let snapshot = host.snapshot();
    assert_eq!(snapshot.children[0].children.len(), 1);
    assert_eq!(snapshot.children[0].children[0].tag, "text");
    assert_eq!(host.listener_count(), 0);
    assert_eq!(host.commits(), 2);

    host.apply(&session.destroy().unwrap()).unwrap();
    assert!(host.snapshot().children.is_empty());
    assert_eq!(host.commits(), 3);
}

#[test]
fn refusals_name_the_rule_and_the_identifiers_they_concern() {
    let root = NodeId::new(1).unwrap();
    let mut session = Session::create(SessionId::new(9).unwrap(), root).unwrap();
    let outer = session.create_element("view").unwrap();
    let raw = session.create_text("x").unwrap();
    let stale = NodeId::new(40).unwrap();
    assert_eq!(session.insert_before(root, stale, None).unwrap_err().message, "invalid or stale node 40");
    assert_eq!(session.insert_before(raw, outer, None).unwrap_err().message, "raw text cannot own children");
    assert_eq!(
        session.insert_before(outer, raw, None).unwrap_err().message,
        "raw text must be attached to a text element"
    );
    session.insert_before(root, outer, None).unwrap();
    assert_eq!(session.insert_before(root, outer, None).unwrap_err().message, "node 2 is not detached");
    let inner = session.create_element("view").unwrap();
    session.insert_before(outer, inner, None).unwrap();
    session.remove(root, outer).unwrap();
    assert_eq!(session.insert_before(inner, outer, None).unwrap_err().message, "insertion would create a cycle");
    let other = session.create_element("view").unwrap();
    assert_eq!(
        session.insert_before(root, other, Some(inner)).unwrap_err().message,
        "reference is not a direct child"
    );
    assert_eq!(
        session.remove(root, inner).unwrap_err().message,
        "child is not attached to the specified parent"
    );
    assert_eq!(
        session.destroy_node(inner).unwrap_err().message,
        "node must be detached and childless before destruction"
    );
    let listener = session.add_event_listener(other, "tap", CallbackId::new(3).unwrap()).unwrap();
    assert_eq!(session.destroy_node(other).unwrap_err().message, "node still owns event listeners");
    assert_eq!(
        session.add_event_listener(other, "tap", CallbackId::new(3).unwrap()).unwrap_err().message,
        "element already has this event listener"
    );
    assert_eq!(
        session.set_attribute(raw, "id", Some("x")).unwrap_err().message,
        "attributes require an element and a nonempty name"
    );
    assert_eq!(
        session.remove_event_listener(outer, listener).unwrap_err().message,
        "listener belongs to a different node"
    );
    session.remove_event_listener(other, listener).unwrap();
    assert_eq!(
        session.remove_event_listener(other, listener).unwrap_err().message,
        format!("invalid or stale listener {}", listener.get())
    );
    assert_eq!(session.create_element("").unwrap_err().message, "element tag must not be empty");
    session.destroy().unwrap();
    assert_eq!(session.take_batch().unwrap_err().message, "session 9 is destroyed");
}

#[test]
fn host_refusals_name_the_missing_node() {
    let session_id = SessionId::new(5).unwrap();
    let root = NodeId::new(1).unwrap();
    let mut host = HostFake::new(session_id, root);
    let batch = lynx_element_bridge::ids::CommandBatch {
        session: session_id,
        sequence: 1,
        commands: vec![Command::DestroyNode { node: NodeId::new(8).unwrap() }],
        final_commit: true,
    };
    assert_eq!(host.apply(&batch).unwrap_err().message, "host does not own node 8");
}

#[test]
fn only_the_owner_thread_may_drive_a_live_session() {
    let root = NodeId::new(1).unwrap();
    let mut session = Session::create(SessionId::new(12).unwrap(), root).unwrap();
    assert!(session.ensure_owner(3, 3).is_ok());
    let foreign = session.ensure_owner(3, 4).unwrap_err();
    assert_eq!(foreign.status, Status::WrongThread);
    assert_eq!(foreign.message, "session 12 was called from a non-owner thread");
    session.destroy().unwrap();
    assert_eq!(session.ensure_owner(3, 3).unwrap_err().message, "session 12 is destroyed");
}

#[test]
fn node_ids_grow_and_batches_keep_call_order() {
    let root = NodeId::new(1).unwrap();
    let mut session = Session::create(SessionId::new(2).unwrap(), root).unwrap();
    let first = session.take_batch().unwrap();
    assert_eq!(first.sequence, 1);
    assert!(first.commands.is_empty());
    let a = session.create_element("view").unwrap();
    let b = session.create_text("hi").unwrap();
    let c = session.create_element("text").unwrap();
    assert_eq!(a.get(), 2);
    assert!(a.get() < b.get() && b.get() < c.get());
    session.insert_before(root, c, None).unwrap();
    session.set_attribute(c, "id", Some("x")).unwrap();
    let second = session.take_batch().unwrap();
    assert_eq!(second.sequence, 2);
    assert!(second.final_commit);
    assert_eq!(
        second.commands,
        vec![
            Command::CreateElement { node: a, tag: "view".into() },
            Command::CreateRawText { node: b, text: "hi".into() },
            Command::CreateElement { node: c, tag: "text".into() },
            Command::AppendElement { parent: root, child: c },
            Command::SetAttribute { node: c, name: "id".into(), value: Some("x".into()) },
        ]
    );
    session.destroy_node(a).unwrap();
    let d = session.create_element("view").unwrap();
    assert!(d.get() > c.get());
}

#[test]
fn host_attribute_writes_last_one_wins_and_removal_restores() {
    let session_id = SessionId::new(5).unwrap();
    let root = NodeId::new(1).unwrap();
    let mut host = HostFake::new(session_id, root);
    let batch = |sequence: u32, commands: Vec<Command>| lynx_element_bridge::ids::CommandBatch {
        session: session_id,
        sequence,
        commands,
        final_commit: false,
    };
    host.apply(&batch(1, vec![Command::SetAttribute { node: root, name: "a".into(), value: Some("1".into()) }]))
        .unwrap();
    host.apply(&batch(2, vec![Command::SetAttribute { node: root, name: "a".into(), value: Some("2".into()) }]))
        .unwrap();
    assert_eq!(host.snapshot().attributes.get("a"), Some(&"2".to_string()));
    host.apply(&batch(3, vec![Command::SetAttribute { node: root, name: "a".into(), value: None }])).unwrap();
    assert_eq!(host.snapshot().attributes.len(), 0);
    let absent = NodeId::new(9).unwrap();
    let refused = host
        .apply(&batch(4, vec![Command::SetAttribute { node: absent, name: "a".into(), value: Some("1".into()) }]))
        .unwrap_err();
    assert_eq!(refused.status, Status::InvalidOwnership);
    assert_eq!(host.snapshot().attributes.len(), 0);
}

#[test]
fn an_owned_session_refuses_other_threads_before_anything_else() {
    let root = NodeId::new(1).unwrap();
    let mut owned = OwnedSession::create(SessionId::new(11).unwrap(), root, 7).unwrap();
    let view = owned.create_element(7, "view").unwrap();
    let off_thread = owned.create_element(8, "view").unwrap_err();
    assert_eq!(off_thread.status, Status::WrongThread);
    assert_eq!(off_thread.message, "session 11 was called from a non-owner thread");
    let stale_listener = ListenerId::new(1).unwrap();
    assert_eq!(
        owned.event(8, stale_listener, "application/octet-stream", Vec::new()).unwrap_err().status,
        Status::WrongThread
    );
    assert_eq!(
        owned.event(7, stale_listener, "application/octet-stream", Vec::new()).unwrap_err().status,
        Status::InvalidListener
    );
    assert_eq!(owned.insert_before(8, root, view, None).unwrap_err().status, Status::WrongThread);
    owned.insert_before(7, root, view, None).unwrap();
    let batch = owned.take_batch(7).unwrap();
    assert_eq!(batch.commands.len(), 2);
    owned.destroy(7).unwrap();
    assert_eq!(owned.take_batch(8).unwrap_err().status, Status::InvalidSession);
}

#[test]
fn attribute_lists_compare_by_contents_not_order() {
    use_attribute_lists();
}

fn use_attribute_lists() {
    let mut a = AttributeList::new();
    a.set("x", "1");
    a.set("y", "2");
    let mut b = AttributeList::new();
    b.set("y", "2");
    b.set("x", "1");
    assert!(a == b);
    b.set("x", "3");
    assert!(a != b);
    b.remove("x");
    assert!(a != b);
}

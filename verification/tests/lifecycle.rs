use lynx_element_bridge::cssbuild::{check_build_paths, fragment_is_fresh, PathPart};
use lynx_element_bridge::ids::{BridgeError, Status};
use lynx_element_bridge::lifecycle::{
    destroy_result, event_refused, mount_result, no_backend, poisoned_session, AbandonFlow, AbandonPhase, DestroyAction,
    DestroyFlow, DispatchFlow, DispatchPhase, MountFlow, MountPhase, ReplaceAction, ReplaceFlow,
    StepOutcome,
};
use lynx_element_bridge::native::{NATIVE_STATUS_HOST_ERROR, NATIVE_STATUS_OK, NATIVE_STATUS_PANIC};
use lynx_element_bridge::registry::{
    callback_session, check_native_span, SessionIdAllocator, SessionOwners, SessionRegistry,
};
use lynx_element_bridge::wamr::BackendError;

fn fatal(status: Status) -> StepOutcome {
    StepOutcome::Failed(BackendError::fatal(status, "boom".to_string()))
}

#[test]
fn session_ids_count_up_and_never_repeat() {
    let mut ids = SessionIdAllocator::new();
    assert_eq!(ids.allocate().unwrap(), 1);
    assert_eq!(ids.allocate().unwrap(), 2);
    assert_eq!(ids.allocate().unwrap(), 3);
}

#[test]
fn lost_backend_and_poisoned_session_errors_name_the_session() {
    let lost = no_backend(12);
    assert_eq!(lost.status, Status::InternalError);
    assert_eq!(lost.message, "session 12 has no backend");
    assert!(lost.poison_session);
    let poisoned = poisoned_session(3);
    assert_eq!(poisoned.status, Status::HostError);
    assert_eq!(poisoned.message, "session 3 is permanently poisoned");
    assert!(!poisoned.poison_session);
}

#[test]
fn owners_refuse_unknown_sessions_and_other_threads() {
    let mut owners = SessionOwners::new();
    assert_eq!(owners.validate(0, 7).unwrap_err().status, Status::InvalidSession);
    assert_eq!(owners.validate(4, 7).unwrap_err().status, Status::InvalidSession);
    owners.reserve(4, 7);
    assert!(owners.validate(4, 7).is_ok());
    let wrong = owners.validate(4, 8).unwrap_err();
    assert_eq!(wrong.status, Status::WrongThread);
    assert!(!wrong.poison_session);
    owners.release(4);
    assert_eq!(owners.validate(4, 7).unwrap_err().status, Status::InvalidSession);
}

#[test]
fn a_lent_session_is_busy_until_it_is_given_back() {
    let mut registry: SessionRegistry<&str> = SessionRegistry::new();
    assert_eq!(registry.take_ready(3).unwrap_err().status, Status::InvalidSession);
    registry.register(3, "session").unwrap();
    assert_eq!(registry.register(3, "again").unwrap_err().status, Status::InternalError);
    assert_eq!(registry.take_ready(3).unwrap(), "session");
    assert_eq!(registry.take_ready(3).unwrap_err().status, Status::HostError);
    assert_eq!(registry.remove_ready(3).unwrap_err().status, Status::HostError);
    registry.restore(3, "session").unwrap();
    assert_eq!(registry.restore(3, "session").unwrap_err().status, Status::InternalError);
    assert_eq!(registry.remove_ready(3).unwrap(), "session");
    assert!(!registry.contains(3));
    assert_eq!(registry.restore(3, "session").unwrap_err().status, Status::InvalidSession);
}

#[test]
fn callback_contexts_and_spans_are_checked() {
    assert_eq!(callback_session(0).unwrap_err().status, Status::InvalidSession);
    assert_eq!(callback_session(9).unwrap(), 9);
    assert_eq!(check_native_span(true, 0).unwrap(), false);
    assert_eq!(check_native_span(true, 3).unwrap_err().status, Status::InvalidArgument);
    assert_eq!(check_native_span(false, 3).unwrap(), true);
}

#[test]
fn replacement_runs_every_stage_in_order() {
    let (mut flow, action) = ReplaceFlow::start(5, false);
    assert!(action == ReplaceAction::RunPreflight);
    let mut seen = Vec::new();
    let mut action = flow.advance(StepOutcome::Succeeded);
    while action != (ReplaceAction::Finish { install_candidate: false, poison: false }) {
        seen.push(action);
        action = flow.advance(StepOutcome::Succeeded);
    }
    assert!(
        seen == vec![
            ReplaceAction::DestroyOld,
            ReplaceAction::ApplyTeardown,
            ReplaceAction::ResetEpoch,
            ReplaceAction::MountCandidate,
            ReplaceAction::InstallAndApplyInitial,
        ]
    );
    assert!(flow.into_result().is_ok());
}

#[test]
fn replacement_of_a_poisoned_session_is_refused() {
    let (flow, action) = ReplaceFlow::start(5, true);
    assert!(action == (ReplaceAction::Finish { install_candidate: false, poison: false }));
    assert_eq!(flow.into_result().unwrap_err().status, Status::HostError);
}

#[test]
fn failed_preflight_keeps_the_old_backend() {
    let (mut flow, _) = ReplaceFlow::start(5, false);
    let action = flow.advance(fatal(Status::InvalidArgument));
    assert!(action == (ReplaceAction::Finish { install_candidate: false, poison: false }));
    assert_eq!(flow.into_result().unwrap_err().status, Status::InvalidArgument);
}

#[test]
fn failure_after_teardown_installs_the_candidate_and_poisons() {
    let (mut flow, _) = ReplaceFlow::start(5, false);
    flow.advance(StepOutcome::Succeeded);
    flow.advance(StepOutcome::Succeeded);
    let action = flow.advance(fatal(Status::HostError));
    assert!(action == (ReplaceAction::Finish { install_candidate: true, poison: true }));
    let (mut flow, _) = ReplaceFlow::start(5, false);
    flow.advance(StepOutcome::Succeeded);
    let action = flow.advance(StepOutcome::Missing);
    assert!(action == (ReplaceAction::Finish { install_candidate: false, poison: false }));
    assert_eq!(flow.into_result().unwrap_err().status, Status::InternalError);
}

#[test]
fn destroying_a_poisoned_session_skips_the_teardown_but_releases() {
    let (mut flow, action) = DestroyFlow::start(2, true);
    assert!(action == DestroyAction::DestroyBackend { poisoned: true });
    assert!(flow.advance(StepOutcome::Succeeded) == DestroyAction::ReleaseHost);
    assert!(flow.advance(StepOutcome::Succeeded) == DestroyAction::Finish);
    let result = flow.into_result();
    assert_eq!(result.as_ref().unwrap_err().status, Status::HostError);
    let native = destroy_result(result, true);
    assert_eq!(native.status, NATIVE_STATUS_HOST_ERROR);
    assert_eq!(native.consumed, 1);
}

#[test]
fn destruction_reports_the_first_error() {
    let (mut flow, _) = DestroyFlow::start(2, false);
    assert!(flow.advance(StepOutcome::Succeeded) == DestroyAction::ApplyTeardown);
    assert!(flow.advance(fatal(Status::InvalidOwnership)) == DestroyAction::ReleaseHost);
    flow.advance(fatal(Status::HostError));
    assert_eq!(flow.into_result().unwrap_err().status, Status::InvalidOwnership);
    let (mut flow, _) = DestroyFlow::start(2, false);
    flow.advance(StepOutcome::Succeeded);
    flow.advance(StepOutcome::Succeeded);
    flow.advance(StepOutcome::Succeeded);
    assert!(flow.into_result().is_ok());
}

#[test]
fn abandon_runs_every_step_and_keeps_the_first_error() {
    let mut flow = AbandonFlow::start(3);
    assert!(flow.phase() == AbandonPhase::Abandon);
    assert!(flow.advance(StepOutcome::Panicked("abandon".to_string())) == AbandonPhase::DiscardPending);
    assert!(flow.advance(fatal(Status::HostError)) == AbandonPhase::DropBackend);
    assert!(flow.advance(StepOutcome::Succeeded) == AbandonPhase::ReleaseHost);
    assert!(flow.advance(fatal(Status::InternalError)) == AbandonPhase::Finished);
    let error = flow.into_result().unwrap_err();
    assert_eq!(error.status, Status::Panic);
    assert_eq!(error.message, "abandon");
    let mut flow = AbandonFlow::start(3);
    assert!(flow.advance(StepOutcome::Missing) == AbandonPhase::ReleaseHost);
    flow.advance(StepOutcome::Succeeded);
    assert_eq!(flow.into_result().unwrap_err().status, Status::InternalError);
}

#[test]
fn dispatch_poisons_only_when_the_error_says_so() {
    let flow = DispatchFlow::start(1, true);
    assert!(flow.phase() == DispatchPhase::Finished);
    assert_eq!(flow.into_result().unwrap_err().status, Status::HostError);

    let mut flow = DispatchFlow::start(1, false);
    let refused = event_refused(BridgeError::new(Status::InvalidListener, "stale"));
    assert!(flow.advance(StepOutcome::Failed(refused)) == DispatchPhase::Finished);
    assert!(!flow.poisons());

    let mut flow = DispatchFlow::start(1, false);
    flow.advance(StepOutcome::Succeeded);
    flow.advance(StepOutcome::Failed(BackendError::recoverable(Status::InvalidListener, "x".to_string())));
    assert!(!flow.poisons());

    let mut flow = DispatchFlow::start(1, false);
    flow.advance(StepOutcome::Succeeded);
    flow.advance(fatal(Status::InternalError));
    assert!(flow.poisons());

    let mut flow = DispatchFlow::start(1, false);
    flow.advance(StepOutcome::Succeeded);
    assert!(flow.advance(StepOutcome::Succeeded) == DispatchPhase::ApplyBatch);
    flow.advance(fatal(Status::HostError));
    assert!(flow.poisons());
}

#[test]
fn mount_rejects_bad_inputs_and_rolls_back_failures() {
    let mut ids = SessionIdAllocator::new();
    let mut owners = SessionOwners::new();
    let refused = MountFlow::start(false, 1, &mut ids, &mut owners, 9).err().unwrap();
    assert_eq!(refused.status, Status::InvalidArgument);
    let refused = MountFlow::start(true, 0, &mut ids, &mut owners, 9).err().unwrap();
    assert_eq!(refused.status, Status::InvalidArgument);

    let mut flow = MountFlow::start(true, 1, &mut ids, &mut owners, 9).ok().unwrap();
    assert_eq!(flow.target(), (1, 1));
    assert!(owners.validate(1, 9).is_ok());
    assert!(flow.advance(StepOutcome::Succeeded) == MountPhase::AcquireHost);
    assert!(flow.advance(StepOutcome::Succeeded) == MountPhase::ApplyInitial);
    assert!(flow.advance(fatal(Status::HostError)) == MountPhase::Finished);
    assert!(flow.abandons_backend());
    assert!(flow.releases_owner());
    let native = mount_result(flow.into_result());
    assert_eq!(native.status, NATIVE_STATUS_HOST_ERROR);
    assert_eq!(native.session, 0);

    let mut flow = MountFlow::start(true, 1, &mut ids, &mut owners, 9).ok().unwrap();
    assert_eq!(flow.target(), (2, 1));
    flow.advance(StepOutcome::Succeeded);
    flow.advance(StepOutcome::Succeeded);
    flow.advance(StepOutcome::Succeeded);
    flow.advance(StepOutcome::Succeeded);
    assert!(!flow.releases_owner());
    let native = mount_result(flow.into_result());
    assert_eq!(native.status, NATIVE_STATUS_OK);
    assert_eq!(native.session, 2);

    let mut flow = MountFlow::start(true, 1, &mut ids, &mut owners, 9).ok().unwrap();
    flow.advance(StepOutcome::Panicked("mount".to_string()));
    assert!(!flow.abandons_backend());
    assert_eq!(mount_result(flow.into_result()).status, NATIVE_STATUS_PANIC);
}

#[test]
fn stylesheet_outputs_must_be_plain_file_names() {
    let escape = vec![PathPart::ParentDir, PathPart::Normal("app.lynxcss".to_string())];
    let error = check_build_paths(&escape, true).unwrap_err();
    assert!(error.contains("file name"));
    let plain = vec![PathPart::Normal("app.lynxcss".to_string())];
    assert!(check_build_paths(&plain, false).unwrap_err().contains("absolute"));
    assert!(check_build_paths(&plain, true).is_ok());
    assert!(check_build_paths(&vec![PathPart::CurDir], true).is_err());
    assert!(!fragment_is_fresh(true, 0));
    assert!(!fragment_is_fresh(false, 4));
    assert!(fragment_is_fresh(true, 4));
}

#[test]
fn registry_refusals_name_the_session() {
    let owners = SessionOwners::new();
    assert_eq!(owners.validate(4, 7).unwrap_err().message, "invalid or stale session ID 4");
    let mut owners = SessionOwners::new();
    owners.reserve(4, 7);
    assert_eq!(owners.validate(4, 8).unwrap_err().message, "session 4 was called from a non-owner thread");
    let mut registry: SessionRegistry<u8> = SessionRegistry::new();
    registry.register(3, 1).unwrap();
    assert_eq!(registry.register(3, 2).unwrap_err().message, "duplicate session ID 3");
    let lent = registry.take_ready(3).unwrap();
    assert_eq!(registry.take_ready(3).unwrap_err().message, "session 3 is already executing a callback");
    registry.restore(3, lent).unwrap();
    assert_eq!(registry.restore(3, 9).unwrap_err().message, "session 3 lost its busy state");
    assert_eq!(callback_session(0).unwrap_err().message, "native callback context does not identify a session");
    assert_eq!(check_native_span(true, 4).unwrap_err().message, "native callback span is invalid");
}

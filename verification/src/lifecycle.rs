use vstd::prelude::*;

use crate::ids::{BridgeError, Status};
use crate::native::{
    native_of_status, status_to_native, LynxElementBridgeNativeDestroyResult,
    LynxElementBridgeNativeMountResult, NATIVE_STATUS_OK,
};
use crate::registry::{SessionIdAllocator, SessionOwners, NATIVE_BRIDGE_ROOT_ID};
use crate::text::{decimal_spec, message_with};
use crate::wamr::BackendError;

verus! {

/// What became of one piece of outside work that a lifecycle flow asked for.
pub enum StepOutcome {
    Succeeded,
    Failed(BackendError),
    /// The work panicked; the panic's message.
    Panicked(String),
    /// The session had no backend to work on.
    Missing,
}

/// `e` is the error that a step's outcome `o` amounts to.
pub open spec fn failure_of(o: StepOutcome, e: BackendError) -> bool {
    match o {
        StepOutcome::Succeeded => false,
        StepOutcome::Failed(f) => e == f,
        StepOutcome::Panicked(m) => e.status == Status::Panic && e.message == m && !e.poison_session,
        StepOutcome::Missing => e.status == Status::InternalError && e.poison_session,
    }
}

/// The error of a panic inside a session callback.
pub fn panicked(message: String) -> (r: BackendError)
    ensures
        r.status == Status::Panic,
        r.message == message,
        !r.poison_session,
{
    BackendError::recoverable(Status::Panic, message)
}

/// The error of a session that has lost its backend.
pub fn no_backend(session: u32) -> (r: BackendError)
    ensures
        r.status == Status::InternalError,
        r.message@ == "session "@ + decimal_spec(session as nat) + " has no backend"@,
        r.poison_session,
{
    BackendError::fatal(Status::InternalError, message_with("session ", session as u64, " has no backend"))
}

/// The message of a session that was poisoned earlier.
pub open spec fn poisoned_message(session: u32) -> Seq<char> {
    "session "@ + decimal_spec(session as nat) + " is permanently poisoned"@
}

/// The error of a session that was poisoned earlier.
pub fn poisoned_session(session: u32) -> (r: BackendError)
    ensures
        r.status == Status::HostError,
        r.message@ == poisoned_message(session),
        !r.poison_session,
{
    BackendError::recoverable(
        Status::HostError,
        message_with("session ", session as u64, " is permanently poisoned"),
    )
}

/// The error an unsuccessful outcome amounts to.
pub fn outcome_error(session: u32, outcome: StepOutcome) -> (r: BackendError)
    requires
        !(outcome is Succeeded),
    ensures
        failure_of(outcome, r),
{
    match outcome {
        StepOutcome::Failed(e) => e,
        StepOutcome::Panicked(m) => panicked(m),
        _ => no_backend(session),
    }
}

// ---------------------------------------------------------------------------
// Replacing the backend of a mounted session
// ---------------------------------------------------------------------------

/// The stages of a backend replacement, in order.
#[derive(Clone, Copy, PartialEq, Eq, Structural)]
pub enum ReplacePhase {
    Preflight,
    DestroyOld,
    ApplyTeardown,
    ResetEpoch,
    MountCandidate,
    ApplyInitial,
    Finished,
}

/// The outside work a replacement asks for next.
#[derive(Clone, Copy, PartialEq, Eq, Structural)]
pub enum ReplaceAction {
    /// Build and validate the candidate backend.
    RunPreflight,
    /// Destroy the active backend (not poisoned) and keep its teardown batch.
    DestroyOld,
    /// Apply the old backend's teardown batch to the native host.
    ApplyTeardown,
    /// Start a fresh command-sequence epoch on the native host.
    ResetEpoch,
    /// Mount the candidate under the session and bridge root.
    MountCandidate,
    /// Make the candidate the session's backend, then apply its initial batch.
    InstallAndApplyInitial,
    /// Done: install the candidate first if asked, then poison if asked.
    Finish { install_candidate: bool, poison: bool },
}

/// Where a replacement stands.
pub struct ReplaceView {
    pub session: u32,
    pub phase: ReplacePhase,
    pub result: Result<(), BackendError>,
    pub install_candidate: bool,
    pub poison: bool,
}

/// Replaces the backend of a mounted session while keeping its native
/// renderer.  The candidate is built and validated before the active backend
/// is destroyed; once the old teardown batch is applied, the native host
/// starts a fresh epoch and the candidate is mounted.
pub struct ReplaceFlow {
    session: u32,
    phase: ReplacePhase,
    result: Result<(), BackendError>,
    install_candidate: bool,
    poison: bool,
}

impl View for ReplaceFlow {
    type V = ReplaceView;

    closed spec fn view(&self) -> ReplaceView {
        ReplaceView {
            session: self.session,
            phase: self.phase,
            result: self.result,
            install_candidate: self.install_candidate,
            poison: self.poison,
        }
    }
}

/// The action a replacement in state `s` asks for.
pub open spec fn replace_action(s: ReplaceView) -> ReplaceAction {
    match s.phase {
        ReplacePhase::Preflight => ReplaceAction::RunPreflight,
        ReplacePhase::DestroyOld => ReplaceAction::DestroyOld,
        ReplacePhase::ApplyTeardown => ReplaceAction::ApplyTeardown,
        ReplacePhase::ResetEpoch => ReplaceAction::ResetEpoch,
        ReplacePhase::MountCandidate => ReplaceAction::MountCandidate,
        ReplacePhase::ApplyInitial => ReplaceAction::InstallAndApplyInitial,
        ReplacePhase::Finished => ReplaceAction::Finish {
            install_candidate: s.install_candidate,
            poison: s.poison,
        },
    }
}

/// `t` is a replacement of `session` that ended on outcome `o`, installing
/// the candidate and poisoning the session as given.
pub open spec fn replace_failed(t: ReplaceView, o: StepOutcome, install: bool, poison: bool) -> bool {
    &&& t.phase == ReplacePhase::Finished
    &&& t.install_candidate == install
    &&& t.poison == poison
    &&& t.result matches Err(e) && failure_of(o, e)
}

/// `t` is `s` moved on to phase `p`, with nothing decided yet.
pub open spec fn replace_moved(s: ReplaceView, t: ReplaceView, p: ReplacePhase) -> bool {
    &&& t.phase == p
    &&& t.result is Ok
    &&& !t.install_candidate
    &&& !t.poison
}

/// How one outcome moves a replacement from `s` to `t`.  Before the old
/// backend is destroyed a failure leaves the session as it was (a panic
/// poisons it); a failure of the old backend's destruction, of the teardown
/// or epoch reset, or of the candidate's mount installs the candidate and
/// poisons the session (a panic while the native host is being driven
/// poisons without installing); a failure of the initial batch poisons the
/// session with the candidate already installed.
pub open spec fn replace_transition(s: ReplaceView, o: StepOutcome, t: ReplaceView) -> bool {
    &&& t.session == s.session
    &&& match s.phase {
        ReplacePhase::Preflight => if o is Succeeded {
            replace_moved(s, t, ReplacePhase::DestroyOld)
        } else {
            replace_failed(t, o, false, o is Panicked)
        },
        ReplacePhase::DestroyOld => if o is Succeeded {
            replace_moved(s, t, ReplacePhase::ApplyTeardown)
        } else if o is Missing {
            replace_failed(t, o, false, false)
        } else {
            replace_failed(t, o, true, true)
        },
        ReplacePhase::ApplyTeardown => if o is Succeeded {
            replace_moved(s, t, ReplacePhase::ResetEpoch)
        } else {
            replace_failed(t, o, !(o is Panicked), true)
        },
        ReplacePhase::ResetEpoch => if o is Succeeded {
            replace_moved(s, t, ReplacePhase::MountCandidate)
        } else {
            replace_failed(t, o, !(o is Panicked), true)
        },
        ReplacePhase::MountCandidate => if o is Succeeded {
            replace_moved(s, t, ReplacePhase::ApplyInitial)
        } else {
            replace_failed(t, o, true, true)
        },
        ReplacePhase::ApplyInitial => if o is Succeeded {
            t.phase == ReplacePhase::Finished && t.result is Ok && !t.install_candidate && !t.poison
        } else {
            replace_failed(t, o, false, true)
        },
        ReplacePhase::Finished => t == s,
    }
}

impl ReplaceFlow {
    /// Starts replacing the backend of `session`; a poisoned session refuses
    /// with a recoverable `HostError` and is left as it is.
    pub fn start(session: u32, poisoned: bool) -> (r: (ReplaceFlow, ReplaceAction))
        ensures
            r.0@.session == session,
            r.1 == replace_action(r.0@),
            poisoned ==> r.0@.phase == ReplacePhase::Finished && !r.0@.install_candidate
                && !r.0@.poison && (r.0@.result matches Err(e) && e.status == Status::HostError
                && e.message@ == poisoned_message(session) && !e.poison_session),
            !poisoned ==> r.0@.phase == ReplacePhase::Preflight && r.0@.result is Ok
                && !r.0@.install_candidate && !r.0@.poison,
    {
        let flow = if poisoned {
            ReplaceFlow {
                session,
                phase: ReplacePhase::Finished,
                result: Err(poisoned_session(session)),
                install_candidate: false,
                poison: false,
            }
        } else {
            ReplaceFlow {
                session,
                phase: ReplacePhase::Preflight,
                result: Ok(()),
                install_candidate: false,
                poison: false,
            }
        };
        let action = flow.action();
        (flow, action)
    }

    /// The action the replacement asks for now.
    pub fn action(&self) -> (r: ReplaceAction)
        ensures
            r == replace_action(self@),
    {
        match self.phase {
            ReplacePhase::Preflight => ReplaceAction::RunPreflight,
            ReplacePhase::DestroyOld => ReplaceAction::DestroyOld,
            ReplacePhase::ApplyTeardown => ReplaceAction::ApplyTeardown,
            ReplacePhase::ResetEpoch => ReplaceAction::ResetEpoch,
            ReplacePhase::MountCandidate => ReplaceAction::MountCandidate,
            ReplacePhase::ApplyInitial => ReplaceAction::InstallAndApplyInitial,
            ReplacePhase::Finished => ReplaceAction::Finish {
                install_candidate: self.install_candidate,
                poison: self.poison,
            },
        }
    }

    fn fail(&mut self, outcome: StepOutcome, install: bool, poison: bool)
        requires
            !(outcome is Succeeded),
        ensures
            final(self)@.session == old(self)@.session,
            replace_failed(final(self)@, outcome, install, poison),
    {
        self.result = Err(outcome_error(self.session, outcome));
        self.phase = ReplacePhase::Finished;
        self.install_candidate = install;
        self.poison = poison;
    }

    fn move_to(&mut self, phase: ReplacePhase)
        ensures
            final(self)@.session == old(self)@.session,
            replace_moved(old(self)@, final(self)@, phase),
    {
        self.phase = phase;
        self.result = Ok(());
        self.install_candidate = false;
        self.poison = false;
    }

    /// Takes the outcome of the last action and gives the next one.
    pub fn advance(&mut self, outcome: StepOutcome) -> (r: ReplaceAction)
        ensures
            replace_transition(old(self)@, outcome, final(self)@),
            r == replace_action(final(self)@),
    {
        let succeeded = matches!(outcome, StepOutcome::Succeeded);
        let panic = matches!(outcome, StepOutcome::Panicked(_));
        let missing = matches!(outcome, StepOutcome::Missing);
        match self.phase {
            ReplacePhase::Preflight => {
                if succeeded {
                    self.move_to(ReplacePhase::DestroyOld);
                } else {
                    self.fail(outcome, false, panic);
                }
            },
            ReplacePhase::DestroyOld => {
                if succeeded {
                    self.move_to(ReplacePhase::ApplyTeardown);
                } else if missing {
                    self.fail(outcome, false, false);
                } else {
                    self.fail(outcome, true, true);
                }
            },
            ReplacePhase::ApplyTeardown => {
                if succeeded {
                    self.move_to(ReplacePhase::ResetEpoch);
                } else {
                    self.fail(outcome, !panic, true);
                }
            },
            ReplacePhase::ResetEpoch => {
                if succeeded {
                    self.move_to(ReplacePhase::MountCandidate);
                } else {
                    self.fail(outcome, !panic, true);
                }
            },
            ReplacePhase::MountCandidate => {
                if succeeded {
                    self.move_to(ReplacePhase::ApplyInitial);
                } else {
                    self.fail(outcome, true, true);
                }
            },
            ReplacePhase::ApplyInitial => {
                if succeeded {
                    self.phase = ReplacePhase::Finished;
                    self.result = Ok(());
                    self.install_candidate = false;
                    self.poison = false;
                } else {
                    self.fail(outcome, false, true);
                }
            },
            ReplacePhase::Finished => {},
        }
        self.action()
    }

    /// The result of a finished replacement.
    pub fn into_result(self) -> (r: Result<(), BackendError>)
        ensures
            r == self@.result,
    {
        self.result
    }
}

/// The old backend is destroyed only once the candidate has been built and
/// validated: no step but a successful preflight leads to `DestroyOld`.
pub proof fn lemma_replace_destroys_after_preflight(s: ReplaceView, o: StepOutcome, t: ReplaceView)
    requires
        replace_transition(s, o, t),
        replace_action(t) == ReplaceAction::DestroyOld,
        s.phase != ReplacePhase::DestroyOld,
    ensures
        s.phase == ReplacePhase::Preflight,
        o is Succeeded,
{
}

/// A failed preflight leaves the session as it was: the old backend stays,
/// nothing is installed, and only a panic poisons.
pub proof fn lemma_replace_preflight_failure_keeps_session(s: ReplaceView, o: StepOutcome, t: ReplaceView)
    requires
        replace_transition(s, o, t),
        s.phase == ReplacePhase::Preflight,
        o is Failed,
    ensures
        replace_action(t) == (ReplaceAction::Finish { install_candidate: false, poison: false }),
        t.result is Err,
{
}

/// Once the old backend has been destroyed, every failure poisons the
/// session.
pub proof fn lemma_replace_failure_after_destroy_poisons(s: ReplaceView, o: StepOutcome, t: ReplaceView)
    requires
        replace_transition(s, o, t),
        s.phase == ReplacePhase::ApplyTeardown || s.phase == ReplacePhase::ResetEpoch || s.phase
            == ReplacePhase::MountCandidate || s.phase == ReplacePhase::ApplyInitial,
        !(o is Succeeded),
    ensures
        t.phase == ReplacePhase::Finished,
        t.poison,
        t.result is Err,
{
}

// ---------------------------------------------------------------------------
// Destroying a session
// ---------------------------------------------------------------------------

/// The stages of a session's destruction, in order.
#[derive(Clone, Copy, PartialEq, Eq, Structural)]
pub enum DestroyPhase {
    DestroyBackend,
    ApplyTeardown,
    ReleaseHost,
    Finished,
}

/// The outside work a destruction asks for next.
#[derive(Clone, Copy, PartialEq, Eq, Structural)]
pub enum DestroyAction {
    /// Take the backend out and destroy it, telling it whether the session
    /// was poisoned.
    DestroyBackend { poisoned: bool },
    /// Apply the backend's teardown batch to the native host.
    ApplyTeardown,
    /// Release the native host.
    ReleaseHost,
    Finish,
}

/// Where a destruction stands.
pub struct DestroyView {
    pub session: u32,
    pub was_poisoned: bool,
    pub phase: DestroyPhase,
    pub work: Result<(), BackendError>,
    pub result: Result<(), BackendError>,
}

/// Destroys a session that was removed from the registry: its backend
/// yields a teardown batch, which is applied unless the session was
/// poisoned, and the native host is released in every case.  The first
/// error wins.
pub struct DestroyFlow {
    session: u32,
    was_poisoned: bool,
    phase: DestroyPhase,
    work: Result<(), BackendError>,
    result: Result<(), BackendError>,
}

impl View for DestroyFlow {
    type V = DestroyView;

    closed spec fn view(&self) -> DestroyView {
        DestroyView {
            session: self.session,
            was_poisoned: self.was_poisoned,
            phase: self.phase,
            work: self.work,
            result: self.result,
        }
    }
}

pub open spec fn destroy_action(s: DestroyView) -> DestroyAction {
    match s.phase {
        DestroyPhase::DestroyBackend => DestroyAction::DestroyBackend { poisoned: s.was_poisoned },
        DestroyPhase::ApplyTeardown => DestroyAction::ApplyTeardown,
        DestroyPhase::ReleaseHost => DestroyAction::ReleaseHost,
        DestroyPhase::Finished => DestroyAction::Finish,
    }
}

/// `t` is `s` waiting for the host's release after work that ended in `work`.
pub open spec fn destroy_releasing(s: DestroyView, t: DestroyView) -> bool {
    &&& t.phase == DestroyPhase::ReleaseHost
    &&& t.result is Ok
}

/// How one outcome moves a destruction from `s` to `t`.  A poisoned
/// session's teardown batch is never applied: its destruction reports a
/// recoverable `HostError` unless the backend panicked or was missing.
pub open spec fn destroy_transition(s: DestroyView, o: StepOutcome, t: DestroyView) -> bool {
    &&& t.session == s.session
    &&& t.was_poisoned == s.was_poisoned
    &&& match s.phase {
        DestroyPhase::DestroyBackend => if o is Missing || o is Panicked {
            destroy_releasing(s, t) && (t.work matches Err(e) && failure_of(o, e))
        } else if s.was_poisoned {
            destroy_releasing(s, t) && (t.work matches Err(e) && e.status == Status::HostError
                && e.message@ == "session "@ + decimal_spec(s.session as nat)
                + " was destroyed after becoming permanently poisoned"@ && !e.poison_session)
        } else if o is Succeeded {
            t.phase == DestroyPhase::ApplyTeardown && t.work is Ok && t.result is Ok
        } else {
            destroy_releasing(s, t) && (t.work matches Err(e) && failure_of(o, e))
        },
        DestroyPhase::ApplyTeardown => destroy_releasing(s, t) && if o is Succeeded {
            t.work is Ok
        } else {
            t.work matches Err(e) && failure_of(o, e)
        },
        DestroyPhase::ReleaseHost => t.phase == DestroyPhase::Finished && if o is Panicked {
            t.result matches Err(e) && failure_of(o, e)
        } else if s.work is Err {
            t.result == s.work
        } else if o is Succeeded {
            t.result is Ok
        } else {
            t.result matches Err(e) && failure_of(o, e)
        },
        DestroyPhase::Finished => t == s,
    }
}

impl DestroyFlow {
    pub fn start(session: u32, was_poisoned: bool) -> (r: (DestroyFlow, DestroyAction))
        ensures
            r.0@.session == session,
            r.0@.was_poisoned == was_poisoned,
            r.0@.phase == DestroyPhase::DestroyBackend,
            r.0@.work is Ok,
            r.0@.result is Ok,
            r.1 == destroy_action(r.0@),
    {
        let flow = DestroyFlow {
            session,
            was_poisoned,
            phase: DestroyPhase::DestroyBackend,
            work: Ok(()),
            result: Ok(()),
        };
        (flow, DestroyAction::DestroyBackend { poisoned: was_poisoned })
    }

    pub fn action(&self) -> (r: DestroyAction)
        ensures
            r == destroy_action(self@),
    {
        match self.phase {
            DestroyPhase::DestroyBackend => DestroyAction::DestroyBackend { poisoned: self.was_poisoned },
            DestroyPhase::ApplyTeardown => DestroyAction::ApplyTeardown,
            DestroyPhase::ReleaseHost => DestroyAction::ReleaseHost,
            DestroyPhase::Finished => DestroyAction::Finish,
        }
    }

    /// Takes the outcome of the last action and gives the next one.
    pub fn advance(&mut self, outcome: StepOutcome) -> (r: DestroyAction)
        ensures
            destroy_transition(old(self)@, outcome, final(self)@),
            r == destroy_action(final(self)@),
    {
        let succeeded = matches!(outcome, StepOutcome::Succeeded);
        let abrupt = matches!(outcome, StepOutcome::Panicked(_)) || matches!(
            outcome,
            StepOutcome::Missing
        );
        match self.phase {
            DestroyPhase::DestroyBackend => {
                self.result = Ok(());
                if abrupt {
                    self.work = Err(outcome_error(self.session, outcome));
                    self.phase = DestroyPhase::ReleaseHost;
                } else if self.was_poisoned {
                    self.work = Err(
                        BackendError::recoverable(
                            Status::HostError,
                            message_with(
                                "session ",
                                self.session as u64,
                                " was destroyed after becoming permanently poisoned",
                            ),
                        ),
                    );
                    self.phase = DestroyPhase::ReleaseHost;
                } else if succeeded {
                    self.work = Ok(());
                    self.phase = DestroyPhase::ApplyTeardown;
                } else {
                    self.work = Err(outcome_error(self.session, outcome));
                    self.phase = DestroyPhase::ReleaseHost;
                }
            },
            DestroyPhase::ApplyTeardown => {
                self.result = Ok(());
                if succeeded {
                    self.work = Ok(());
                } else {
                    self.work = Err(outcome_error(self.session, outcome));
                }
                self.phase = DestroyPhase::ReleaseHost;
            },
            DestroyPhase::ReleaseHost => {
                let panic = matches!(outcome, StepOutcome::Panicked(_));
                if panic {
                    self.result = Err(outcome_error(self.session, outcome));
                } else if self.work.is_err() {
                    let mut work: Result<(), BackendError> = Ok(());
                    std::mem::swap(&mut work, &mut self.work);
                    self.result = work;
                } else if !succeeded {
                    self.result = Err(outcome_error(self.session, outcome));
                } else {
                    self.result = Ok(());
                }
                self.phase = DestroyPhase::Finished;
            },
            DestroyPhase::Finished => {},
        }
        self.action()
    }

    pub fn into_result(self) -> (r: Result<(), BackendError>)
        ensures
            r == self@.result,
    {
        self.result
    }
}

/// A destruction that gets past the backend always releases the native
/// host: every outcome of the first two stages leads on to the release.
pub proof fn lemma_destroy_always_releases(s: DestroyView, o: StepOutcome, t: DestroyView)
    requires
        destroy_transition(s, o, t),
        s.phase == DestroyPhase::ApplyTeardown || (s.phase == DestroyPhase::DestroyBackend && !(
        o is Succeeded && !s.was_poisoned)),
    ensures
        destroy_action(t) == DestroyAction::ReleaseHost,
{
}

// ---------------------------------------------------------------------------
// Abandoning a session
// ---------------------------------------------------------------------------

/// The stages of an emergency cleanup, in order.
#[derive(Clone, Copy, PartialEq, Eq, Structural)]
pub enum AbandonPhase {
    Abandon,
    DiscardPending,
    DropBackend,
    ReleaseHost,
    Finished,
}

/// Where an emergency cleanup stands.
pub struct AbandonView {
    pub session: u32,
    pub phase: AbandonPhase,
    pub first_error: Option<BackendError>,
    pub result: Result<(), BackendError>,
}

/// Consumes a session without producing a teardown batch: the backend is
/// abandoned, its pending commands discarded and the backend dropped, then
/// the native host is released.  Each step runs even if an earlier one
/// failed; the first error wins.
pub struct AbandonFlow {
    session: u32,
    phase: AbandonPhase,
    first_error: Option<BackendError>,
    result: Result<(), BackendError>,
}

impl View for AbandonFlow {
    type V = AbandonView;

    closed spec fn view(&self) -> AbandonView {
        AbandonView {
            session: self.session,
            phase: self.phase,
            first_error: self.first_error,
            result: self.result,
        }
    }
}

/// The first error so far after outcome `o`.
pub open spec fn kept_first(before: Option<BackendError>, o: StepOutcome, after: Option<BackendError>) -> bool {
    if before is Some || o is Succeeded {
        after == before
    } else {
        after matches Some(e) && failure_of(o, e)
    }
}

pub open spec fn abandon_transition(s: AbandonView, o: StepOutcome, t: AbandonView) -> bool {
    &&& t.session == s.session
    &&& match s.phase {
        AbandonPhase::Abandon => kept_first(s.first_error, o, t.first_error) && t.result is Ok && if o is Missing {
            t.phase == AbandonPhase::ReleaseHost
        } else {
            t.phase == AbandonPhase::DiscardPending
        },
        AbandonPhase::DiscardPending => kept_first(s.first_error, o, t.first_error) && t.result is Ok
            && t.phase == AbandonPhase::DropBackend,
        AbandonPhase::DropBackend => kept_first(s.first_error, o, t.first_error) && t.result is Ok
            && t.phase == AbandonPhase::ReleaseHost,
        AbandonPhase::ReleaseHost => t.phase == AbandonPhase::Finished && match s.first_error {
            Some(e) => t.result == Err::<(), BackendError>(e),
            None => if o is Succeeded {
                t.result is Ok
            } else {
                t.result matches Err(e) && failure_of(o, e)
            },
        },
        AbandonPhase::Finished => t == s,
    }
}

impl AbandonFlow {
    pub fn start(session: u32) -> (r: AbandonFlow)
        ensures
            r@.session == session,
            r@.phase == AbandonPhase::Abandon,
            r@.first_error is None,
            r@.result is Ok,
    {
        AbandonFlow { session, phase: AbandonPhase::Abandon, first_error: None, result: Ok(()) }
    }

    /// The stage the cleanup is at; its outside work comes next.
    pub fn phase(&self) -> (r: AbandonPhase)
        ensures
            r == self@.phase,
    {
        self.phase
    }

    fn keep(&mut self, outcome: StepOutcome)
        ensures
            kept_first(old(self)@.first_error, outcome, final(self)@.first_error),
            final(self)@.session == old(self)@.session,
            final(self)@.phase == old(self)@.phase,
            final(self)@.result == old(self)@.result,
    {
        if self.first_error.is_none() && !matches!(outcome, StepOutcome::Succeeded) {
            self.first_error = Some(outcome_error(self.session, outcome));
        }
    }

    /// Takes the outcome of the current stage and moves on.
    pub fn advance(&mut self, outcome: StepOutcome) -> (r: AbandonPhase)
        ensures
            abandon_transition(old(self)@, outcome, final(self)@),
            r == final(self)@.phase,
    {
        match self.phase {
            AbandonPhase::Abandon => {
                let missing = matches!(outcome, StepOutcome::Missing);
                self.result = Ok(());
                self.keep(outcome);
                self.phase = if missing {
                    AbandonPhase::ReleaseHost
                } else {
                    AbandonPhase::DiscardPending
                };
            },
            AbandonPhase::DiscardPending => {
                self.result = Ok(());
                self.keep(outcome);
                self.phase = AbandonPhase::DropBackend;
            },
            AbandonPhase::DropBackend => {
                self.result = Ok(());
                self.keep(outcome);
                self.phase = AbandonPhase::ReleaseHost;
            },
            AbandonPhase::ReleaseHost => {
                let first = self.first_error.take();
                match first {
                    Some(e) => {
                        self.result = Err(e);
                    },
                    None => {
                        if !matches!(outcome, StepOutcome::Succeeded) {
                            self.result = Err(outcome_error(self.session, outcome));
                        } else {
                            self.result = Ok(());
                        }
                    },
                }
                self.phase = AbandonPhase::Finished;
            },
            AbandonPhase::Finished => {},
        }
        self.phase
    }

    pub fn into_result(self) -> (r: Result<(), BackendError>)
        ensures
            r == self@.result,
    {
        self.result
    }
}

// ---------------------------------------------------------------------------
// Dispatching a native event
// ---------------------------------------------------------------------------

/// The stages of a native event's dispatch, in order.
#[derive(Clone, Copy, PartialEq, Eq, Structural)]
pub enum DispatchPhase {
    BuildEvent,
    Dispatch,
    ApplyBatch,
    Finished,
}

/// Where a dispatch stands.
pub struct DispatchView {
    pub session: u32,
    pub phase: DispatchPhase,
    pub poison: bool,
    pub result: Result<(), BackendError>,
}

/// Delivers a native event to a session's backend and applies the batch it
/// answers with.
pub struct DispatchFlow {
    session: u32,
    phase: DispatchPhase,
    poison: bool,
    result: Result<(), BackendError>,
}

impl View for DispatchFlow {
    type V = DispatchView;

    closed spec fn view(&self) -> DispatchView {
        DispatchView { session: self.session, phase: self.phase, poison: self.poison, result: self.result }
    }
}

/// `t` is a dispatch that ended on outcome `o`, poisoning as given.
pub open spec fn dispatch_failed(t: DispatchView, o: StepOutcome, poison: bool) -> bool {
    &&& t.phase == DispatchPhase::Finished
    &&& t.poison == poison
    &&& t.result matches Err(e) && failure_of(o, e)
}

/// How one outcome moves a dispatch from `s` to `t`.  A refused event
/// leaves the session usable; a backend error poisons it exactly when the
/// error says so; a failed batch and any panic poison it.
pub open spec fn dispatch_transition(s: DispatchView, o: StepOutcome, t: DispatchView) -> bool {
    &&& t.session == s.session
    &&& match s.phase {
        DispatchPhase::BuildEvent => if o is Succeeded {
            t.phase == DispatchPhase::Dispatch && !t.poison && t.result is Ok
        } else {
            dispatch_failed(t, o, o is Panicked)
        },
        DispatchPhase::Dispatch => match o {
            StepOutcome::Succeeded => t.phase == DispatchPhase::ApplyBatch && !t.poison && t.result is Ok,
            StepOutcome::Failed(e) => dispatch_failed(t, o, e.poison_session),
            StepOutcome::Panicked(_) => dispatch_failed(t, o, true),
            StepOutcome::Missing => dispatch_failed(t, o, false),
        },
        DispatchPhase::ApplyBatch => if o is Succeeded {
            t.phase == DispatchPhase::Finished && !t.poison && t.result is Ok
        } else {
            dispatch_failed(t, o, true)
        },
        DispatchPhase::Finished => t == s,
    }
}

/// The error of an event that the native host refused; it leaves the
/// session usable.
pub fn event_refused(error: BridgeError) -> (r: BackendError)
    ensures
        r.status == error.status,
        r.message == error.message,
        !r.poison_session,
{
    BackendError::recoverable(error.status, error.message)
}

impl DispatchFlow {
    /// Starts a dispatch; a poisoned session refuses with a recoverable
    /// `HostError`.
    pub fn start(session: u32, poisoned: bool) -> (r: DispatchFlow)
        ensures
            r@.session == session,
            !r@.poison,
            poisoned ==> r@.phase == DispatchPhase::Finished && (r@.result matches Err(e) && e.status
                == Status::HostError && e.message@ == poisoned_message(session) && !e.poison_session),
            !poisoned ==> r@.phase == DispatchPhase::BuildEvent && r@.result is Ok,
    {
        if poisoned {
            DispatchFlow {
                session,
                phase: DispatchPhase::Finished,
                poison: false,
                result: Err(poisoned_session(session)),
            }
        } else {
            DispatchFlow { session, phase: DispatchPhase::BuildEvent, poison: false, result: Ok(()) }
        }
    }

    pub fn phase(&self) -> (r: DispatchPhase)
        ensures
            r == self@.phase,
    {
        self.phase
    }

    /// Whether the session must be poisoned now that the dispatch is over.
    pub fn poisons(&self) -> (r: bool)
        ensures
            r == self@.poison,
    {
        self.poison
    }

    fn fail(&mut self, outcome: StepOutcome, poison: bool)
        requires
            !(outcome is Succeeded),
        ensures
            final(self)@.session == old(self)@.session,
            dispatch_failed(final(self)@, outcome, poison),
    {
        self.result = Err(outcome_error(self.session, outcome));
        self.phase = DispatchPhase::Finished;
        self.poison = poison;
    }

    /// Takes the outcome of the current stage and moves on.
    pub fn advance(&mut self, outcome: StepOutcome) -> (r: DispatchPhase)
        ensures
            dispatch_transition(old(self)@, outcome, final(self)@),
            r == final(self)@.phase,
    {
        let succeeded = matches!(outcome, StepOutcome::Succeeded);
        let panic = matches!(outcome, StepOutcome::Panicked(_));
        match self.phase {
            DispatchPhase::BuildEvent => {
                if succeeded {
                    self.phase = DispatchPhase::Dispatch;
                    self.poison = false;
                    self.result = Ok(());
                } else {
                    self.fail(outcome, panic);
                }
            },
            DispatchPhase::Dispatch => {
                let poison = match &outcome {
                    StepOutcome::Succeeded => false,
                    StepOutcome::Failed(e) => e.poison_session,
                    StepOutcome::Panicked(_) => true,
                    StepOutcome::Missing => false,
                };
                if succeeded {
                    self.phase = DispatchPhase::ApplyBatch;
                    self.poison = false;
                    self.result = Ok(());
                } else {
                    self.fail(outcome, poison);
                }
            },
            DispatchPhase::ApplyBatch => {
                if succeeded {
                    self.phase = DispatchPhase::Finished;
                    self.poison = false;
                    self.result = Ok(());
                } else {
                    self.fail(outcome, true);
                }
            },
            DispatchPhase::Finished => {},
        }
        self.phase
    }

    pub fn into_result(self) -> (r: Result<(), BackendError>)
        ensures
            r == self@.result,
    {
        self.result
    }
}

/// A dispatch that fails while the batch is being applied always poisons
/// the session: the host may hold half of the batch.
pub proof fn lemma_dispatch_failed_batch_poisons(s: DispatchView, o: StepOutcome, t: DispatchView)
    requires
        dispatch_transition(s, o, t),
        s.phase == DispatchPhase::ApplyBatch,
        !(o is Succeeded),
    ensures
        t.poison,
        t.result is Err,
{
}

// ---------------------------------------------------------------------------
// Mounting a session
// ---------------------------------------------------------------------------

/// The stages of a native mount after its session ID was reserved.
#[derive(Clone, Copy, PartialEq, Eq, Structural)]
pub enum MountPhase {
    CreateBackend,
    AcquireHost,
    ApplyInitial,
    Register,
    Finished,
}

/// Where a mount stands.
pub struct MountView {
    pub session: u32,
    pub phase: MountPhase,
    pub abandon_backend: bool,
    pub release_owner: bool,
    pub result: Result<u32, BackendError>,
}

/// Mounts a backend into a native renderer under a reserved session ID:
/// the backend is created, the native host acquired, the initial batch
/// applied and the session registered.  On failure the reservation is
/// released, and a backend that was created is abandoned if the native
/// side refused it.
pub struct MountFlow {
    session: u32,
    phase: MountPhase,
    abandon_backend: bool,
    release_owner: bool,
    result: Result<u32, BackendError>,
}

impl View for MountFlow {
    type V = MountView;

    closed spec fn view(&self) -> MountView {
        MountView {
            session: self.session,
            phase: self.phase,
            abandon_backend: self.abandon_backend,
            release_owner: self.release_owner,
            result: self.result,
        }
    }
}

/// `t` is a mount that ended on outcome `o`.
pub open spec fn mount_failed(t: MountView, o: StepOutcome, abandon: bool) -> bool {
    &&& t.phase == MountPhase::Finished
    &&& t.release_owner
    &&& t.abandon_backend == abandon
    &&& t.result matches Err(e) && failure_of(o, e)
}

pub open spec fn mount_transition(s: MountView, o: StepOutcome, t: MountView) -> bool {
    &&& t.session == s.session
    &&& match s.phase {
        MountPhase::CreateBackend => if o is Succeeded {
            t.phase == MountPhase::AcquireHost && !t.abandon_backend && !t.release_owner
        } else {
            mount_failed(t, o, false)
        },
        MountPhase::AcquireHost => if o is Succeeded {
            t.phase == MountPhase::ApplyInitial && !t.abandon_backend && !t.release_owner
        } else {
            mount_failed(t, o, !(o is Panicked))
        },
        MountPhase::ApplyInitial => if o is Succeeded {
            t.phase == MountPhase::Register && !t.abandon_backend && !t.release_owner
        } else {
            mount_failed(t, o, !(o is Panicked))
        },
        MountPhase::Register => if o is Succeeded {
            t.phase == MountPhase::Finished && !t.abandon_backend && !t.release_owner && t.result
                == Ok::<u32, BackendError>(s.session)
        } else {
            mount_failed(t, o, false)
        },
        MountPhase::Finished => t == s,
    }
}

/// What checking a mount's arguments yields: the status of the refusal, or
/// `None`.
pub open spec fn mount_refusal(has_resolver: bool, host: u64, next_id: u32) -> Option<Status> {
    if !has_resolver || host == 0 {
        Some(Status::InvalidArgument)
    } else if next_id == 0 {
        Some(Status::ResourceExhausted)
    } else {
        None
    }
}

/// The message that a refused mount start answers with.
pub open spec fn mount_refusal_message(has_resolver: bool, host: u64) -> Seq<char> {
    if !has_resolver {
        "native renderer API resolver must not be null"@
    } else if host == 0 {
        "native host handle must not be zero"@
    } else {
        "session ID space is exhausted"@
    }
}

impl MountFlow {
    /// Checks a mount's arguments, allocates its session ID and reserves it
    /// for `caller`.  A missing API resolver or a zero host handle is a
    /// recoverable `InvalidArgument`; an exhausted ID space is
    /// `ResourceExhausted`; a refusal changes nothing.
    pub fn start(
        has_resolver: bool,
        host: u64,
        ids: &mut SessionIdAllocator,
        owners: &mut SessionOwners,
        caller: u64,
    ) -> (r: Result<MountFlow, BackendError>)
        ensures
            match mount_refusal(has_resolver, host, old(ids).next_id()) {
                Some(status) => final(ids).next_id() == old(ids).next_id() && final(owners)@ == old(
                    owners,
                )@ && (r matches Err(e) && e.status == status && e.message@ == mount_refusal_message(
                    has_resolver,
                    host,
                )),
                None => final(ids).next_id() == crate::registry::after_allocation(old(ids).next_id())
                    && final(owners)@ == old(owners)@.insert(old(ids).next_id(), caller) && (r matches Ok(
                    f,
                ) && f@.session == old(ids).next_id() && f@.phase == MountPhase::CreateBackend
                    && !f@.abandon_backend && !f@.release_owner),
            },
    {
        if !has_resolver {
            return Err(
                BackendError::recoverable(
                    Status::InvalidArgument,
                    crate::text::owned("native renderer API resolver must not be null"),
                ),
            );
        }
        if host == 0 {
            return Err(
                BackendError::recoverable(
                    Status::InvalidArgument,
                    crate::text::owned("native host handle must not be zero"),
                ),
            );
        }
        let session = ids.allocate()?;
        owners.reserve(session, caller);
        Ok(
            MountFlow {
                session,
                phase: MountPhase::CreateBackend,
                abandon_backend: false,
                release_owner: false,
                result: Err(no_backend(session)),
            },
        )
    }

    /// The session being mounted and the bridge root it mounts under.
    pub fn target(&self) -> (r: (u32, u32))
        ensures
            r == (self@.session, NATIVE_BRIDGE_ROOT_ID),
    {
        (self.session, NATIVE_BRIDGE_ROOT_ID)
    }

    pub fn phase(&self) -> (r: MountPhase)
        ensures
            r == self@.phase,
    {
        self.phase
    }

    /// Whether a finished mount's backend must be abandoned.
    pub fn abandons_backend(&self) -> (r: bool)
        ensures
            r == self@.abandon_backend,
    {
        self.abandon_backend
    }

    /// Whether a finished mount's session reservation must be released.
    pub fn releases_owner(&self) -> (r: bool)
        ensures
            r == self@.release_owner,
    {
        self.release_owner
    }

    fn fail(&mut self, outcome: StepOutcome, abandon: bool)
        requires
            !(outcome is Succeeded),
        ensures
            final(self)@.session == old(self)@.session,
            mount_failed(final(self)@, outcome, abandon),
    {
        self.result = Err(outcome_error(self.session, outcome));
        self.phase = MountPhase::Finished;
        self.abandon_backend = abandon;
        self.release_owner = true;
    }

    /// Takes the outcome of the current stage and moves on.
    pub fn advance(&mut self, outcome: StepOutcome) -> (r: MountPhase)
        ensures
            mount_transition(old(self)@, outcome, final(self)@),
            r == final(self)@.phase,
    {
        let succeeded = matches!(outcome, StepOutcome::Succeeded);
        let panic = matches!(outcome, StepOutcome::Panicked(_));
        match self.phase {
            MountPhase::CreateBackend => {
                if succeeded {
                    self.phase = MountPhase::AcquireHost;
                    self.abandon_backend = false;
                    self.release_owner = false;
                } else {
                    self.fail(outcome, false);
                }
            },
            MountPhase::AcquireHost => {
                if succeeded {
                    self.phase = MountPhase::ApplyInitial;
                    self.abandon_backend = false;
                    self.release_owner = false;
                } else {
                    self.fail(outcome, !panic);
                }
            },
            MountPhase::ApplyInitial => {
                if succeeded {
                    self.phase = MountPhase::Register;
                    self.abandon_backend = false;
                    self.release_owner = false;
                } else {
                    self.fail(outcome, !panic);
                }
            },
            MountPhase::Register => {
                if succeeded {
                    self.phase = MountPhase::Finished;
                    self.result = Ok(self.session);
                    self.abandon_backend = false;
                    self.release_owner = false;
                } else {
                    self.fail(outcome, false);
                }
            },
            MountPhase::Finished => {},
        }
        self.phase
    }

    pub fn into_result(self) -> (r: Result<u32, BackendError>)
        ensures
            r == self@.result,
    {
        self.result
    }
}

/// A mount that does not finish registered gives its session ID back: every
/// failure releases the reservation.
pub proof fn lemma_failed_mount_releases_reservation(s: MountView, o: StepOutcome, t: MountView)
    requires
        mount_transition(s, o, t),
        s.phase != MountPhase::Finished,
        !(o is Succeeded),
    ensures
        t.release_owner,
        t.result is Err,
{
}

/// The native result of a mount: the OK status and the session, or the
/// error's status and no session.
pub fn mount_result(result: Result<u32, BackendError>) -> (r: LynxElementBridgeNativeMountResult)
    ensures
        match result {
            Ok(session) => r.status == NATIVE_STATUS_OK && r.session == session,
            Err(e) => r.status == native_of_status(e.status) && r.session == 0,
        },
{
    match result {
        Ok(session) => LynxElementBridgeNativeMountResult { status: NATIVE_STATUS_OK, session },
        Err(e) => LynxElementBridgeNativeMountResult { status: status_to_native(e.status), session: 0 },
    }
}

/// The native result of a destroy or abandon: the status and whether the
/// session was consumed.
pub fn destroy_result(result: Result<(), BackendError>, consumed: bool) -> (r:
    LynxElementBridgeNativeDestroyResult)
    ensures
        r.consumed == (if consumed {
            1u32
        } else {
            0u32
        }),
        match result {
            Ok(_) => r.status == NATIVE_STATUS_OK,
            Err(e) => r.status == native_of_status(e.status),
        },
{
    let status = match result {
        Ok(_) => NATIVE_STATUS_OK,
        Err(e) => status_to_native(e.status),
    };
    LynxElementBridgeNativeDestroyResult {
        status,
        consumed: if consumed {
            1
        } else {
            0
        },
    }
}

} // verus!

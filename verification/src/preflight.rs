use vstd::prelude::*;

verus! {

/// A WAMR resource that a preflight acquires and must give back on failure.
#[derive(Clone, Copy, Debug, PartialEq, Eq, Structural)]
pub enum WamrResource {
    Module,
    Instance,
    Environment,
}

/// The stage a preflight has reached.
#[derive(Clone, Copy, Debug, PartialEq, Eq, Structural)]
pub enum PreflightPhase {
    /// Load the module from its bytes.
    Load,
    /// Instantiate the loaded module.
    Instantiate,
    /// Create the execution environment of the instance.
    CreateEnvironment,
    /// Look up every export and check its signature.
    ValidateExports,
    /// Run the guest's initializer, where it exports one.
    Initialize,
    /// Ask the guest for its protocol version and check it.
    CheckVersion,
    /// Every stage succeeded: the guest owns what was acquired.
    Ready,
    /// A stage failed: everything acquired was handed back for release.
    Failed,
}

pub open spec fn finished(p: PreflightPhase) -> bool {
    p is Ready || p is Failed
}

/// The stage after `p` when `p` succeeds.
pub open spec fn next_phase(p: PreflightPhase) -> PreflightPhase {
    match p {
        PreflightPhase::Load => PreflightPhase::Instantiate,
        PreflightPhase::Instantiate => PreflightPhase::CreateEnvironment,
        PreflightPhase::CreateEnvironment => PreflightPhase::ValidateExports,
        PreflightPhase::ValidateExports => PreflightPhase::Initialize,
        PreflightPhase::Initialize => PreflightPhase::CheckVersion,
        PreflightPhase::CheckVersion => PreflightPhase::Ready,
        PreflightPhase::Ready => PreflightPhase::Ready,
        PreflightPhase::Failed => PreflightPhase::Failed,
    }
}

/// The resource that a successful stage `p` acquires, if any.
pub open spec fn acquired_by(p: PreflightPhase) -> Option<WamrResource> {
    match p {
        PreflightPhase::Load => Some(WamrResource::Module),
        PreflightPhase::Instantiate => Some(WamrResource::Instance),
        PreflightPhase::CreateEnvironment => Some(WamrResource::Environment),
        _ => None,
    }
}

/// What is held when stage `p` starts, in the order it was acquired.
pub open spec fn held_before(p: PreflightPhase) -> Seq<WamrResource> {
    match p {
        PreflightPhase::Load => Seq::empty(),
        PreflightPhase::Instantiate => seq![WamrResource::Module],
        PreflightPhase::CreateEnvironment => seq![WamrResource::Module, WamrResource::Instance],
        PreflightPhase::Failed => Seq::empty(),
        _ => seq![WamrResource::Module, WamrResource::Instance, WamrResource::Environment],
    }
}

/// The view of a preflight: its stage and what it holds.
pub struct PreflightView {
    pub phase: PreflightPhase,
    pub held: Seq<WamrResource>,
}

/// The decisions of a WAMR guest preflight: which stage comes next, and on a
/// failure which resources to release, in which order.
pub struct PreflightFlow {
    phase: PreflightPhase,
    held: Vec<WamrResource>,
}

impl View for PreflightFlow {
    type V = PreflightView;

    closed spec fn view(&self) -> PreflightView {
        PreflightView { phase: self.phase, held: self.held@ }
    }
}

impl PreflightFlow {
    /// Every stage holds exactly what the stages before it acquired.
    pub closed spec fn wf(&self) -> bool {
        self.held@ == held_before(self.phase)
    }

    /// A preflight about to load the module, holding nothing.
    pub fn start() -> (r: PreflightFlow)
        ensures
            r.wf(),
            r@.phase == PreflightPhase::Load,
            r@.held == Seq::<WamrResource>::empty(),
    {
        let r = PreflightFlow { phase: PreflightPhase::Load, held: Vec::new() };
        proof {
            assert(r.held@ =~= held_before(PreflightPhase::Load));
        }
        r
    }

    pub fn phase(&self) -> (r: PreflightPhase)
        ensures
            r == self@.phase,
    {
        self.phase
    }

    /// Takes the outcome of the current stage.  A success moves to the next
    /// stage and keeps what the stage acquired; a failure ends the preflight
    /// and returns everything held, newest first, for release: nothing is
    /// released twice and nothing acquired is left behind.
    pub fn advance(&mut self, succeeded: bool) -> (r: Vec<WamrResource>)
        requires
            old(self).wf(),
            !finished(old(self)@.phase),
        ensures
            final(self).wf(),
            succeeded ==> r@.len() == 0 && final(self)@.phase == next_phase(old(self)@.phase)
                && final(self)@.held == match acquired_by(old(self)@.phase) {
                Some(x) => old(self)@.held.push(x),
                None => old(self)@.held,
            },
            !succeeded ==> final(self)@.phase == PreflightPhase::Failed && final(self)@.held.len()
                == 0 && r@ == old(self)@.held.reverse(),
    {
        if succeeded {
            let (next, acquired) = match self.phase {
                PreflightPhase::Load => (PreflightPhase::Instantiate, Some(WamrResource::Module)),
                PreflightPhase::Instantiate => (
                    PreflightPhase::CreateEnvironment,
                    Some(WamrResource::Instance),
                ),
                PreflightPhase::CreateEnvironment => (
                    PreflightPhase::ValidateExports,
                    Some(WamrResource::Environment),
                ),
                PreflightPhase::ValidateExports => (PreflightPhase::Initialize, None),
                PreflightPhase::Initialize => (PreflightPhase::CheckVersion, None),
                _ => (PreflightPhase::Ready, None),
            };
            match acquired {
                Some(x) => self.held.push(x),
                None => {},
            }
            self.phase = next;
            proof {
                assert(self.held@ =~= held_before(next));
            }
            Vec::new()
        } else {
            let mut released: Vec<WamrResource> = Vec::new();
            let mut i: usize = self.held.len();
            while i > 0
                invariant
                    i <= self.held@.len(),
                    released@ =~= self.held@.subrange(i as int, self.held@.len() as int).reverse(),
                decreases i,
            {
                i = i - 1;
                released.push(self.held[i]);
                proof {
                    let h = self.held@;
                    assert(h.subrange(i as int, h.len() as int).reverse() =~= h.subrange(
                        i + 1,
                        h.len() as int,
                    ).reverse().push(h[i as int]));
                }
            }
            proof {
                assert(self.held@.subrange(0, self.held@.len() as int) =~= self.held@);
            }
            self.held = Vec::new();
            self.phase = PreflightPhase::Failed;
            proof {
                assert(self.held@ =~= held_before(PreflightPhase::Failed));
            }
            released
        }
    }
}

/// A failure at any stage releases exactly what the earlier stages acquired,
/// newest first: after the module is loaded only the module, after it is
/// instantiated the instance then the module, and from the environment on
/// the environment, the instance, then the module.
pub proof fn lemma_failure_releases_in_reverse(p: PreflightPhase)
    requires
        !finished(p),
    ensures
        p is Load ==> held_before(p).reverse() == Seq::<WamrResource>::empty(),
        p is Instantiate ==> held_before(p).reverse() == seq![WamrResource::Module],
        p is CreateEnvironment ==> held_before(p).reverse() == seq![
            WamrResource::Instance,
            WamrResource::Module,
        ],
        !(p is Load || p is Instantiate || p is CreateEnvironment) ==> held_before(p).reverse()
            == seq![WamrResource::Environment, WamrResource::Instance, WamrResource::Module],
{
    assert(Seq::<WamrResource>::empty().reverse() =~= Seq::<WamrResource>::empty());
    assert(seq![WamrResource::Module].reverse() =~= seq![WamrResource::Module]);
    assert(seq![WamrResource::Module, WamrResource::Instance].reverse() =~= seq![
        WamrResource::Instance,
        WamrResource::Module,
    ]);
    assert(seq![WamrResource::Module, WamrResource::Instance, WamrResource::Environment].reverse()
        =~= seq![WamrResource::Environment, WamrResource::Instance, WamrResource::Module]);
}

/// A preflight that ends ready holds the module, the instance and the
/// environment, in that order; the guest then owns them.
pub proof fn lemma_ready_holds_everything()
    ensures
        held_before(PreflightPhase::Ready) == seq![
            WamrResource::Module,
            WamrResource::Instance,
            WamrResource::Environment,
        ],
{
}

} // verus!

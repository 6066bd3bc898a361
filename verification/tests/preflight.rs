use lynx_element_bridge::preflight::{PreflightFlow, PreflightPhase, WamrResource};

fn run_until_failure(failing: PreflightPhase) -> Vec<WamrResource> {
    let mut flow = PreflightFlow::start();
    loop {
        let phase = flow.phase();
        if phase == PreflightPhase::Ready {
            return Vec::new();
        }
        let released = flow.advance(phase != failing);
        if phase == failing {
            assert_eq!(flow.phase(), PreflightPhase::Failed);
            return released;
        }
        assert!(released.is_empty());
    }
}

#[test]
fn a_successful_preflight_passes_every_stage_in_order() {
    let mut flow = PreflightFlow::start();
    let mut seen = Vec::new();
    while flow.phase() != PreflightPhase::Ready {
        seen.push(flow.phase());
        assert!(flow.advance(true).is_empty());
    }
    assert_eq!(
        seen,
        vec![
            PreflightPhase::Load,
            PreflightPhase::Instantiate,
            PreflightPhase::CreateEnvironment,
            PreflightPhase::ValidateExports,
            PreflightPhase::Initialize,
            PreflightPhase::CheckVersion,
        ]
    );
}

#[test]
fn a_failed_stage_releases_what_was_acquired_newest_first() {
    assert_eq!(run_until_failure(PreflightPhase::Load), vec![]);
    assert_eq!(run_until_failure(PreflightPhase::Instantiate), vec![WamrResource::Module]);
    assert_eq!(
        run_until_failure(PreflightPhase::CreateEnvironment),
        vec![WamrResource::Instance, WamrResource::Module]
    );
    for late in [PreflightPhase::ValidateExports, PreflightPhase::Initialize, PreflightPhase::CheckVersion] {
        assert_eq!(
            run_until_failure(late),
            vec![WamrResource::Environment, WamrResource::Instance, WamrResource::Module]
        );
    }
}

use cargo_binutils::classify::{BuildEvent, BuildProductSelector};
use cargo_binutils::machine::{Orchestrator, Phase, Signal, Step};
use cargo_binutils::orchestrator::{
    build_outcome, drain, relays_diagnostics, select, without_build_scripts, BuildError,
    QUIET_VERBOSITY_THRESHOLD,
};
use cargo_binutils::product::{BuildProduct, ProductKind};

fn made(package: &str, kind: ProductKind, name: &str) -> BuildProduct {
    BuildProduct {
        package: package.to_string(),
        kind,
        name: name.to_string(),
        executable: Some(format!("/ws/target/debug/{}", name)),
        files: vec![format!("/ws/target/debug/{}", name)],
    }
}

fn compiled(package: &str, kind: ProductKind, name: &str) -> BuildEvent {
    BuildEvent::ProductCompiled(made(package, kind, name))
}

fn note(text: &str) -> BuildEvent {
    BuildEvent::Diagnostic(Some(text.to_string()))
}

fn members() -> Vec<String> {
    vec!["a".to_string(), "b".to_string()]
}

#[test]
fn the_single_candidate_of_a_good_build_is_returned() {
    let events = vec![
        note("warning: one"),
        compiled("dep", ProductKind::Library, "dep"),
        compiled("a", ProductKind::Binary, "app"),
        BuildEvent::Other,
        compiled("a", ProductKind::Binary, "tool"),
    ];
    let got = build_outcome(events, &members(), &BuildProductSelector::Binary("app".to_string()), true);
    assert_eq!(got, Ok(made("a", ProductKind::Binary, "app")));
}

#[test]
fn several_candidates_of_a_named_selector_are_ambiguous() {
    let events = vec![
        compiled("a", ProductKind::Binary, "app"),
        note("warning: one"),
        compiled("b", ProductKind::Binary, "app"),
        compiled("b", ProductKind::Example, "app"),
    ];
    let got = build_outcome(events, &members(), &BuildProductSelector::Binary("app".to_string()), true);
    assert_eq!(
        got,
        Err(BuildError::AmbiguousTargets(vec![
            made("a", ProductKind::Binary, "app"),
            made("b", ProductKind::Binary, "app"),
        ]))
    );
}

#[test]
fn several_candidates_are_ambiguous_whatever_the_exit_status() {
    let events = vec![
        compiled("a", ProductKind::Test, "t"),
        compiled("b", ProductKind::Test, "t"),
    ];
    let got = build_outcome(events, &members(), &BuildProductSelector::Test("t".to_string()), false);
    assert_eq!(
        got,
        Err(BuildError::AmbiguousTargets(vec![
            made("a", ProductKind::Test, "t"),
            made("b", ProductKind::Test, "t"),
        ]))
    );
}

#[test]
fn a_build_script_beside_a_binary_is_passed_over() {
    let events = vec![
        compiled("a", ProductKind::CustomBuildScript, "build-script-build"),
        compiled("a", ProductKind::Binary, "app"),
    ];
    let got = build_outcome(events, &members(), &BuildProductSelector::Any, true);
    assert_eq!(got, Ok(made("a", ProductKind::Binary, "app")));
}

#[test]
fn build_scripts_are_filtered_from_several_candidates_of_any() {
    let script = made("a", ProductKind::CustomBuildScript, "build-script-build");
    let app = made("a", ProductKind::Binary, "app");
    assert_eq!(
        select(&BuildProductSelector::Any, vec![script.clone(), app.clone()], true),
        Ok(app.clone())
    );
    assert_eq!(
        select(&BuildProductSelector::Any, vec![app.clone(), script.clone()], true),
        Ok(app.clone())
    );
    assert_eq!(without_build_scripts(vec![script.clone(), app.clone(), script.clone()]), vec![app]);
}

#[test]
fn a_failed_build_yields_no_product() {
    let script = made("a", ProductKind::CustomBuildScript, "build-script-build");
    let app = made("a", ProductKind::Binary, "app");
    assert_eq!(
        select(&BuildProductSelector::Any, vec![app.clone()], false),
        Err(BuildError::BuildFailed)
    );
    assert_eq!(
        select(&BuildProductSelector::Any, vec![app.clone(), script], false),
        Err(BuildError::BuildFailed)
    );
    assert_eq!(
        select(&BuildProductSelector::Binary("app".to_string()), vec![app.clone()], false),
        Err(BuildError::BuildFailed)
    );
    let events = vec![note("error: no"), compiled("a", ProductKind::Binary, "app")];
    assert_eq!(
        build_outcome(events, &members(), &BuildProductSelector::Binary("app".to_string()), false),
        Err(BuildError::BuildFailed)
    );
    assert_eq!(
        select(&BuildProductSelector::Binary("app".to_string()), vec![app.clone()], true),
        Ok(app)
    );
}

#[test]
fn a_failed_build_with_one_candidate_completes_without_success() {
    let state = Orchestrator::new(BuildProductSelector::Any, members(), false, 0);
    let (state, _) = state.step(Signal::Spawned);
    let (state, _) = state.step(Signal::Event(compiled("a", ProductKind::Binary, "app")));
    let (state, _) = state.step(Signal::StreamClosed);
    let (state, step) = state.step(Signal::Exited { success: false });
    assert_eq!(step, Step::Finish(Err(BuildError::BuildFailed)));
    assert_eq!(state.phase(), Phase::Completed { success: false });
}

#[test]
fn build_scripts_are_kept_for_other_selectors() {
    let one = made("a", ProductKind::CustomBuildScript, "build-script-build");
    let two = made("b", ProductKind::CustomBuildScript, "build-script-build");
    assert_eq!(
        select(&BuildProductSelector::CustomBuildScript, vec![one.clone(), two.clone()], true),
        Err(BuildError::AmbiguousTargets(vec![one.clone(), two]))
    );
    assert_eq!(select(&BuildProductSelector::Any, vec![one.clone()], true), Ok(one));
}

#[test]
fn any_with_a_binary_and_an_example_is_ambiguous() {
    let app = made("a", ProductKind::Binary, "app");
    let demo = made("a", ProductKind::Example, "demo");
    let script = made("a", ProductKind::CustomBuildScript, "build-script-build");
    assert_eq!(
        select(&BuildProductSelector::Any, vec![app.clone(), script, demo.clone()], true),
        Err(BuildError::AmbiguousTargets(vec![app, demo]))
    );
}

#[test]
fn only_build_scripts_left_for_any_is_no_match() {
    let one = made("a", ProductKind::CustomBuildScript, "build-script-build");
    let two = made("b", ProductKind::CustomBuildScript, "build-script-build");
    assert_eq!(
        select(&BuildProductSelector::Any, vec![one.clone(), two.clone()], true),
        Err(BuildError::NoMatchingTargets)
    );
    assert_eq!(
        select(&BuildProductSelector::Any, vec![one, two], false),
        Err(BuildError::BuildFailed)
    );
}

#[test]
fn a_good_build_without_a_candidate_has_no_matching_targets() {
    let events = vec![compiled("dep", ProductKind::Binary, "app"), note("warning: one")];
    let got = build_outcome(events, &members(), &BuildProductSelector::Binary("app".to_string()), true);
    assert_eq!(got, Err(BuildError::NoMatchingTargets));
    assert_eq!(
        build_outcome(Vec::new(), &members(), &BuildProductSelector::Any, true),
        Err(BuildError::NoMatchingTargets)
    );
}

#[test]
fn a_failed_build_without_a_candidate_has_failed() {
    let events = vec![note("error: no"), compiled("a", ProductKind::Library, "a")];
    let got = build_outcome(events, &members(), &BuildProductSelector::Binary("app".to_string()), false);
    assert_eq!(got, Err(BuildError::BuildFailed));
}

#[test]
fn diagnostics_are_relayed_in_stream_order() {
    let events = vec![
        note("first"),
        compiled("a", ProductKind::Binary, "app"),
        note("second"),
        BuildEvent::Diagnostic(None),
        compiled("b", ProductKind::Binary, "other"),
        note("third"),
    ];
    let drained = drain(events, &members(), &BuildProductSelector::Any, false, 0);
    assert_eq!(drained.diagnostics, vec!["first", "second", "third"]);
    assert_eq!(
        drained.candidates,
        vec![made("a", ProductKind::Binary, "app"), made("b", ProductKind::Binary, "other")]
    );
}

#[test]
fn quiet_mode_suppresses_diagnostics_up_to_the_threshold() {
    assert_eq!(QUIET_VERBOSITY_THRESHOLD, 1);
    for verbose in [0, 1] {
        let events = vec![note("first"), compiled("a", ProductKind::Binary, "app"), note("second")];
        let drained = drain(events, &members(), &BuildProductSelector::Any, true, verbose);
        assert_eq!(drained.diagnostics, Vec::<String>::new());
        assert_eq!(drained.candidates.len(), 1);
        assert!(!relays_diagnostics(true, verbose));
    }
    let events = vec![note("first"), note("second")];
    let drained = drain(events, &members(), &BuildProductSelector::Any, true, 2);
    assert_eq!(drained.diagnostics, vec!["first", "second"]);
    assert!(relays_diagnostics(true, 2));
    assert!(relays_diagnostics(false, 0));
}

#[test]
fn selector_for_a_binary_ignores_the_library_of_another_member() {
    let events = vec![
        compiled("a", ProductKind::Binary, "app"),
        compiled("b", ProductKind::Library, "unrelated"),
    ];
    let got = build_outcome(events, &members(), &BuildProductSelector::Binary("app".to_string()), true);
    assert_eq!(got, Ok(made("a", ProductKind::Binary, "app")));
}

fn expect_read(step: Step) {
    assert_eq!(step, Step::Read);
}

#[test]
fn a_build_runs_through_its_phases() {
    let state = Orchestrator::new(BuildProductSelector::Any, members(), false, 0);
    assert_eq!(state.phase(), Phase::NotStarted);
    let (state, step) = state.step(Signal::Spawned);
    expect_read(step);
    assert_eq!(state.phase(), Phase::Running);
    let (state, step) = state.step(Signal::Event(note("warning: one")));
    assert_eq!(step, Step::Relay("warning: one".to_string()));
    let (state, step) = state.step(Signal::Event(compiled("a", ProductKind::Binary, "app")));
    expect_read(step);
    let (state, step) = state.step(Signal::Event(BuildEvent::Other));
    expect_read(step);
    assert_eq!(state.phase(), Phase::Running);
    let (state, step) = state.step(Signal::StreamClosed);
    assert_eq!(step, Step::AwaitExit);
    assert_eq!(state.phase(), Phase::Draining);
    let (state, step) = state.step(Signal::Exited { success: true });
    assert_eq!(step, Step::Finish(Ok(made("a", ProductKind::Binary, "app"))));
    assert_eq!(state.phase(), Phase::Completed { success: true });
    let (state, step) = state.step(Signal::Spawned);
    assert_eq!(step, Step::Rejected);
    assert_eq!(state.phase(), Phase::Completed { success: true });
}

#[test]
fn the_exit_status_is_not_taken_before_the_stream_is_read() {
    let state = Orchestrator::new(BuildProductSelector::Any, members(), false, 0);
    let (state, step) = state.step(Signal::Exited { success: true });
    assert_eq!(step, Step::Rejected);
    assert_eq!(state.phase(), Phase::NotStarted);
    let (state, _) = state.step(Signal::Spawned);
    let (state, step) = state.step(Signal::Exited { success: true });
    assert_eq!(step, Step::Rejected);
    assert_eq!(state.phase(), Phase::Running);
    let (state, _) = state.step(Signal::StreamClosed);
    let (state, step) = state.step(Signal::Event(note("late")));
    assert_eq!(step, Step::Rejected);
    let (state, step) = state.step(Signal::Exited { success: false });
    assert_eq!(step, Step::Finish(Err(BuildError::BuildFailed)));
    assert_eq!(state.phase(), Phase::Completed { success: false });
}

#[test]
fn a_build_that_cannot_start_has_failed() {
    let state = Orchestrator::new(BuildProductSelector::Library, members(), true, 0);
    let (state, step) = state.step(Signal::SpawnFailed);
    assert_eq!(step, Step::Abort);
    assert_eq!(state.phase(), Phase::Failed);
    let (state, step) = state.step(Signal::Spawned);
    assert_eq!(step, Step::Rejected);
    assert_eq!(state.phase(), Phase::Failed);
}

#[test]
fn a_quiet_build_relays_nothing() {
    let state = Orchestrator::new(BuildProductSelector::Any, members(), true, 1);
    let (state, _) = state.step(Signal::Spawned);
    let (state, step) = state.step(Signal::Event(note("warning: one")));
    expect_read(step);
    let (state, _) = state.step(Signal::StreamClosed);
    let (_, step) = state.step(Signal::Exited { success: true });
    assert_eq!(step, Step::Finish(Err(BuildError::NoMatchingTargets)));
}

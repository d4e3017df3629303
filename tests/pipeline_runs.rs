use wasm_pipeline::pipeline::{ordered_snippets, Action, Fault, Outcome, Phase, Pipeline, Stamps, Step};
use wasm_pipeline::target::is_bytecode_target;

const ALL_STEPS: [Step; 15] = [
    Step::CollectGarbage,
    Step::RemoveArtifact,
    Step::WritePruned,
    Step::Decode,
    Step::ExtractSnippets,
    Step::LowerIntrinsics,
    Step::ExportMain,
    Step::BridgeExports,
    Step::ReexportMain,
    Step::ExportTable,
    Step::HookGrow,
    Step::RemoveArtifact,
    Step::WriteModule,
    Step::GenerateGlue,
    Step::WriteGlue,
];

fn started_run() -> Pipeline {
    let (mut p, a) = Pipeline::start(Some("wasm32-unknown-unknown"), b"app.wasm");
    assert_eq!(a, Action::Inspect(b"app.js".to_vec()));
    assert_eq!(p.observe(None), Action::Perform(Step::CollectGarbage));
    p
}

#[test]
fn bytecode_target_only() {
    assert!(is_bytecode_target(Some("wasm32-unknown-unknown")));
    assert!(!is_bytecode_target(Some("x86_64-unknown-linux-gnu")));
    assert!(!is_bytecode_target(Some("wasm32-unknown-emscripten")));
    assert!(!is_bytecode_target(None));
}

#[test]
fn other_triplet_is_not_applicable() {
    let (p, a) = Pipeline::start(Some("x86_64-unknown-linux-gnu"), b"app.wasm");
    assert_eq!(a, Action::Finish(None));
    assert_eq!(p.phase(), Phase::Finished);
    let (p, a) = Pipeline::start(None, b"app.wasm");
    assert_eq!(a, Action::Finish(None));
    assert_eq!(p.phase(), Phase::Finished);
}

#[test]
fn other_extension_is_not_applicable() {
    let (p, a) = Pipeline::start(Some("wasm32-unknown-unknown"), b"app.js");
    assert_eq!(a, Action::Finish(None));
    assert_eq!(p.phase(), Phase::Finished);
    let (_, a) = Pipeline::start(Some("wasm32-unknown-unknown"), b"libapp.rlib");
    assert_eq!(a, Action::Finish(None));
}

#[test]
fn fresh_glue_is_kept() {
    let (mut p, a) = Pipeline::start(Some("wasm32-unknown-unknown"), b"out/app.wasm");
    assert_eq!(a, Action::Inspect(b"out/app.js".to_vec()));
    assert_eq!(p.glue(), b"out/app.js");
    let r = p.observe(Some(Stamps { glue: 200, artifact: 200 }));
    assert_eq!(r, Action::Finish(Some(b"out/app.js".to_vec())));
    assert_eq!(p.phase(), Phase::Finished);
    let (mut q, _) = Pipeline::start(Some("wasm32-unknown-unknown"), b"out/app.wasm");
    let r = q.observe(Some(Stamps { glue: 201, artifact: 200 }));
    assert_eq!(r, Action::Finish(Some(b"out/app.js".to_vec())));
}

#[test]
fn stale_glue_starts_a_full_run() {
    let (mut p, _) = Pipeline::start(Some("wasm32-unknown-unknown"), b"app.wasm");
    let r = p.observe(Some(Stamps { glue: 199, artifact: 200 }));
    assert_eq!(r, Action::Perform(Step::CollectGarbage));
    assert_eq!(p.phase(), Phase::Running(0));
}

#[test]
fn end_to_end_run_asks_every_step_in_order() {
    let mut p = started_run();
    let mut asked = vec![Step::CollectGarbage];
    loop {
        match p.report(Outcome::Done) {
            Action::Perform(s) => asked.push(s),
            Action::Finish(g) => {
                assert_eq!(g, Some(b"app.js".to_vec()));
                break;
            }
            other => panic!("unexpected action {:?}", other),
        }
    }
    assert_eq!(asked, ALL_STEPS.to_vec());
    assert_eq!(p.phase(), Phase::Finished);
}

#[test]
fn missing_artifact_at_removal_is_tolerated() {
    let mut p = started_run();
    assert_eq!(p.report(Outcome::Done), Action::Perform(Step::RemoveArtifact));
    assert_eq!(p.report(Outcome::Missing), Action::Perform(Step::WritePruned));
    for s in &ALL_STEPS[3..12] {
        assert_eq!(p.report(Outcome::Done), Action::Perform(*s));
    }
    assert_eq!(p.report(Outcome::Missing), Action::Perform(Step::WriteModule));
}

#[test]
fn every_write_comes_right_after_removal() {
    let mut p = started_run();
    let mut prev = Step::CollectGarbage;
    let mut writes = 0;
    loop {
        match p.report(Outcome::Done) {
            Action::Perform(s) => {
                if s == Step::WritePruned || s == Step::WriteModule {
                    assert_eq!(prev, Step::RemoveArtifact);
                    writes += 1;
                }
                prev = s;
            }
            _ => break,
        }
    }
    assert_eq!(writes, 2);
}

#[test]
fn failed_removal_aborts_before_write() {
    let mut p = started_run();
    assert_eq!(p.report(Outcome::Done), Action::Perform(Step::RemoveArtifact));
    assert_eq!(
        p.report(Outcome::Failed(Fault::Filesystem)),
        Action::Abort(Step::RemoveArtifact, Fault::Filesystem)
    );
    assert_eq!(p.phase(), Phase::Aborted);
}

#[test]
fn failed_second_removal_aborts_before_write() {
    let mut p = started_run();
    for _ in 1..12 {
        p.report(Outcome::Done);
    }
    assert_eq!(p.phase(), Phase::Running(11));
    assert_eq!(
        p.report(Outcome::Failed(Fault::Filesystem)),
        Action::Abort(Step::RemoveArtifact, Fault::Filesystem)
    );
}

#[test]
fn malformed_module_aborts() {
    let mut p = started_run();
    for s in &ALL_STEPS[1..4] {
        assert_eq!(p.report(Outcome::Done), Action::Perform(*s));
    }
    assert_eq!(
        p.report(Outcome::Failed(Fault::MalformedModule)),
        Action::Abort(Step::Decode, Fault::MalformedModule)
    );
}

#[test]
fn pass_failure_aborts() {
    let mut p = started_run();
    for _ in 1..5 {
        p.report(Outcome::Done);
    }
    assert_eq!(
        p.report(Outcome::Failed(Fault::PassFailure)),
        Action::Abort(Step::ExtractSnippets, Fault::PassFailure)
    );
}

#[test]
fn missing_file_elsewhere_is_a_filesystem_fault() {
    let mut p = started_run();
    assert_eq!(
        p.report(Outcome::Missing),
        Action::Abort(Step::CollectGarbage, Fault::Filesystem)
    );
}

#[test]
fn snippets_precede_intrinsics() {
    let all = ordered_snippets(vec!["s1", "s2"], vec!["i1"]);
    assert_eq!(all, vec!["s1", "s2", "i1"]);
    let none: Vec<u32> = ordered_snippets(vec![], vec![]);
    assert!(none.is_empty());
}

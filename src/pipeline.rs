//! The rewriting pipeline as a state machine. The machine decides; its
//! driver performs each requested action (reading timestamps, running a pass,
//! touching the file system) and reports the outcome back.
use vstd::prelude::*;

use crate::path::{companion_glue_path, glue_path, is_module_path};
use crate::target::{bytecode_triplet, is_bytecode_target};

verus! {

/// One step of a regeneration run.
#[derive(Clone, Copy, Debug, PartialEq, Eq, Structural)]
pub enum Step {
    /// Dead-code elimination of the module read from the artifact file.
    CollectGarbage,
    /// Write the pruned module to the artifact path.
    WritePruned,
    /// Read the pruned artifact into the module representation.
    Decode,
    /// Extract the inline host snippets.
    ExtractSnippets,
    /// Lower the intrinsics and record them.
    LowerIntrinsics,
    /// Export the main symbol; its result is the main symbol of the run.
    ExportMain,
    /// Bridge the exports to the host; its result is the export set.
    BridgeExports,
    /// Export the main symbol again, as a finalisation; its result is unused.
    ReexportMain,
    /// Expose the function table to the host.
    ExportTable,
    /// Instrument memory growth.
    HookGrow,
    /// Remove the file at the artifact path, so that a hard link to it keeps
    /// its old content.
    RemoveArtifact,
    /// Serialise the rewritten module to the artifact path.
    WriteModule,
    /// Generate the glue program from the passes' results.
    GenerateGlue,
    /// Write the glue program to the companion glue path.
    WriteGlue,
}

/// Why a step failed.
#[derive(Clone, Copy, Debug, PartialEq, Eq, Structural)]
pub enum Fault {
    /// A file could not be read, written or inspected.
    Filesystem,
    /// The artifact is not a well-formed binary module.
    MalformedModule,
    /// A pass could not complete.
    PassFailure,
}

/// What came of a requested step.
#[derive(Clone, Copy, Debug, PartialEq, Eq, Structural)]
pub enum Outcome {
    /// The step completed.
    Done,
    /// The file that the step acts on did not exist.
    Missing,
    /// The step failed.
    Failed(Fault),
}

/// Modification times of the glue file and of the artifact, in nanoseconds
/// from a common origin.
#[derive(Clone, Copy, Debug, PartialEq, Eq, Structural)]
pub struct Stamps {
    pub glue: i128,
    pub artifact: i128,
}

/// Where a pipeline stands.
#[derive(Clone, Copy, Debug, PartialEq, Eq, Structural)]
pub enum Phase {
    /// Waiting for the timestamps of the glue file and the artifact.
    Inspecting,
    /// Waiting for the outcome of the step at this index of the run.
    Running(usize),
    /// Done; the last action was a `Finish`.
    Finished,
    /// Stopped on a failure; the last action was an `Abort`.
    Aborted,
}

/// What the driver is asked to do next.
#[derive(Clone, Debug, PartialEq, Eq)]
pub enum Action {
    /// Report the timestamps of the glue file at this path and of the
    /// artifact, or that the glue file does not exist.
    Inspect(Vec<u8>),
    /// Perform this step and report its outcome.
    Perform(Step),
    /// Stop: the glue path, or `None` where the artifact does not qualify.
    Finish(Option<Vec<u8>>),
    /// Stop: this step failed for this reason. Nothing is rolled back.
    Abort(Step, Fault),
}

/// An [`Action`] as a mathematical value.
pub ghost enum Effect {
    Inspect(Seq<u8>),
    Perform(Step),
    Finish(Option<Seq<u8>>),
    Abort(Step, Fault),
}

impl View for Action {
    type V = Effect;

    open spec fn view(&self) -> Effect {
        match self {
            Action::Inspect(p) => Effect::Inspect(p@),
            Action::Perform(s) => Effect::Perform(*s),
            Action::Finish(Some(p)) => Effect::Finish(Some(p@)),
            Action::Finish(None) => Effect::Finish(None),
            Action::Abort(s, f) => Effect::Abort(*s, *f),
        }
    }
}

/// A pipeline as a mathematical value.
pub ghost struct PipelineState {
    pub glue: Seq<u8>,
    pub phase: Phase,
}

/// The number of steps of a regeneration run.
pub const STEP_COUNT: usize = 15;

/// The steps of a regeneration run, in the order they are performed.
#[verifier::opaque]
pub open spec fn regeneration() -> Seq<Step> {
    seq![
        Step::CollectGarbage,
        Step::RemoveArtifact,
        Step::WritePruned,
        Step::Decode,
        Step::ExtractSnippets,
        Step::LowerIntrinsics,
        Step::ExportMain,
        Step::BridgeExports,
        Step::ReexportMain,
        Step::ExportTable,
        Step::HookGrow,
        Step::RemoveArtifact,
        Step::WriteModule,
        Step::GenerateGlue,
        Step::WriteGlue,
    ]
}

/// The step writes the artifact file.
pub open spec fn writes_artifact(step: Step) -> bool {
    step == Step::WritePruned || step == Step::WriteModule
}

/// The artifact qualifies: it was built for the bytecode target and its file
/// name has the binary module extension.
pub open spec fn applicable(triplet: Option<Seq<char>>, artifact: Seq<u8>) -> bool {
    triplet == Some(bytecode_triplet()) && is_module_path(artifact)
}

/// The triplet of an optional string, as a value.
pub open spec fn triplet_view(triplet: Option<&str>) -> Option<Seq<char>> {
    match triplet {
        Some(t) => Some(t@),
        None => None,
    }
}

/// Earlier output is fresh: the glue file exists and is not older than the
/// artifact.
pub open spec fn is_fresh(stamps: Option<Stamps>) -> bool {
    stamps matches Some(s) && s.glue >= s.artifact
}

/// The step completed as far as the run is concerned. Only the removal of
/// the artifact may find the file missing.
pub open spec fn completed(step: Step, outcome: Outcome) -> bool {
    outcome == Outcome::Done || (outcome == Outcome::Missing && step == Step::RemoveArtifact)
}

/// The fault that an outcome which did not complete its step stands for.
pub open spec fn fault_of(outcome: Outcome) -> Fault {
    match outcome {
        Outcome::Failed(f) => f,
        _ => Fault::Filesystem,
    }
}

/// The effect of starting on an artifact.
#[verifier::opaque]
pub open spec fn started(triplet: Option<Seq<char>>, artifact: Seq<u8>) -> (PipelineState, Effect) {
    if applicable(triplet, artifact) {
        (
            PipelineState { glue: glue_path(artifact), phase: Phase::Inspecting },
            Effect::Inspect(glue_path(artifact)),
        )
    } else {
        (PipelineState { glue: seq![], phase: Phase::Finished }, Effect::Finish(None))
    }
}

/// The effect of the timestamps on a pipeline that waits for them.
pub open spec fn after_stamps(st: PipelineState, stamps: Option<Stamps>) -> (PipelineState, Effect) {
    if is_fresh(stamps) {
        (PipelineState { phase: Phase::Finished, ..st }, Effect::Finish(Some(st.glue)))
    } else {
        (PipelineState { phase: Phase::Running(0), ..st }, Effect::Perform(regeneration()[0]))
    }
}

/// The effect of a step's outcome on a pipeline that waits for it.
#[verifier::opaque]
pub open spec fn after_outcome(st: PipelineState, outcome: Outcome) -> (PipelineState, Effect) {
    let i = st.phase->Running_0 as int;
    let step = regeneration()[i];
    if !completed(step, outcome) {
        (PipelineState { phase: Phase::Aborted, ..st }, Effect::Abort(step, fault_of(outcome)))
    } else if i + 1 < regeneration().len() {
        (
            PipelineState { phase: Phase::Running((i + 1) as usize), ..st },
            Effect::Perform(regeneration()[i + 1]),
        )
    } else {
        (PipelineState { phase: Phase::Finished, ..st }, Effect::Finish(Some(st.glue)))
    }
}

/// A pipeline state is consistent: a running pipeline waits on a step of
/// the run.
pub open spec fn state_wf(st: PipelineState) -> bool {
    st.phase matches Phase::Running(i) ==> i < regeneration().len()
}

/// The decisions of one invocation of the rewriting on one artifact.
pub struct Pipeline {
    glue: Vec<u8>,
    phase: Phase,
}

impl View for Pipeline {
    type V = PipelineState;

    closed spec fn view(&self) -> PipelineState {
        PipelineState { glue: self.glue@, phase: self.phase }
    }
}

fn step_at(i: usize) -> (s: Step)
    requires
        i < STEP_COUNT,
    ensures
        s == regeneration()[i as int],
{
    proof {
        reveal(regeneration);
    }
    match i {
        0 => Step::CollectGarbage,
        1 => Step::RemoveArtifact,
        2 => Step::WritePruned,
        3 => Step::Decode,
        4 => Step::ExtractSnippets,
        5 => Step::LowerIntrinsics,
        6 => Step::ExportMain,
        7 => Step::BridgeExports,
        8 => Step::ReexportMain,
        9 => Step::ExportTable,
        10 => Step::HookGrow,
        11 => Step::RemoveArtifact,
        12 => Step::WriteModule,
        13 => Step::GenerateGlue,
        _ => Step::WriteGlue,
    }
}

impl Pipeline {
    /// Starts on the artifact at `artifact`, built for `triplet`. Where the
    /// artifact does not qualify the pipeline finishes at once with `None`,
    /// and nothing is to be read or written.
    pub fn start(triplet: Option<&str>, artifact: &[u8]) -> (r: (Pipeline, Action))
        ensures
            (r.0@, r.1@) == started(triplet_view(triplet), artifact@),
            applicable(triplet_view(triplet), artifact@) ==> r.0@ == (PipelineState {
                glue: glue_path(artifact@),
                phase: Phase::Inspecting,
            }) && r.1@ == Effect::Inspect(glue_path(artifact@)),
            !applicable(triplet_view(triplet), artifact@) ==> r.0@.phase == Phase::Finished
                && r.1@ == Effect::Finish(None),
            state_wf(r.0@),
    {
        proof {
            reveal(started);
        }
        if !is_bytecode_target(triplet) {
            return (Pipeline { glue: Vec::new(), phase: Phase::Finished }, Action::Finish(None));
        }
        match companion_glue_path(artifact) {
            Some(glue) => {
                let inspect = glue.clone();
                (Pipeline { glue, phase: Phase::Inspecting }, Action::Inspect(inspect))
            },
            None => (Pipeline { glue: Vec::new(), phase: Phase::Finished }, Action::Finish(None)),
        }
    }

    /// Where the pipeline stands.
    pub fn phase(&self) -> (r: Phase)
        ensures
            r == self@.phase,
    {
        self.phase
    }

    /// The companion glue path of a qualifying artifact.
    pub fn glue(&self) -> (r: &[u8])
        ensures
            r@ == self@.glue,
    {
        self.glue.as_slice()
    }

    /// Takes the timestamps of the glue file and the artifact (`None` where
    /// the glue file does not exist). Fresh output finishes the pipeline with
    /// the glue path and no step; otherwise the run starts at its first step.
    pub fn observe(&mut self, stamps: Option<Stamps>) -> (r: Action)
        requires
            old(self)@.phase == Phase::Inspecting,
        ensures
            (final(self)@, r@) == after_stamps(old(self)@, stamps),
            final(self)@.glue == old(self)@.glue,
            is_fresh(stamps) ==> final(self)@.phase == Phase::Finished && r@ == Effect::Finish(
                Some(old(self)@.glue),
            ),
            !is_fresh(stamps) ==> final(self)@.phase == Phase::Running(0) && r@
                == Effect::Perform(Step::CollectGarbage),
            state_wf(final(self)@),
    {
        proof {
            reveal(regeneration);
        }
        assert(regeneration()[0] == Step::CollectGarbage);
        let fresh = match stamps {
            Some(s) => s.glue >= s.artifact,
            None => false,
        };
        if fresh {
            self.phase = Phase::Finished;
            Action::Finish(Some(self.glue.clone()))
        } else {
            self.phase = Phase::Running(0);
            Action::Perform(step_at(0))
        }
    }

    /// Takes the outcome of the step that the pipeline waits for. A step that
    /// did not complete aborts the run; otherwise the next step follows, and
    /// after the last one the pipeline finishes with the glue path.
    pub fn report(&mut self, outcome: Outcome) -> (r: Action)
        requires
            old(self)@.phase is Running,
            state_wf(old(self)@),
        ensures
            (final(self)@, r@) == after_outcome(old(self)@, outcome),
            final(self)@.glue == old(self)@.glue,
            ({
                let i = old(self)@.phase->Running_0 as int;
                let step = regeneration()[i];
                &&& !completed(step, outcome) ==> final(self)@.phase == Phase::Aborted && r@
                    == Effect::Abort(step, fault_of(outcome))
                &&& completed(step, outcome) && i + 1 < STEP_COUNT ==> final(self)@.phase
                    == Phase::Running((i + 1) as usize) && r@ == Effect::Perform(
                    regeneration()[i + 1],
                )
                &&& completed(step, outcome) && i + 1 == STEP_COUNT ==> final(self)@.phase
                    == Phase::Finished && r@ == Effect::Finish(Some(old(self)@.glue))
            }),
            state_wf(final(self)@),
    {
        proof {
            reveal(after_outcome);
            reveal(regeneration);
        }
        let i = match self.phase {
            Phase::Running(i) => i,
            _ => 0,
        };
        let step = step_at(i);
        let done = match outcome {
            Outcome::Done => true,
            Outcome::Missing => step == Step::RemoveArtifact,
            Outcome::Failed(_) => false,
        };
        if !done {
            let fault = match outcome {
                Outcome::Failed(f) => f,
                _ => Fault::Filesystem,
            };
            self.phase = Phase::Aborted;
            Action::Abort(step, fault)
        } else if i + 1 < STEP_COUNT {
            self.phase = Phase::Running(i + 1);
            Action::Perform(step_at(i + 1))
        } else {
            self.phase = Phase::Finished;
            Action::Finish(Some(self.glue.clone()))
        }
    }
}

/// The results of the snippet extraction and of the intrinsic lowering, as
/// one sequence for the glue generator: the snippets first, then the
/// intrinsics, each in its own order.
pub fn ordered_snippets<T>(snippets: Vec<T>, intrinsics: Vec<T>) -> (r: Vec<T>)
    ensures
        r@ == snippets@ + intrinsics@,
{
    let mut all = snippets;
    let mut rest = intrinsics;
    all.append(&mut rest);
    all
}

} // verus!

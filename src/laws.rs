//! What holds of whole runs of the pipeline.
use vstd::prelude::*;

use crate::path::glue_path;
use crate::pipeline::{
    after_outcome, after_stamps, applicable, completed, is_fresh, regeneration, started,
    state_wf, writes_artifact, Effect, Outcome, Phase, PipelineState, Stamps, Step,
};

verus! {

/// The effects of feeding `outcomes` to a pipeline in state `st`, one at a
/// time, until it stops waiting for outcomes; and the state it ends in.
pub open spec fn run(st: PipelineState, outcomes: Seq<Outcome>) -> (PipelineState, Seq<Effect>)
    decreases outcomes.len(),
{
    if outcomes.len() == 0 || !(st.phase is Running) {
        (st, seq![])
    } else {
        let (next, e) = after_outcome(st, outcomes[0]);
        let (last, es) = run(next, outcomes.drop_first());
        (last, seq![e] + es)
    }
}

/// The effects that ask for each of `steps`, in order.
pub open spec fn performed(steps: Seq<Step>) -> Seq<Effect> {
    steps.map_values(|s: Step| Effect::Perform(s))
}

/// `n` outcomes that all completed.
pub open spec fn all_done(n: nat) -> Seq<Outcome> {
    Seq::new(n, |i: int| Outcome::Done)
}

proof fn lemma_run_to_end(st: PipelineState, i: int)
    requires
        st.phase == Phase::Running(i as usize),
        0 <= i < regeneration().len(),
    ensures
        run(st, all_done((regeneration().len() - i) as nat)).0 == (PipelineState {
            phase: Phase::Finished,
            ..st
        }),
        run(st, all_done((regeneration().len() - i) as nat)).1 == performed(
            regeneration().subrange(i + 1, regeneration().len() as int),
        ) + seq![Effect::Finish(Some(st.glue))],
    decreases regeneration().len() - i,
{
    reveal(after_outcome);
    reveal(regeneration);
    let n = (regeneration().len() - i) as nat;
    let outs = all_done(n);
    let (next, e) = after_outcome(st, outs[0]);
    assert(outs.drop_first() =~= all_done((n - 1) as nat));
    if i + 1 < regeneration().len() {
        lemma_run_to_end(next, i + 1);
        assert(performed(regeneration().subrange(i + 1, regeneration().len() as int)) =~= seq![
            Effect::Perform(regeneration()[i + 1]),
        ] + performed(regeneration().subrange(i + 2, regeneration().len() as int)));
    } else {
        assert(outs.drop_first() =~= Seq::<Outcome>::empty());
        assert(performed(regeneration().subrange(i + 1, regeneration().len() as int)) =~= seq![]);
    }
}

/// Output that is not older than the artifact is kept: on a qualifying
/// artifact with fresh timestamps the pipeline finishes with the glue path
/// right after inspecting them, and asks for no step.
pub proof fn lemma_fresh_output_is_kept(
    triplet: Option<Seq<char>>,
    artifact: Seq<u8>,
    stamps: Option<Stamps>,
)
    requires
        applicable(triplet, artifact),
        is_fresh(stamps),
    ensures
        started(triplet, artifact).1 == Effect::Inspect(glue_path(artifact)),
        after_stamps(started(triplet, artifact).0, stamps).1 == Effect::Finish(
            Some(glue_path(artifact)),
        ),
        after_stamps(started(triplet, artifact).0, stamps).0.phase == Phase::Finished,
{
    reveal(started);
}

proof fn lemma_started_inspects(triplet: Option<Seq<char>>, artifact: Seq<u8>)
    requires
        applicable(triplet, artifact),
    ensures
        started(triplet, artifact).0 == (PipelineState {
            glue: glue_path(artifact),
            phase: Phase::Inspecting,
        }),
        started(triplet, artifact).1 == Effect::Inspect(glue_path(artifact)),
{
    reveal(started);
}

/// A stale artifact is rewritten in full: on a qualifying artifact whose glue
/// file is missing or older, and with every step completing, the pipeline
/// asks for the timestamps, then for every step of the run in order, and
/// finishes with the glue path.
pub proof fn lemma_stale_output_is_regenerated(
    triplet: Option<Seq<char>>,
    artifact: Seq<u8>,
    stamps: Option<Stamps>,
)
    requires
        applicable(triplet, artifact),
        !is_fresh(stamps),
    ensures
        ({
            let (s0, e0) = started(triplet, artifact);
            let (s1, e1) = after_stamps(s0, stamps);
            let (s2, es) = run(s1, all_done(regeneration().len()));
            &&& seq![e0, e1] + es == seq![Effect::Inspect(glue_path(artifact))] + performed(
                regeneration(),
            ) + seq![Effect::Finish(Some(glue_path(artifact)))]
            &&& s2.phase == Phase::Finished
        }),
{
    lemma_started_inspects(triplet, artifact);
    reveal(regeneration);
    let (s0, e0) = started(triplet, artifact);
    let (s1, e1) = after_stamps(s0, stamps);
    lemma_run_to_end(s1, 0);
    let es = run(s1, all_done(regeneration().len())).1;
    assert(performed(regeneration()) =~= seq![Effect::Perform(regeneration()[0])] + performed(
        regeneration().subrange(1, regeneration().len() as int),
    ));
    assert(seq![e0, e1] + es =~= seq![Effect::Inspect(glue_path(artifact))] + performed(
        regeneration(),
    ) + seq![Effect::Finish(Some(glue_path(artifact)))]);
}

proof fn lemma_write_position(j: int)
    requires
        0 <= j < regeneration().len(),
        writes_artifact(regeneration()[j]),
    ensures
        j >= 1,
        regeneration()[j - 1] == Step::RemoveArtifact,
{
    reveal(regeneration);
    let r = regeneration();
    assert(!writes_artifact(r[0]));
    assert(r[1] == Step::RemoveArtifact && r[11] == Step::RemoveArtifact);
    assert(j == 2 || j == 12) by {
        assert(!writes_artifact(r[1]) && !writes_artifact(r[3]) && !writes_artifact(r[4])
            && !writes_artifact(r[5]) && !writes_artifact(r[6]) && !writes_artifact(r[7])
            && !writes_artifact(r[8]) && !writes_artifact(r[9]) && !writes_artifact(r[10])
            && !writes_artifact(r[11]) && !writes_artifact(r[13]) && !writes_artifact(r[14]));
    }
}

proof fn lemma_outcome_step(st: PipelineState, i: int, o: Outcome)
    requires
        st.phase == Phase::Running(i as usize),
        0 <= i < regeneration().len(),
    ensures
        after_outcome(st, o).1 is Perform ==> {
            &&& completed(regeneration()[i], o)
            &&& i + 1 < regeneration().len()
            &&& after_outcome(st, o).1 == Effect::Perform(regeneration()[i + 1])
            &&& after_outcome(st, o).0.phase == Phase::Running((i + 1) as usize)
        },
        after_outcome(st, o).0.phase is Running ==> {
            &&& after_outcome(st, o).0.phase == Phase::Running((i + 1) as usize)
            &&& after_outcome(st, o).1 == Effect::Perform(regeneration()[i + 1])
            &&& i + 1 < regeneration().len()
        },
{
    reveal(after_outcome);
    reveal(regeneration);
}

proof fn lemma_run_len(st: PipelineState, outcomes: Seq<Outcome>)
    ensures
        run(st, outcomes).1.len() <= outcomes.len(),
    decreases outcomes.len(),
{
    if outcomes.len() > 0 && st.phase is Running {
        lemma_run_len(after_outcome(st, outcomes[0]).0, outcomes.drop_first());
    }
}

/// The effects asked for from a pipeline waiting on step `i`: that step,
/// then the effects of the run.
pub open spec fn issued(st: PipelineState, i: int, outcomes: Seq<Outcome>) -> Seq<Effect> {
    seq![Effect::Perform(regeneration()[i])] + run(st, outcomes).1
}

/// The effect at `k` asks for a write of the artifact file.
pub open spec fn writes_artifact_at(effects: Seq<Effect>, k: int) -> bool {
    effects[k] matches Effect::Perform(s) && writes_artifact(s)
}

/// Each write of the artifact in `effects` comes right after its removal, which
/// the outcome at the same place reports as completed.
pub open spec fn write_follows_removal(effects: Seq<Effect>, outcomes: Seq<Outcome>) -> bool {
    forall|k: int|
        1 <= k < effects.len() && #[trigger] writes_artifact_at(effects, k) ==> effects[k - 1] == Effect::Perform(Step::RemoveArtifact) && completed(
            Step::RemoveArtifact,
            outcomes[k - 1],
        )
}

proof fn lemma_write_follows_removal(st: PipelineState, i: int, outcomes: Seq<Outcome>)
    requires
        st.phase == Phase::Running(i as usize),
        0 <= i < regeneration().len(),
    ensures
        write_follows_removal(issued(st, i, outcomes), outcomes),
    decreases outcomes.len(),
{
    let full = issued(st, i, outcomes);
    lemma_run_len(st, outcomes);
    if outcomes.len() == 0 {
        assert(full.len() == 1);
    } else {
        let (next, e) = after_outcome(st, outcomes[0]);
        let rest = outcomes.drop_first();
        lemma_outcome_step(st, i, outcomes[0]);
        if next.phase is Running {
            lemma_write_follows_removal(next, i + 1, rest);
            let tail = issued(next, i + 1, rest);
            assert(full =~= seq![Effect::Perform(regeneration()[i])] + tail);
            assert forall|k: int|
                1 <= k < full.len() && #[trigger] writes_artifact_at(full, k) implies full[k - 1] == Effect::Perform(Step::RemoveArtifact) && completed(
                Step::RemoveArtifact,
                outcomes[k - 1],
            ) by {
                assert(full[k] == tail[k - 1]);
                if k == 1 {
                    lemma_write_position(i + 1);
                } else {
                    assert(writes_artifact_at(tail, k - 1));
                    assert(full[k - 1] == tail[k - 2]);
                    assert(rest[k - 2] == outcomes[k - 1]);
                }
            }
        } else {
            assert(run(next, rest).1.len() == 0);
            assert(full =~= seq![Effect::Perform(regeneration()[i]), e]);
            assert forall|k: int|
                1 <= k < full.len() && #[trigger] writes_artifact_at(full, k) implies full[k - 1] == Effect::Perform(Step::RemoveArtifact) && completed(
                Step::RemoveArtifact,
                outcomes[k - 1],
            ) by {
                assert(k == 1);
                assert(!(e is Perform));
                assert(!writes_artifact_at(full, 1));
            }
        }
    }
}

/// The artifact is unlinked before it is written: in any run on a qualifying
/// artifact, whatever the outcomes reported, each write of the artifact file
/// is asked for only right after its removal was asked for and completed
/// (the file was removed or was not there), so every write creates a new
/// file. A path hard-linked to the artifact
/// therefore keeps its content.
pub proof fn lemma_artifact_removed_before_write(
    triplet: Option<Seq<char>>,
    artifact: Seq<u8>,
    stamps: Option<Stamps>,
    outcomes: Seq<Outcome>,
)
    requires
        applicable(triplet, artifact),
    ensures
        ({
            let (s0, e0) = started(triplet, artifact);
            let (s1, e1) = after_stamps(s0, stamps);
            let effects = seq![e0, e1] + run(s1, outcomes).1;
            forall|k: int|
                0 <= k < effects.len() && #[trigger] writes_artifact_at(effects, k) ==> {
                    &&& 2 <= k
                    &&& effects[k - 1] == Effect::Perform(Step::RemoveArtifact)
                    &&& completed(Step::RemoveArtifact, outcomes[k - 2])
                }
        }),
{
    lemma_started_inspects(triplet, artifact);
    reveal(regeneration);
    let (s0, e0) = started(triplet, artifact);
    let (s1, e1) = after_stamps(s0, stamps);
    let es = run(s1, outcomes).1;
    let effects = seq![e0, e1] + es;
    if s1.phase is Running {
        lemma_write_follows_removal(s1, 0, outcomes);
        let full = issued(s1, 0, outcomes);
        assert(effects =~= seq![e0] + full);
        assert forall|k: int|
            0 <= k < effects.len() && #[trigger] writes_artifact_at(effects, k) implies {
            &&& 2 <= k
            &&& effects[k - 1] == Effect::Perform(Step::RemoveArtifact)
            &&& completed(Step::RemoveArtifact, outcomes[k - 2])
        } by {
            assert(effects[0] == e0);
            if k >= 1 {
                assert(effects[k] == full[k - 1]);
                if k == 1 {
                    assert(full[0] == Effect::Perform(regeneration()[0]));
                    assert(!writes_artifact(regeneration()[0]));
                } else {
                    assert(writes_artifact_at(full, k - 1));
                    assert(full[k - 2] == effects[k - 1]);
                }
            }
        }
    } else {
        assert(es.len() == 0);
        assert(effects =~= seq![e0, e1]);
    }
}

/// The effect at `k` stops the run on a failure.
pub open spec fn aborts_at(effects: Seq<Effect>, k: int) -> bool {
    effects[k] is Abort
}

/// A failure ends the run: from any running pipeline, whatever outcomes are
/// reported, an abort is the last effect asked for, and the pipeline is then
/// aborted. Nothing is retried and no later step is asked for.
pub proof fn lemma_abort_ends_run(st: PipelineState, outcomes: Seq<Outcome>)
    requires
        st.phase is Running,
        state_wf(st),
    ensures
        forall|k: int|
            0 <= k < run(st, outcomes).1.len() && #[trigger] aborts_at(run(st, outcomes).1, k)
                ==> k == run(st, outcomes).1.len() - 1 && run(st, outcomes).0.phase
                == Phase::Aborted,
    decreases outcomes.len(),
{
    if outcomes.len() > 0 {
        reveal(after_outcome);
        let (next, e) = after_outcome(st, outcomes[0]);
        let rest = outcomes.drop_first();
        let es = run(st, outcomes).1;
        let tail = run(next, rest).1;
        assert(es == seq![e] + tail);
        if next.phase is Running {
            lemma_abort_ends_run(next, rest);
        }
        assert forall|k: int| 0 <= k < es.len() && #[trigger] aborts_at(es, k) implies k == es.len()
            - 1 && run(st, outcomes).0.phase == Phase::Aborted by {
            if k == 0 {
                assert(es[0] == e);
                assert(tail.len() == 0);
            } else {
                assert(es[k] == tail[k - 1]);
                assert(aborts_at(tail, k - 1));
            }
        }
    }
}

} // verus!

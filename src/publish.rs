use vstd::prelude::*;

verus! {

/// The phases of publishing a plan, run strictly one after another.
#[derive(PartialEq, Eq, Structural, Clone, Copy, Debug)]
pub enum Phase {
    /// Write the new manifest over the old one.
    PublishManifest,
    /// Upload every new or changed file.
    Upload,
    /// Delete every object that the new manifest no longer lists.
    Delete,
    /// All three phases succeeded.
    Done,
    /// A phase failed; the phases after it are not run.
    Failed,
}

/// How the work of a phase ended.
#[derive(PartialEq, Eq, Structural, Clone, Copy, Debug)]
pub enum Outcome {
    Succeeded,
    Failed,
}

/// The phase that follows `p` once its work ended with `o`.
pub open spec fn after(p: Phase, o: Outcome) -> Phase {
    match p {
        Phase::Done => Phase::Done,
        Phase::Failed => Phase::Failed,
        _ => if o == Outcome::Failed {
            Phase::Failed
        } else {
            match p {
                Phase::PublishManifest => Phase::Upload,
                Phase::Upload => Phase::Delete,
                _ => Phase::Done,
            }
        },
    }
}

/// The place of a phase in the order in which publishing goes through them.
pub open spec fn rank(p: Phase) -> int {
    match p {
        Phase::PublishManifest => 0,
        Phase::Upload => 1,
        Phase::Delete => 2,
        Phase::Done => 3,
        Phase::Failed => 4,
    }
}

/// The phases that a publish goes through when the phases end with
/// `outcomes`, one after another, starting with the manifest.
#[verifier::opaque]
pub open spec fn trace(outcomes: Seq<Outcome>) -> Seq<Phase>
    decreases outcomes.len(),
{
    if outcomes.len() == 0 {
        seq![Phase::PublishManifest]
    } else {
        let t = trace(outcomes.drop_last());
        t.push(after(t.last(), outcomes.last()))
    }
}

/// The first phase of every publish.
pub fn first_phase() -> (r: Phase)
    ensures
        r == Phase::PublishManifest,
{
    Phase::PublishManifest
}

/// Whether publishing is over, for good or ill.
pub fn is_finished(p: Phase) -> (r: bool)
    ensures
        r == (p == Phase::Done || p == Phase::Failed),
{
    match p {
        Phase::Done | Phase::Failed => true,
        _ => false,
    }
}

/// The phase that follows `p` once its work ended with `o`: a failure ends
/// publishing, a success moves on to the next phase.
pub fn next_phase(p: Phase, o: Outcome) -> (r: Phase)
    ensures
        r == after(p, o),
{
    match p {
        Phase::Done => Phase::Done,
        Phase::Failed => Phase::Failed,
        _ => match o {
            Outcome::Failed => Phase::Failed,
            Outcome::Succeeded => match p {
                Phase::PublishManifest => Phase::Upload,
                Phase::Upload => Phase::Delete,
                _ => Phase::Done,
            },
        },
    }
}

proof fn lemma_trace_steps(outcomes: Seq<Outcome>)
    ensures
        trace(outcomes).len() == outcomes.len() + 1,
        trace(outcomes)[0] == Phase::PublishManifest,
        forall|k: int|
            0 <= k < outcomes.len() ==> trace(outcomes)[k + 1] == after(
                trace(outcomes)[k],
                #[trigger] outcomes[k],
            ),
    decreases outcomes.len(),
{
    reveal_with_fuel(trace, 2);
    if outcomes.len() > 0 {
        let prev = outcomes.drop_last();
        lemma_trace_steps(prev);
        let t = trace(outcomes);
        assert forall|k: int| 0 <= k < outcomes.len() implies t[k + 1] == after(
            t[k],
            #[trigger] outcomes[k],
        ) by {
            if k < outcomes.len() - 1 {
                assert(prev[k] == outcomes[k]);
                assert(trace(prev)[k + 1] == t[k + 1]);
                assert(trace(prev)[k] == t[k]);
            }
        }
    }
}

proof fn lemma_rank_grows(t: Seq<Phase>, outcomes: Seq<Outcome>, i: int, j: int)
    requires
        t.len() == outcomes.len() + 1,
        forall|k: int| 0 <= k < outcomes.len() ==> t[k + 1] == after(t[k], #[trigger] outcomes[k]),
        0 <= i <= j < t.len(),
    ensures
        rank(t[i]) <= rank(t[j]),
    decreases j - i,
{
    if i < j {
        lemma_rank_grows(t, outcomes, i, j - 1);
        assert(t[j] == after(t[j - 1], outcomes[j - 1]));
    }
}

/// Publishing never returns to an earlier phase; uploads start only once the
/// manifest was written, and deletions only once every upload succeeded. So a
/// reader of the store never finds a listed object deleted, though it may
/// find a listed object not yet uploaded.
pub proof fn lemma_phases_in_order(outcomes: Seq<Outcome>)
    ensures
        trace(outcomes).len() == outcomes.len() + 1,
        trace(outcomes)[0] == Phase::PublishManifest,
        forall|i: int, j: int|
            0 <= i <= j < trace(outcomes).len() ==> rank(#[trigger] trace(outcomes)[i]) <= rank(
                #[trigger] trace(outcomes)[j],
            ),
        forall|k: int|
            0 <= k < outcomes.len() && #[trigger] trace(outcomes)[k + 1] == Phase::Upload
                ==> trace(outcomes)[k] == Phase::PublishManifest && outcomes[k]
                == Outcome::Succeeded,
        forall|k: int|
            0 <= k < outcomes.len() && #[trigger] trace(outcomes)[k + 1] == Phase::Delete
                ==> trace(outcomes)[k] == Phase::Upload && outcomes[k] == Outcome::Succeeded,
{
    lemma_trace_steps(outcomes);
    let t = trace(outcomes);
    assert forall|i: int, j: int| 0 <= i <= j < t.len() implies rank(#[trigger] t[i]) <= rank(
        #[trigger] t[j],
    ) by {
        lemma_rank_grows(t, outcomes, i, j);
    }
    assert forall|k: int| 0 <= k < outcomes.len() && #[trigger] t[k + 1] == Phase::Upload implies t[k]
        == Phase::PublishManifest && outcomes[k] == Outcome::Succeeded by {
        assert(t[k + 1] == after(t[k], outcomes[k]));
    }
    assert forall|k: int| 0 <= k < outcomes.len() && #[trigger] t[k + 1] == Phase::Delete implies t[k]
        == Phase::Upload && outcomes[k] == Outcome::Succeeded by {
        assert(t[k + 1] == after(t[k], outcomes[k]));
    }
}

} // verus!

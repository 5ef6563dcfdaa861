//! What a result says of the change behind it.
use crate::error::DbError;
use crate::memory::commands::{
    CommitMemoryUpdateResult, CommitMemoryUpdateRow, FinalizeMemoryJobSnapshotResult,
};
use crate::memory::commit::{commit_done, CommitOutcome};
use crate::memory::enqueue::queue_changed;
use crate::memory::entries::{counts_by_state, job_in};
use crate::memory::finalize::{finalize_done, FinalizeOutcome};
use crate::memory::leases::{failed_job, optional_step_taken};
use crate::memory::queue::{step_taken, Job, QueueStep};
use crate::memory::rows::{MemoryJobHealthRow, MemoryJobRow};
use crate::memory::store::StoreModel;
use crate::table::{lemma_lookup, lookup, selected};
use crate::text::{lemma_text_order, texts};
use vstd::prelude::*;

verus! {

/// An update that fails changes nothing, one that comes too late changes no more
/// than the queue, and one that is committed says what it wrote and the revision
/// that it came to. Each result comes of its own outcome.
pub proof fn law_commit_says_what_it_did(
    expected: Result<CommitOutcome, DbError<Seq<char>>>,
    result: Result<CommitMemoryUpdateResult, DbError>,
    input: CommitMemoryUpdateRow,
    before: StoreModel,
    after: StoreModel,
)
    requires
        commit_done(expected, result, input, before, after),
    ensures
        result matches Err(error) ==> after == before && expected == Err::<
            CommitOutcome,
            DbError<Seq<char>>,
        >(error@),
        result is Ok ==> expected is Ok,
        result matches Ok(CommitMemoryUpdateResult::Committed {
            revision,
            added_ids,
            refined_ids,
            superseded_ids,
            conflict_ids,
        }) ==> revision == input.expected_revision + 1 && (expected matches Ok(
            CommitOutcome::Committed { store, ledger },
        ) && after == store && texts(added_ids@) == ledger.added && texts(refined_ids@)
            == ledger.refined && texts(superseded_ids@) == ledger.superseded && texts(conflict_ids@)
            == ledger.conflicts),
        expected matches Ok(CommitOutcome::Committed { store, ledger })
            ==> (result matches Ok(CommitMemoryUpdateResult::Committed { .. })),
        result is Ok && !(result matches Ok(CommitMemoryUpdateResult::Committed { .. })) ==> {
            &&& after.entries == before.entries
            &&& after.sources == before.sources
            &&& after.memories == before.memories
            &&& after.change_sets == before.change_sets
            &&& after.settings == before.settings
            &&& after.policies == before.policies
            &&& after.retrievals == before.retrievals
        },
        result matches Ok(CommitMemoryUpdateResult::StaleRevision { current_revision })
            ==> (expected matches Ok(CommitOutcome::StaleRevision { queue, current_revision: number })
            && number == current_revision),
        (result matches Ok(CommitMemoryUpdateResult::SnapshotChanged)) == (expected matches Ok(
            CommitOutcome::SnapshotChanged { .. },
        )),
        (result matches Ok(CommitMemoryUpdateResult::StaleReconciliation)) == (expected matches Ok(
            CommitOutcome::StaleReconciliation { .. },
        )),
{
}

/// A snapshot that is not fixed leaves the jobs as they were, and everything but the
/// queue stays as it was in any case. The job that is given is the one that was fixed.
pub proof fn law_finalization_says_what_it_did(
    expected: Result<FinalizeOutcome, DbError<Seq<char>>>,
    result: Result<FinalizeMemoryJobSnapshotResult, DbError>,
    before: StoreModel,
    after: StoreModel,
)
    requires
        finalize_done(expected, result, before, after),
    ensures
        after == (StoreModel { queue: after.queue, ..before }),
        result matches Err(error) ==> after == before && expected == Err::<
            FinalizeOutcome,
            DbError<Seq<char>>,
        >(error@),
        result matches Ok(FinalizeMemoryJobSnapshotResult::FenceLost) ==> after == before,
        result matches Ok(FinalizeMemoryJobSnapshotResult::SnapshotChanged) ==> after == before,
        !(result matches Ok(FinalizeMemoryJobSnapshotResult::Finalized(_))) ==> after.queue.jobs
            == before.queue.jobs,
        result matches Ok(FinalizeMemoryJobSnapshotResult::Finalized(row)) ==> (expected matches Ok(
            FinalizeOutcome::Finalized { queue, job },
        ) && (*row)@ == job && after.queue == queue),
        (result matches Ok(FinalizeMemoryJobSnapshotResult::FenceLost)) == (expected matches Ok(
            FinalizeOutcome::FenceLost,
        )),
        (result matches Ok(FinalizeMemoryJobSnapshotResult::SnapshotChanged)) == (expected matches Ok(
            FinalizeOutcome::SnapshotChanged,
        )),
        (result matches Ok(FinalizeMemoryJobSnapshotResult::ReconciliationChanged)) == (
        expected matches Ok(FinalizeOutcome::ReconciliationChanged { .. })),
{
}

/// A change of the queue that fails, or that there is nothing to do for, changes
/// nothing; the job that is given is the one that the change left.
pub proof fn law_queue_says_what_it_did(
    enqueued: Result<Option<QueueStep>, DbError<Seq<char>>>,
    taken: Option<Result<QueueStep, DbError<Seq<char>>>>,
    settled: Result<QueueStep, DbError<Seq<char>>>,
    optional: Result<Option<MemoryJobRow>, DbError>,
    given: Result<MemoryJobRow, DbError>,
    before: StoreModel,
    after: StoreModel,
)
    ensures
        queue_changed(enqueued, optional, before, after) ==> {
            &&& after == (StoreModel { queue: after.queue, ..before })
            &&& !(optional matches Ok(Some(_))) ==> after == before
            &&& optional is Err == enqueued is Err
            &&& optional matches Ok(Some(job)) ==> (enqueued matches Ok(Some(step)) && job@
                == step.job && after.queue == step.queue)
            &&& enqueued matches Ok(Some(_)) ==> (optional matches Ok(Some(_)))
        },
        optional_step_taken(taken, optional, before.queue, after.queue) ==> {
            &&& !(optional matches Ok(Some(_))) ==> after.queue == before.queue
            &&& taken is None == (optional matches Ok(None))
            &&& optional matches Ok(Some(job)) ==> (taken matches Some(Ok(step)) && job@ == step.job
                && after.queue == step.queue)
        },
        step_taken(settled, given, before.queue, after.queue) ==> {
            &&& given is Err ==> after.queue == before.queue
            &&& given is Err == settled is Err
            &&& given matches Ok(job) ==> (settled matches Ok(step) && job@ == step.job
                && after.queue == step.queue)
        },
{
}

/// Only a failed job of the user's is retried, and one that is there is found.
pub proof fn law_failed_job_is_found(jobs: Seq<Job>, id: Seq<char>, user: Seq<char>)
    ensures
        lookup(jobs, failed_job(id, user)) matches Some(job) ==> jobs.contains(job) && job.id == id
            && job.user_id == user && job.state == "failed"@,
        forall|i: int|
            0 <= i < jobs.len() && (#[trigger] jobs[i]).id == id && jobs[i].user_id == user
                && jobs[i].state == "failed"@ ==> lookup(jobs, failed_job(id, user)) is Some,
{
    let hit = failed_job(id, user);
    lemma_lookup(jobs, hit);
    assert forall|i: int|
        0 <= i < jobs.len() && (#[trigger] jobs[i]).id == id && jobs[i].user_id == user
            && jobs[i].state == "failed"@ implies lookup(jobs, hit) is Some by {
        assert(hit(jobs[i]));
    }
}

/// The health of a user's jobs names each state that one of them is in once, with the
/// number of the user's jobs in it.
pub proof fn law_health_counts_each_job(
    list: Seq<MemoryJobHealthRow<Seq<char>>>,
    jobs: Seq<Job>,
    user: Seq<char>,
)
    requires
        counts_by_state(list, jobs, user),
    ensures
        forall|i: int|
            0 <= i < list.len() ==> (#[trigger] list[i]).count == jobs.filter(
                |job: Job| job.user_id == user && job.state == list[i].state,
            ).len(),
        forall|i: int| 0 <= i < list.len() ==> (#[trigger] list[i]).count > 0,
        forall|i: int, j: int|
            0 <= i < j < list.len() ==> (#[trigger] list[i]).state != (#[trigger] list[j]).state,
        forall|k: int|
            0 <= k < jobs.len() && (#[trigger] jobs[k]).user_id == user ==> exists|i: int|
                0 <= i < list.len() && (#[trigger] list[i]).state == jobs[k].state,
{
    assert forall|i: int| 0 <= i < list.len() implies (#[trigger] list[i]).count == jobs.filter(
        |job: Job| job.user_id == user && job.state == list[i].state,
    ).len() by {
        let hit = |job: Job| job.user_id == user && job.state == list[i].state;
        assert(job_in(user, list[i].state) =~= hit);
        lemma_selected_is_filter(jobs, hit);
    }
    assert forall|i: int, j: int| 0 <= i < j < list.len() implies (#[trigger] list[i]).state != (
    #[trigger] list[j]).state by {
        lemma_text_order(list[i].state, list[j].state);
    }
}

proof fn lemma_selected_is_filter<V>(rows: Seq<V>, hit: spec_fn(V) -> bool)
    ensures
        selected(rows, hit) == rows.filter(hit),
    decreases rows.len(),
{
    reveal(Seq::filter);
    if rows.len() > 0 {
        lemma_selected_is_filter(rows.drop_last(), hit);
    }
}

} // verus!

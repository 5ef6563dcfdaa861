//! What becomes of a job, told by its fields.
use crate::memory::capture_laws::lemma_claim_order;
use crate::memory::commands::{
    ClaimMemoryJobRow, EnqueueMemoryTurnRow, RenewMemoryLeaseRow, TransitionMemoryJobRow,
};
use crate::memory::enqueue::{
    claim_step, claimable, claimed_before, failed_base, first_job, grow, new_turn, worked_on, Base,
    CaptureGate,
};
use crate::memory::leases::{
    blocked, blocked_of, canceled, earlier_turn, held, job_for, leased, open_jobs, plain_turns,
    recover, renewed, retry, turns_in_order, turns_of, unblocked, verdict, waiting,
};
use crate::memory::queue::{
    absorb, absorbed_by, extended_with, failed_with, requeued_before, settled_alone, in_state,
    join_turns, lemma_absorb_shrinks, older_job, owned, queued_in, requeue, settle, turns_behind,
    with_id, Job, QueueModel, QueueTransition, Turn,
};
use crate::memory::commit_effects::lemma_job_states;
use crate::memory::queue_laws::{distinct_ids, lemma_same_id};
use crate::memory::queued_laws::{law_settle_keeps_one_queued, one_queued_each};
use crate::memory::digest::{appended_digest, input_hash_of};
use crate::text::{hex_fixed, hex_parsed};
use crate::memory::store::{memory_of, StoreModel};
use crate::table::{
    exists_in, law_least, law_listing, law_removed, least, lemma_lookup, lookup, orders, page,
    removed, updated,
};
use crate::text::opt_text;
use vstd::prelude::*;

verus! {

/// Whether a job is the same work as before: of the same conversation, for the
/// same turns, under the same terms, tried as often.
pub open spec fn is_same_work(new: Job, old: Job) -> bool {
    &&& new.id == old.id
    &&& new.user_id == old.user_id
    &&& new.conversation_id == old.conversation_id
    &&& new.from_turn_id == old.from_turn_id
    &&& new.through_turn_id == old.through_turn_id
    &&& new.operation_version == old.operation_version
    &&& new.global_epoch == old.global_epoch
    &&& new.conversation_epoch == old.conversation_epoch
    &&& new.turn_count == old.turn_count
    &&& new.queue_digest == old.queue_digest
    &&& new.input_hash == old.input_hash
    &&& new.attempt_count == old.attempt_count
    &&& new.invalid_output_count == old.invalid_output_count
    &&& new.created_at == old.created_at
}

/// Whether nobody works on a job and nothing of an attempt is left on it.
pub open spec fn is_put_down(job: Job) -> bool {
    &&& job.lease_owner is None
    &&& job.lease_token is None
    &&& job.lease_expires_at is None
    &&& job.reconciliation_snapshot_json is None
}

/// Whether the lease on a job is as it was.
pub open spec fn is_held_as_before(new: Job, old: Job) -> bool {
    &&& new.lease_owner == old.lease_owner
    &&& new.lease_token == old.lease_token
    &&& new.lease_expires_at == old.lease_expires_at
    &&& new.reconciliation_snapshot_json == old.reconciliation_snapshot_json
}

/// Whether a job waits for a worker, now or later.
pub open spec fn waits(job: Job) -> bool {
    job.state == "pending"@ || job.state == "retry_wait"@ || job.state == "blocked"@
}

/// Whether a worker holds a job under a lease that runs.
pub open spec fn is_held_by(
    job: Job,
    id: Seq<char>,
    user_id: Seq<char>,
    worker_id: Seq<char>,
    token: Seq<char>,
    now: i64,
) -> bool {
    &&& job.id == id
    &&& job.user_id == user_id
    &&& job.state == "running"@
    &&& job.lease_owner == Some(worker_id)
    &&& job.lease_token == Some(token)
    &&& job.lease_expires_at is Some
    &&& job.lease_expires_at->0 > now
}

// ----------------------------------------------------------------------------
// Whole sets of jobs
// ----------------------------------------------------------------------------

/// Canceling ends every job of the user, or of one conversation, that is not over
/// yet, and says why; the others stay as they are.
pub proof fn law_cancel_ends_jobs(
    jobs: Seq<Job>,
    user: Seq<char>,
    conversation: Option<Seq<char>>,
    now: i64,
    i: int,
)
    requires
        0 <= i < jobs.len(),
    ensures
        ({
            let after = updated(jobs, open_jobs(user, conversation), canceled(now));
            let old = jobs[i];
            let new = after[i];
            let open = old.user_id == user && (conversation is Some ==> old.conversation_id
                == conversation->0) && (waits(old) || old.state == "running"@ || old.state
                == "failed"@);
            &&& after.len() == jobs.len()
            &&& !open ==> new == old
            &&& open ==> is_same_work(new, old) && is_put_down(new) && new.expected_revision
                == old.expected_revision && new.state == "canceled"@ && new.next_attempt_at is None
                && new.last_error_code == Some("canceled"@) && new.updated_at == now
        }),
{
}

/// Blocking holds back every job of the user that waits for its time, and nothing
/// else; a job that runs goes on.
pub proof fn law_block_holds_jobs_back(jobs: Seq<Job>, user: Seq<char>, now: i64, i: int)
    requires
        0 <= i < jobs.len(),
    ensures
        ({
            let after = updated(jobs, waiting(user), blocked(now));
            let old = jobs[i];
            let new = after[i];
            let hit = old.user_id == user && (old.state == "pending"@ || old.state
                == "retry_wait"@);
            &&& after.len() == jobs.len()
            &&& !hit ==> new == old
            &&& hit ==> is_same_work(new, old) && is_held_as_before(new, old)
                && new.expected_revision == old.expected_revision && new.state == "blocked"@
                && new.next_attempt_at is None && new.last_error_code == old.last_error_code
                && new.updated_at == now
        }),
{
}

/// Unblocking makes every job of the user that was held back wait for a worker
/// again, its error forgotten, and nothing else.
pub proof fn law_unblock_lets_jobs_go(jobs: Seq<Job>, user: Seq<char>, now: i64, i: int)
    requires
        0 <= i < jobs.len(),
    ensures
        ({
            let after = updated(jobs, blocked_of(user), unblocked(now));
            let old = jobs[i];
            let new = after[i];
            let hit = old.user_id == user && old.state == "blocked"@;
            &&& after.len() == jobs.len()
            &&& !hit ==> new == old
            &&& hit ==> is_same_work(new, old) && is_held_as_before(new, old)
                && new.expected_revision == old.expected_revision && new.state == "pending"@
                && new.next_attempt_at is None && new.last_error_code is None && new.updated_at
                == now
        }),
{
}

/// Unblocking gives back what blocking held back: a job of the user that was
/// waiting for a worker waits for one again.
pub proof fn law_unblock_undoes_block(
    jobs: Seq<Job>,
    user: Seq<char>,
    then: i64,
    now: i64,
    i: int,
)
    requires
        0 <= i < jobs.len(),
        jobs[i].user_id == user,
        jobs[i].state == "pending"@,
    ensures
        ({
            let held_back = updated(jobs, waiting(user), blocked(then));
            let after = updated(held_back, blocked_of(user), unblocked(now));
            after[i].state == "pending"@ && is_same_work(after[i], jobs[i])
        }),
{
}

// ----------------------------------------------------------------------------
// Leases
// ----------------------------------------------------------------------------

/// A renewal moves the end of the worker's own running lease, and changes nothing
/// else of any job.
pub proof fn law_renewal_moves_the_end(
    jobs: Seq<Job>,
    input: RenewMemoryLeaseRow,
    end: i64,
    i: int,
)
    requires
        0 <= i < jobs.len(),
    ensures
        ({
            let hit = held(
                input.job_id@,
                input.user_id@,
                input.worker_id@,
                input.lease_token@,
                input.now,
            );
            let after = updated(jobs, hit, renewed(end, input.now));
            let old = jobs[i];
            let new = after[i];
            let own = is_held_by(
                old,
                input.job_id@,
                input.user_id@,
                input.worker_id@,
                input.lease_token@,
                input.now,
            );
            &&& after.len() == jobs.len()
            &&& !own ==> new == old
            &&& own ==> is_same_work(new, old) && new.expected_revision == old.expected_revision
                && new.state == old.state && new.next_attempt_at == old.next_attempt_at
                && new.last_error_code == old.last_error_code && new.lease_owner == old.lease_owner
                && new.lease_token == old.lease_token && new.lease_expires_at == Some(end)
                && new.reconciliation_snapshot_json == old.reconciliation_snapshot_json
                && new.updated_at == input.now
        }),
{
}

/// A lease is valid exactly where the job runs under it and its end is to come.
pub proof fn law_lease_is_valid(
    jobs: Seq<Job>,
    id: Seq<char>,
    user: Seq<char>,
    token: Seq<char>,
    now: i64,
)
    ensures
        exists_in(jobs, leased(id, user, token, now)) <==> exists|i: int|
            0 <= i < jobs.len() && (#[trigger] jobs[i]).id == id && jobs[i].user_id == user
                && jobs[i].state == "running"@ && jobs[i].lease_token == Some(token)
                && jobs[i].lease_expires_at is Some && jobs[i].lease_expires_at->0 > now,
{
    let hit = leased(id, user, token, now);
    if exists_in(jobs, hit) {
        let i = choose|i: int| 0 <= i < jobs.len() && hit(#[trigger] jobs[i]);
        assert(jobs[i].id == id);
    }
    if exists|i: int|
        0 <= i < jobs.len() && (#[trigger] jobs[i]).id == id && jobs[i].user_id == user
            && jobs[i].state == "running"@ && jobs[i].lease_token == Some(token)
            && jobs[i].lease_expires_at is Some && jobs[i].lease_expires_at->0 > now {
        let i = choose|i: int|
            0 <= i < jobs.len() && (#[trigger] jobs[i]).id == id && jobs[i].user_id == user
                && jobs[i].state == "running"@ && jobs[i].lease_token == Some(token)
                && jobs[i].lease_expires_at is Some && jobs[i].lease_expires_at->0 > now;
        assert(hit(jobs[i]));
    }
}

/// A lease that is given back, or a verdict on a job, is heard only from the
/// worker that holds the job.
pub proof fn law_only_the_holder_is_heard(
    jobs: Seq<Job>,
    id: Seq<char>,
    user: Seq<char>,
    worker: Seq<char>,
    token: Seq<char>,
    now: i64,
)
    ensures
        ({
            let found = lookup(jobs, held(id, user, worker, token, now));
            &&& found matches Some(job) ==> jobs.contains(job) && is_held_by(
                job,
                id,
                user,
                worker,
                token,
                now,
            )
            &&& found is None ==> forall|i: int|
                0 <= i < jobs.len() ==> !is_held_by(
                    #[trigger] jobs[i],
                    id,
                    user,
                    worker,
                    token,
                    now,
                )
        }),
{
    let hit = held(id, user, worker, token, now);
    lemma_lookup(jobs, hit);
    assert forall|i: int| 0 <= i < jobs.len() && is_held_by(
        #[trigger] jobs[i],
        id,
        user,
        worker,
        token,
        now,
    ) implies hit(jobs[i]) by {}
}

// ----------------------------------------------------------------------------
// Handing out
// ----------------------------------------------------------------------------

/// Whether a job of the user may be handed out: no job of its conversation failed,
/// and it was abandoned, or it is due and nobody works on its conversation.
pub open spec fn may_be_handed_out(jobs: Seq<Job>, job: Job, user: Seq<char>, now: i64) -> bool {
    &&& job.user_id == user
    &&& forall|k: int|
        0 <= k < jobs.len() && (#[trigger] jobs[k]).user_id == user && jobs[k].conversation_id
            == job.conversation_id ==> jobs[k].state != "failed"@
    &&& {
        ||| job.state == "running"@ && job.lease_expires_at is Some && job.lease_expires_at->0
            <= now
        ||| (job.state == "pending"@ || job.state == "retry_wait"@) && (
        job.next_attempt_at matches Some(time) ==> time <= now) && (job.next_attempt_at is None
            ==> 0 <= now) && forall|k: int|
            0 <= k < jobs.len() && (#[trigger] jobs[k]).user_id == user && jobs[k].conversation_id
                == job.conversation_id && jobs[k].state == "running"@ ==> (
            jobs[k].lease_expires_at matches Some(end) ==> end <= now)
    }
}

/// When it was a job's turn: the time it waited for, or that of its creation.
pub open spec fn its_turn(job: Job) -> i64 {
    if job.next_attempt_at is Some {
        job.next_attempt_at->0
    } else {
        job.created_at
    }
}

/// Whether a job need not give way to another: one that was abandoned goes first,
/// then the one whose turn came first.
pub open spec fn need_not_wait_for(job: Job, other: Job) -> bool {
    &&& other.state == "running"@ ==> job.state == "running"@
    &&& (other.state == "running"@) == (job.state == "running"@) ==> its_turn(job) <= its_turn(
        other,
    )
}

proof fn lemma_claimable(jobs: Seq<Job>, job: Job, user: Seq<char>, now: i64)
    ensures
        claimable(jobs, user, now)(job) == may_be_handed_out(jobs, job, user, now),
{
    let failed = in_state(job.user_id, job.conversation_id, "failed"@);
    let busy = worked_on(job.user_id, job.conversation_id, now);
    if exists_in(jobs, failed) {
        let k = choose|k: int| 0 <= k < jobs.len() && failed(#[trigger] jobs[k]);
        assert(jobs[k].state == "failed"@);
    } else {
        assert forall|k: int|
            0 <= k < jobs.len() && (#[trigger] jobs[k]).user_id == job.user_id
                && jobs[k].conversation_id == job.conversation_id implies jobs[k].state
            != "failed"@ by {
            assert(!failed(jobs[k]));
        }
    }
    if exists_in(jobs, busy) {
        let k = choose|k: int| 0 <= k < jobs.len() && busy(#[trigger] jobs[k]);
        assert(jobs[k].state == "running"@);
    } else {
        assert forall|k: int|
            0 <= k < jobs.len() && (#[trigger] jobs[k]).user_id == job.user_id
                && jobs[k].conversation_id == job.conversation_id && jobs[k].state
                == "running"@ implies (jobs[k].lease_expires_at matches Some(end) ==> end
            <= now) by {
            assert(!busy(jobs[k]));
        }
    }
}

/// A worker is handed a job of the user that may be handed out and need not wait
/// for another such job, with a lease from now for the time it asked for and the
/// revision that is remembered; and it is handed none only where there is none.
pub proof fn law_claim_hands_out_the_next(store: StoreModel, input: ClaimMemoryJobRow)
    requires
        distinct_ids(store.queue.jobs),
    ensures
        claim_step(store, input) matches Ok(Some(step)) ==> exists|k: int|
            #![trigger store.queue.jobs[k]]
            {
                let jobs = store.queue.jobs;
                &&& 0 <= k < jobs.len()
                &&& may_be_handed_out(jobs, jobs[k], input.user_id@, input.now)
                &&& forall|j: int|
                    0 <= j < jobs.len() && may_be_handed_out(
                        jobs,
                        #[trigger] jobs[j],
                        input.user_id@,
                        input.now,
                    ) ==> need_not_wait_for(jobs[k], jobs[j])
                &&& is_same_work(step.job, jobs[k])
                &&& step.job.state == "running"@
                &&& step.job.lease_owner == Some(input.worker_id@)
                &&& step.job.lease_token == Some(input.lease_token@)
                &&& step.job.lease_expires_at is Some
                &&& step.job.lease_expires_at->0 == input.now + input.lease_duration_ms
                &&& step.job.next_attempt_at is None
                &&& step.job.last_error_code == jobs[k].last_error_code
                &&& step.job.updated_at == input.now
                &&& step.queue.turns == store.queue.turns
                &&& step.queue.jobs.len() == jobs.len()
                &&& step.queue.jobs[k] == step.job
                &&& forall|j: int|
                    0 <= j < jobs.len() && j != k ==> #[trigger] step.queue.jobs[j] == jobs[j]
                &&& (forall|m: int|
                    0 <= m < store.memories.len() ==> !((
                    #[trigger] store.memories[m]).user_id == jobs[k].user_id
                        && store.memories[m].conversation_id == jobs[k].conversation_id))
                    ==> step.job.expected_revision == 0
                &&& (exists|m: int|
                    0 <= m < store.memories.len() && (#[trigger] store.memories[m]).user_id
                        == jobs[k].user_id && store.memories[m].conversation_id
                        == jobs[k].conversation_id) ==> exists|m: int|
                    0 <= m < store.memories.len() && (#[trigger] store.memories[m]).user_id
                        == jobs[k].user_id && store.memories[m].conversation_id
                        == jobs[k].conversation_id && store.memories[m].revision
                        == step.job.expected_revision
            },
        claim_step(store, input) matches Ok(None) ==> forall|j: int|
            0 <= j < store.queue.jobs.len() ==> !may_be_handed_out(
                store.queue.jobs,
                #[trigger] store.queue.jobs[j],
                input.user_id@,
                input.now,
            ),
{
    let jobs = store.queue.jobs;
    let hit = claimable(jobs, input.user_id@, input.now);
    lemma_claim_order();
    law_least(jobs, hit, claimed_before());
    assert forall|j: int| 0 <= j < jobs.len() implies hit(#[trigger] jobs[j])
        == may_be_handed_out(jobs, jobs[j], input.user_id@, input.now) by {
        lemma_claimable(jobs, jobs[j], input.user_id@, input.now);
    }
    if let Ok(Some(step)) = claim_step(store, input) {
        let job = least(jobs, hit, claimed_before())->0;
        let k = choose|k: int| 0 <= k < jobs.len() && jobs[k] == job;
        assert(hit(jobs[k]));
        assert forall|j: int|
            0 <= j < jobs.len() && may_be_handed_out(
                jobs,
                #[trigger] jobs[j],
                input.user_id@,
                input.now,
            ) implies need_not_wait_for(jobs[k], jobs[j]) by {
            assert(hit(jobs[j]));
            assert(!claimed_before()(jobs[j], jobs[k]));
        }
        assert forall|j: int| 0 <= j < jobs.len() && j != k implies #[trigger] step.queue.jobs[j]
            == jobs[j] by {
            assert(jobs[j].id != jobs[k].id);
        }
        let own = memory_of(job.user_id, job.conversation_id);
        lemma_lookup(store.memories, own);
        if let Some(row) = lookup(store.memories, own) {
            let m = choose|m: int| 0 <= m < store.memories.len() && store.memories[m] == row;
            assert(store.memories[m].revision == step.job.expected_revision);
        } else {
            assert forall|m: int| 0 <= m < store.memories.len() implies !((
            #[trigger] store.memories[m]).user_id == job.user_id
                && store.memories[m].conversation_id == job.conversation_id) by {
                assert(!own(store.memories[m]));
            }
        }
        assert(jobs[k] == job);
    }
}

// ----------------------------------------------------------------------------
// Verdicts
// ----------------------------------------------------------------------------

/// Whether a job is another one that waits in a running job's conversation.
pub open spec fn waits_behind(job: Job, running: Job) -> bool {
    waits(job) && job.user_id == running.user_id && job.conversation_id == running.conversation_id
}

/// A verdict on a running job leaves it, or the job that took its turns over, in
/// the state that the verdict names, with its error and its counts, put down, and
/// under the terms that it ran under. A job of another conversation stays as it
/// is, and so does one of this conversation that does not wait.
pub proof fn law_verdict_is_carried_out(
    queue: QueueModel,
    running: Job,
    verdict: QueueTransition<Seq<char>>,
)
    requires
        distinct_ids(queue.jobs),
        queue.jobs.contains(running),
        !waits(running),
    ensures
        settle(queue, running, verdict) matches Ok(step) ==> {
            let job = step.job;
            &&& step.queue.jobs.contains(job)
            &&& job.user_id == running.user_id
            &&& job.conversation_id == running.conversation_id
            &&& job.from_turn_id == running.from_turn_id
            &&& job.operation_version == running.operation_version
            &&& job.global_epoch == running.global_epoch
            &&& job.conversation_epoch == running.conversation_epoch
            &&& job.expected_revision == running.expected_revision
            &&& job.state == verdict.state
            &&& job.last_error_code == verdict.error_code
            &&& job.updated_at == verdict.now
            &&& verdict.state != "failed"@ ==> job.next_attempt_at == verdict.next_attempt_at
            &&& is_put_down(job)
            &&& !verdict.increment_attempt ==> job.attempt_count == running.attempt_count
            &&& verdict.increment_attempt && running.attempt_count < i64::MAX ==> job.attempt_count
                == running.attempt_count + 1
            &&& !verdict.increment_invalid_output ==> job.invalid_output_count
                == running.invalid_output_count
            &&& verdict.increment_invalid_output && running.invalid_output_count < i64::MAX
                ==> job.invalid_output_count == running.invalid_output_count + 1
            &&& forall|row: Job|
                row.id != running.id && !waits_behind(row, running) && queue.jobs.contains(row)
                    ==> #[trigger] step.queue.jobs.contains(row)
            &&& forall|row: Job|
                step.queue.jobs.contains(row) && row != job ==> #[trigger] queue.jobs.contains(row)
                    && row.id != running.id
        },
{
    let jobs = queue.jobs;
    let hit = queued_in(running.user_id, running.conversation_id);
    lemma_lookup(jobs, hit);
    if let Ok(step) = settle(queue, running, verdict) {
        let after = step.queue.jobs;
        let r = choose|r: int| 0 <= r < jobs.len() && jobs[r] == running;
        let joins = waits_as(verdict.state) || verdict.state == "failed"@;
        if !joins || lookup(jobs, hit) is None {
            assert(after == updated(jobs, with_id(running.id), settled_alone(running, verdict)));
            assert(after[r] == step.job);
            assert(after.contains(step.job));
            assert forall|row: Job|
                row.id != running.id && !waits_behind(row, running) && jobs.contains(
                    row,
                ) implies #[trigger] after.contains(row) by {
                let i = choose|i: int| 0 <= i < jobs.len() && jobs[i] == row;
                assert(after[i] == row);
            }
            assert forall|row: Job| after.contains(row) && row != step.job
                implies #[trigger] jobs.contains(row) && row.id != running.id by {
                let i = choose|i: int| 0 <= i < after.len() && after[i] == row;
                assert(jobs[i].id == running.id ==> i == r);
                assert(jobs.contains(jobs[i]));
            }
        } else {
            let next = lookup(jobs, hit)->0;
            let both = join_turns(running, next)->Ok_0;
            assert(next.id != running.id) by {
                if next.id == running.id {
                    lemma_same_id(jobs, next, running);
                }
            }
            if verdict.state == "failed"@ {
                let change = failed_with(running, next, both, verdict);
                assert(after == updated(
                    removed(jobs, with_id(next.id)),
                    with_id(running.id),
                    change,
                ) && step.job == change(running));
            } else {
                let change = requeued_before(running, both, verdict);
                assert(after == removed(
                    updated(jobs, with_id(next.id), change),
                    with_id(running.id),
                ) && step.job == change(next));
            }
            lemma_joined_rows(queue, running, next, step.job, after, verdict.state == "failed"@);
        }
    }
}

/// Whether a state is one in which a job waits.
pub open spec fn waits_as(state: Seq<char>) -> bool {
    state == "pending"@ || state == "retry_wait"@ || state == "blocked"@
}

/// Of two jobs that become one, one row is deleted and the other is the new one.
proof fn lemma_joined_rows(
    queue: QueueModel,
    running: Job,
    next: Job,
    job: Job,
    after: Seq<Job>,
    stays: bool,
)
    requires
        distinct_ids(queue.jobs),
        queue.jobs.contains(running),
        queue.jobs.contains(next),
        next.id != running.id,
        waits_behind(next, running),
        stays ==> exists|change: spec_fn(Job) -> Job|
            change(running) == job && after == #[trigger] updated(
                removed(queue.jobs, with_id(next.id)),
                with_id(running.id),
                change,
            ),
        !stays ==> exists|change: spec_fn(Job) -> Job|
            change(next) == job && job.id == next.id && after == removed(
                #[trigger] updated(queue.jobs, with_id(next.id), change),
                with_id(running.id),
            ),
    ensures
        after.contains(job),
        forall|row: Job|
            row.id != running.id && !waits_behind(row, running) && queue.jobs.contains(row)
                ==> #[trigger] after.contains(row),
        forall|row: Job|
            after.contains(row) && row != job ==> #[trigger] queue.jobs.contains(row) && row.id
                != running.id,
{
    let jobs = queue.jobs;
    if stays {
        let change = choose|change: spec_fn(Job) -> Job|
            change(running) == job && after == #[trigger] updated(
                removed(jobs, with_id(next.id)),
                with_id(running.id),
                change,
            );
        let left = removed(jobs, with_id(next.id));
        law_removed(jobs, with_id(next.id));
        assert(left.contains(running));
        let r = choose|r: int| 0 <= r < left.len() && left[r] == running;
        assert(after[r] == job);
        assert forall|row: Job|
            row.id != running.id && !waits_behind(row, running) && jobs.contains(
                row,
            ) implies #[trigger] after.contains(row) by {
            if row.id == next.id {
                lemma_same_id(jobs, row, next);
            }
            assert(left.contains(row));
            let i = choose|i: int| 0 <= i < left.len() && left[i] == row;
            assert(after[i] == row);
        }
        assert forall|row: Job| after.contains(row) && row != job implies #[trigger] jobs.contains(
            row,
        ) && row.id != running.id by {
            let i = choose|i: int| 0 <= i < after.len() && after[i] == row;
            assert(left.contains(left[i]));
            assert(jobs.contains(left[i]));
            if left[i].id == running.id {
                lemma_same_id(jobs, left[i], running);
            }
        }
    } else {
        let change = choose|change: spec_fn(Job) -> Job|
            change(next) == job && job.id == next.id && after == removed(
                #[trigger] updated(jobs, with_id(next.id), change),
                with_id(running.id),
            );
        let changed = updated(jobs, with_id(next.id), change);
        law_removed(changed, with_id(running.id));
        let n = choose|n: int| 0 <= n < jobs.len() && jobs[n] == next;
        assert(changed[n] == job);
        assert(changed.contains(job));
        assert forall|row: Job|
            row.id != running.id && !waits_behind(row, running) && jobs.contains(
                row,
            ) implies #[trigger] after.contains(row) by {
            if row.id == next.id {
                lemma_same_id(jobs, row, next);
            }
            let i = choose|i: int| 0 <= i < jobs.len() && jobs[i] == row;
            assert(changed[i] == row);
            assert(changed.contains(row));
        }
        assert forall|row: Job| after.contains(row) && row != job implies #[trigger] jobs.contains(
            row,
        ) && row.id != running.id by {
            assert(changed.contains(row));
            let i = choose|i: int| 0 <= i < changed.len() && changed[i] == row;
            assert(jobs.contains(jobs[i]));
            if jobs[i].id == next.id {
                lemma_same_id(jobs, jobs[i], next);
            }
        }
    }
}

/// A worker's verdict says what the worker said, and giving a job back says only
/// that it waits again.
pub proof fn law_verdict_says_what_is_given(input: TransitionMemoryJobRow, now: i64)
    ensures
        ({
            let said = verdict(input);
            &&& said.state == input.state@
            &&& said.next_attempt_at == input.next_attempt_at
            &&& said.error_code == opt_text(input.error_code)
            &&& said.increment_attempt == input.increment_attempt
            &&& said.increment_invalid_output == input.increment_invalid_output
            &&& said.now == input.now
        }),
        ({
            let back = requeue(None, now);
            &&& back.state == "pending"@
            &&& back.next_attempt_at is None
            &&& back.error_code is None
            &&& !back.increment_attempt
            &&& !back.increment_invalid_output
            &&& back.now == now
        }),
{
}

/// A failed job is tried again: it waits for a worker at once, its error is
/// forgotten, nothing of the last attempt is left on it, and it has no fewer tries
/// behind it.
pub proof fn law_retry_waits_again(queue: QueueModel, failed: Job, now: i64)
    ensures
        retry(queue, failed, now) matches Ok(step) ==> {
            &&& step.job.id == failed.id
            &&& step.job.user_id == failed.user_id
            &&& step.job.conversation_id == failed.conversation_id
            &&& step.job.from_turn_id == failed.from_turn_id
            &&& step.job.operation_version == failed.operation_version
            &&& step.job.global_epoch == failed.global_epoch
            &&& step.job.conversation_epoch == failed.conversation_epoch
            &&& step.job.expected_revision == failed.expected_revision
            &&& step.job.attempt_count == failed.attempt_count
            &&& step.job.invalid_output_count == failed.invalid_output_count
            &&& step.job.created_at == failed.created_at
            &&& step.job.state == "pending"@
            &&& step.job.next_attempt_at is None
            &&& step.job.last_error_code is None
            &&& step.job.updated_at == now
            &&& is_put_down(step.job)
        },
{
    lemma_absorb_keeps_terms(queue, failed, now);
}

proof fn lemma_absorb_keeps_terms(queue: QueueModel, barrier: Job, now: i64)
    ensures
        absorb(queue, barrier, now) matches Ok(step) ==> step.job.id == barrier.id
            && step.job.user_id == barrier.user_id && step.job.conversation_id
            == barrier.conversation_id && step.job.from_turn_id == barrier.from_turn_id
            && step.job.operation_version == barrier.operation_version && step.job.global_epoch
            == barrier.global_epoch && step.job.conversation_epoch == barrier.conversation_epoch
            && step.job.expected_revision == barrier.expected_revision && step.job.attempt_count
            == barrier.attempt_count && step.job.invalid_output_count
            == barrier.invalid_output_count && step.job.created_at == barrier.created_at
            && step.job.state == barrier.state && step.job.last_error_code
            == barrier.last_error_code,
    decreases queue.jobs.len(),
{
    match least(queue.jobs, absorbed_by(barrier), older_job()) {
        None => {},
        Some(next) => {
            lemma_absorb_shrinks(queue, barrier, next);
            if join_turns(barrier, next) is Ok {
                let both = join_turns(barrier, next)->Ok_0;
                if turns_behind(queue.turns, barrier, next) is Some {
                    let change = extended_with(barrier, next, both, now);
                    let after = QueueModel {
                        jobs: updated(
                            removed(queue.jobs, with_id(next.id)),
                            with_id(barrier.id),
                            change,
                        ),
                        turns: turns_behind(queue.turns, barrier, next)->0,
                    };
                    lemma_absorb_keeps_terms(after, change(barrier), now);
                }
            }
        },
    }
}

// ----------------------------------------------------------------------------
// Looking at jobs
// ----------------------------------------------------------------------------

/// A job is shown to its owner alone, as it is stored, and its turns are shown in
/// order, as many as are asked for, from the first on.
pub proof fn law_job_is_for_its_owner(jobs: Seq<Job>, user: Seq<char>, id: Seq<char>)
    ensures
        job_for(jobs, user, id) matches Ok(Some(job)) ==> jobs.contains(job) && job.id == id
            && job.user_id == user,
        job_for(jobs, user, id) matches Ok(None) ==> forall|i: int|
            0 <= i < jobs.len() ==> (#[trigger] jobs[i]).id != id,
        job_for(jobs, user, id) is Err ==> exists|i: int|
            0 <= i < jobs.len() && (#[trigger] jobs[i]).id == id && jobs[i].user_id != user,
{
    lemma_lookup(jobs, with_id(id));
    lemma_lookup(jobs, owned(id, user));
    if let Some(job) = lookup(jobs, with_id(id)) {
        let i = choose|i: int| 0 <= i < jobs.len() && jobs[i] == job;
        if job.user_id == user {
            assert(owned(id, user)(jobs[i]));
        }
        assert(jobs[i].id == id);
    } else {
        assert forall|i: int| 0 <= i < jobs.len() implies (#[trigger] jobs[i]).id != id by {
            assert(!with_id(id)(jobs[i]));
        }
    }
}

/// The turns of a job are shown as they are stored: only its own, each no later
/// than the next, and all of them where there is room.
pub proof fn law_turns_are_shown(turns: Seq<Turn>, id: Seq<char>, limit: nat)
    ensures
        ({
            let list = plain_turns(page(turns_in_order(turns, id), 0, limit));
            &&& list.len() <= limit
            &&& forall|k: int|
                0 <= k < list.len() ==> (#[trigger] list[k]).job_id == id && exists|i: int|
                    0 <= i < turns.len() && (#[trigger] turns[i]).job_id == id && turns[i].turn_id
                        == list[k].turn_id && turns[i].turn_hash == list[k].turn_hash
                        && turns[i].position == list[k].position
            &&& forall|j: int, k: int|
                0 <= j < k < list.len() ==> (#[trigger] list[j]).position <= (
                #[trigger] list[k]).position
            &&& list.len() < limit ==> forall|i: int|
                0 <= i < turns.len() && (#[trigger] turns[i]).job_id == id ==> exists|k: int|
                    0 <= k < list.len() && (#[trigger] list[k]).turn_id == turns[i].turn_id
                        && list[k].position == turns[i].position
        }),
{
    let hit = turns_of(id);
    let less = earlier_turn();
    let rows = page(turns_in_order(turns, id), 0, limit);
    let list = plain_turns(rows);
    assert(orders(less));
    law_listing(turns, hit, less, 0, limit);
    assert forall|k: int| 0 <= k < list.len() implies (#[trigger] list[k]).job_id == id
        && exists|i: int|
        0 <= i < turns.len() && (#[trigger] turns[i]).job_id == id && turns[i].turn_id
            == list[k].turn_id && turns[i].turn_hash == list[k].turn_hash && turns[i].position
            == list[k].position by {
        assert(turns.contains(rows[k]) && hit(rows[k]));
        let i = choose|i: int| 0 <= i < turns.len() && turns[i] == rows[k];
        assert(turns[i].job_id == id);
    }
    assert forall|j: int, k: int| 0 <= j < k < list.len() implies (#[trigger] list[j]).position <= (
    #[trigger] list[k]).position by {
        assert(!less(rows[k], rows[j]));
    }
    if list.len() < limit {
        assert forall|i: int| 0 <= i < turns.len() && (#[trigger] turns[i]).job_id == id
            implies exists|k: int|
            0 <= k < list.len() && (#[trigger] list[k]).turn_id == turns[i].turn_id
                && list[k].position == turns[i].position by {
            assert(hit(turns[i]));
            assert(turns.contains(turns[i]));
            assert(rows.contains(turns[i]));
            let k = choose|k: int| 0 <= k < rows.len() && rows[k] == turns[i];
            assert(list[k].turn_id == turns[i].turn_id);
        }
    }
}

// ----------------------------------------------------------------------------
// Queuing
// ----------------------------------------------------------------------------

/// A job that is made for a turn is the user's, waits for a worker, covers that
/// turn alone, was never tried and is held by nobody; it is to be worked on under
/// the epochs that hold and on the revision that it starts from.
pub proof fn law_first_job_waits(
    hash: Seq<char>,
    input: EnqueueMemoryTurnRow,
    gate: CaptureGate,
    base: Base,
)
    ensures
        ({
            let job = first_job(hash, input, gate, base);
            &&& job.id == input.id@
            &&& job.user_id == input.user_id@
            &&& job.conversation_id == input.conversation_id@
            &&& job.from_turn_id == base.from_turn_id
            &&& job.through_turn_id == input.through_turn_id@
            &&& job.operation_version == input.operation_version@
            &&& job.global_epoch == gate.global_epoch
            &&& job.conversation_epoch == gate.conversation_epoch
            &&& job.turn_count == 1
            &&& job.expected_revision == base.revision
            &&& job.state == "pending"@
            &&& job.attempt_count == 0
            &&& job.invalid_output_count == 0
            &&& job.next_attempt_at is None
            &&& job.last_error_code is None
            &&& is_put_down(job)
            &&& job.created_at == input.now
            &&& job.updated_at == input.now
        }),
        ({
            let turn = new_turn(input.id@, 0, hash, input);
            &&& turn.job_id == input.id@
            &&& turn.user_id == input.user_id@
            &&& turn.conversation_id == input.conversation_id@
            &&& turn.operation_version == input.operation_version@
            &&& turn.position == 0
            &&& turn.turn_id == input.through_turn_id@
            &&& turn.turn_hash == hash
        }),
{
}

/// A job that takes a turn in reaches one turn further, to that turn, and waits
/// for a worker at once; a failed one stays failed, for the reason that it failed.
pub proof fn law_job_grows_by_one(
    queue: QueueModel,
    target: Job,
    hash: Seq<char>,
    input: EnqueueMemoryTurnRow,
    gate: CaptureGate,
    base: Base,
)
    ensures
        grow(queue, target, hash, input, gate, base) matches Ok(step) ==> {
            &&& step.job.id == target.id
            &&& step.job.user_id == target.user_id
            &&& step.job.conversation_id == target.conversation_id
            &&& step.job.from_turn_id == base.from_turn_id
            &&& step.job.through_turn_id == input.through_turn_id@
            &&& step.job.operation_version == input.operation_version@
            &&& step.job.global_epoch == gate.global_epoch
            &&& step.job.conversation_epoch == gate.conversation_epoch
            &&& step.job.turn_count == target.turn_count + 1
            &&& step.job.expected_revision == base.revision
            &&& step.job.attempt_count == target.attempt_count
            &&& step.job.invalid_output_count == target.invalid_output_count
            &&& target.state == "failed"@ ==> step.job.state == "failed"@
                && step.job.last_error_code == target.last_error_code
            &&& target.state != "failed"@ ==> step.job.state == "pending"@
                && step.job.last_error_code is None
            &&& step.job.next_attempt_at is None
            &&& step.job.created_at == target.created_at
            &&& step.job.updated_at == input.now
            &&& step.queue.jobs.len() == queue.jobs.len()
            &&& forall|i: int|
                0 <= i < queue.jobs.len() && (queue.jobs[i].id != target.id
                    || queue.jobs[i].user_id != input.user_id@) ==> #[trigger] step.queue.jobs[i]
                    == queue.jobs[i]
            &&& step.queue.turns.len() == queue.turns.len() + 1
            &&& step.queue.turns.last().turn_id == input.through_turn_id@
            &&& step.queue.turns.last().job_id == target.id
            &&& step.queue.turns.last().position == target.turn_count
            &&& step.queue.turns.last().turn_hash == hash
        },
{
}

/// Recovery puts back exactly the jobs whose lease ran out: none of them runs any
/// more, and every other job that runs goes on as it is.
pub proof fn law_recovery_puts_jobs_back(queue: QueueModel, list: Seq<Job>, now: i64)
    requires
        one_queued_each(queue.jobs),
        distinct_ids(queue.jobs),
        list.no_duplicates(),
        forall|i: int|
            0 <= i < list.len() ==> queue.jobs.contains(#[trigger] list[i]) && list[i].state
                == "running"@,
    ensures
        recover(queue, list, now) matches Ok(after) ==> {
            &&& distinct_ids(after.jobs)
            &&& one_queued_each(after.jobs)
            &&& forall|row: Job|
                row.state == "running"@ && #[trigger] after.jobs.contains(row)
                    ==> queue.jobs.contains(row) && !list.contains(row)
            &&& forall|row: Job|
                row.state == "running"@ && !list.contains(row) && #[trigger] queue.jobs.contains(
                    row,
                ) ==> after.jobs.contains(row)
        },
    decreases list.len(),
{
    lemma_job_states();
    if list.len() > 0 {
        let head = list.drop_last();
        let job = list[list.len() - 1];
        assert(job == list.last());
        assert forall|i: int| 0 <= i < head.len() implies queue.jobs.contains(#[trigger] head[i])
            && head[i].state == "running"@ by {
            assert(head[i] == list[i]);
        }
        law_recovery_puts_jobs_back(queue, head, now);
        assert(!head.contains(job)) by {
            if head.contains(job) {
                let k = choose|k: int| 0 <= k < head.len() && head[k] == job;
                assert(list[k] == list[list.len() - 1]);
            }
        }
        assert forall|row: Job| #[trigger] list.contains(row) == (head.contains(row) || row
            == job) by {
            if list.contains(row) {
                let k = choose|k: int| 0 <= k < list.len() && list[k] == row;
                if k < head.len() {
                    assert(head[k] == row);
                }
            }
            if head.contains(row) {
                let k = choose|k: int| 0 <= k < head.len() && head[k] == row;
                assert(list[k] == row);
            }
        }
        if let Ok(next) = recover(queue, head, now) {
            let verdict = requeue(job.last_error_code, now);
            assert(next.jobs.contains(job));
            let k = choose|k: int| 0 <= k < next.jobs.len() && next.jobs[k] == job;
            assert forall|i: int|
                0 <= i < next.jobs.len() && (#[trigger] next.jobs[i]).id == job.id implies i
                == k by {
                assert(next.jobs[k].id == job.id);
            }
            law_verdict_is_carried_out(next, job, verdict);
            law_settle_keeps_one_queued(next, job, verdict);
            if let Ok(step) = settle(next, job, verdict) {
                let after = step.queue.jobs;
                assert forall|row: Job|
                    row.state == "running"@ && #[trigger] after.contains(
                        row,
                    ) implies queue.jobs.contains(row) && !list.contains(row) by {
                    assert(row != step.job);
                    assert(next.jobs.contains(row));
                }
                assert forall|row: Job|
                    row.state == "running"@ && !list.contains(row)
                        && #[trigger] queue.jobs.contains(row) implies after.contains(row) by {
                    assert(next.jobs.contains(row));
                    if row.id == job.id {
                        lemma_same_id(next.jobs, row, job);
                        assert(list.contains(row));
                    }
                    assert(!waits_behind(row, job));
                }
            }
        }
    }
}

/// A failed job that takes turns in starts where it started, on its revision; where
/// it started at the beginning, it starts as the others do.
pub proof fn law_failed_job_keeps_its_start(failed: Job, others: Base)
    ensures
        failed.from_turn_id is Some ==> failed_base(failed, others).from_turn_id
            == failed.from_turn_id,
        failed.from_turn_id is None ==> failed_base(failed, others).from_turn_id
            == others.from_turn_id,
        failed_base(failed, others).revision == failed.expected_revision,
{
}

/// What a job is hashed as is what it then is: its own terms, its turns and their
/// digest.
pub proof fn law_hash_is_of_the_job(
    queue: QueueModel,
    target: Job,
    hash: Seq<char>,
    input: EnqueueMemoryTurnRow,
    gate: CaptureGate,
    base: Base,
    verdict: QueueTransition<Seq<char>>,
)
    ensures
        is_hashed_as_it_is(first_job(hash, input, gate, base)),
        grow(queue, target, hash, input, gate, base) matches Ok(step) ==> is_hashed_as_it_is(
            step.job,
        ),
        settle(queue, target, verdict) matches Ok(step) ==> is_hashed_as_it_is(step.job) || (
        step.job.input_hash == target.input_hash && step.job.queue_digest == target.queue_digest
            && step.job.turn_count == target.turn_count),
{
    let job = first_job(hash, input, gate, base);
    let digest = appended_digest(0, input.through_turn_id@, hash);
    assert(is_hashed_with(job, digest));
    if let Ok(step) = grow(queue, target, hash, input, gate, base) {
        let current = hex_parsed(target.queue_digest)->0;
        let both = appended_digest(current, input.through_turn_id@, hash);
        assert(is_hashed_with(step.job, both));
    }
    if let Ok(step) = settle(queue, target, verdict) {
        let next = lookup(queue.jobs, queued_in(target.user_id, target.conversation_id));
        if (waits_as(verdict.state) || verdict.state == "failed"@) && next is Some {
            let both = join_turns(target, next->0)->Ok_0;
            assert(is_hashed_with(step.job, both.digest));
        }
    }
}

/// Whether a job's hash is that of its own terms, with a digest that it has.
pub open spec fn is_hashed_as_it_is(job: Job) -> bool {
    exists|digest: int| #[trigger] is_hashed_with(job, digest)
}

/// Whether a job's hash is that of its own terms with a digest.
pub open spec fn is_hashed_with(job: Job, digest: int) -> bool {
    &&& job.queue_digest == hex_fixed(digest as nat, 32)
    &&& job.input_hash == input_hash_of(
        job.operation_version,
        job.global_epoch,
        job.conversation_epoch,
        job.from_turn_id,
        job.turn_count,
        digest,
    )
}

} // verus!

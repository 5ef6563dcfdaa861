//! What queuing promises of a conversation: no turn is queued twice, and at most
//! one job is queued.
use crate::error::DbError;
use crate::memory::capture_laws::{law_enqueue_appends_turn, lemma_added_turn, turns_waiting};
use crate::memory::commands::{
    ClaimMemoryJobRow, CommitMemoryUpdateRow, EnqueueMemoryTurnRow, FinalizeMemoryJobSnapshotRow,
    SplitMemoryJobRow,
};
use crate::memory::commit::{jobs_after, rebased_on, running_job, succeeded};
use crate::memory::digest::{appended_digest, joined_digest};
use crate::memory::enqueue::{
    claim_step, claimable, claimed_before, enqueue_step, enqueue_turn, failed_base, first_job,
    gate_of, grow, grown, handed_to, queue_base, revision_of, same_turn, Base, CaptureGate,
};
use crate::memory::evidence::snapshot_of;
use crate::memory::finalize::{finalize_step, fixed, seen_digest, snapshot_turns, FinalizeOutcome};
use crate::memory::leases::{
    blocked, blocked_of, canceled, leased, open_jobs, recover, retried, retry, unblocked, waiting,
};
use crate::memory::queue::{
    absorb, absorbed_by, extended_with, failed_with, in_state, is_queued, join_turns,
    joins_successor, lemma_absorb_shrinks, older_job, owned, queued_in, requeue, requeued_before,
    settle, settled_alone, turns_behind, with_id, Job, QueueModel, QueueStep, QueueTransition,
};
use crate::memory::queue_laws::{
    covers, distinct_ids, law_absorb_keeps_turns, lemma_member_sound, lemma_removed_rows,
    lemma_same_id, sound, turns_of_job,
};
use crate::memory::rows::ConversationMemoryRow;
use crate::memory::split::{preceded_by_rest, rest_job, shortened, split_at, split_step};
use crate::memory::store::{memory_of, policy_of, settings_of, StoreModel};
use crate::table::{
    exists_in, least, lemma_least_found, lemma_least_selected, lemma_lookup, lookup, removed,
    updated,
};
use crate::text::hex_parsed;
use vstd::prelude::*;

verus! {

/// Whether each conversation has at most one queued job.
pub open spec fn one_queued_each(jobs: Seq<Job>) -> bool {
    forall|i: int, j: int|
        0 <= i < j < jobs.len() && is_queued((#[trigger] jobs[i]).state) && is_queued(
            (#[trigger] jobs[j]).state,
        ) ==> jobs[i].user_id != jobs[j].user_id || jobs[i].conversation_id
            != jobs[j].conversation_id
}

/// The states that are not queued.
proof fn lemma_states()
    ensures
        !is_queued("failed"@),
        !is_queued("running"@),
        !is_queued("canceled"@),
        !is_queued("succeeded"@),
        is_queued("pending"@),
        is_queued("blocked"@),
        "running"@ != "failed"@,
        "pending"@ != "failed"@,
{
    reveal_strlit("failed");
    reveal_strlit("running");
    reveal_strlit("canceled");
    reveal_strlit("succeeded");
    reveal_strlit("pending");
    reveal_strlit("retry_wait");
    reveal_strlit("blocked");
    assert("failed"@.len() == 6 && "canceled"@.len() == 8 && "succeeded"@.len() == 9);
    assert("pending"@.len() == 7 && "retry_wait"@.len() == 10 && "blocked"@.len() == 7);
    assert("running"@.len() == 7 && "running"@[0] == 'r' && "pending"@[0] == 'p' && "blocked"@[0]
        == 'b');
}

/// Deleting jobs leaves at most one queued job in each conversation.
proof fn lemma_removed_one_queued(jobs: Seq<Job>, hit: spec_fn(Job) -> bool)
    requires
        one_queued_each(jobs),
    ensures
        one_queued_each(removed(jobs, hit)),
        forall|k: int|
            0 <= k < removed(jobs, hit).len() ==> jobs.contains(#[trigger] removed(jobs, hit)[k]),
    decreases jobs.len(),
{
    if jobs.len() > 0 {
        let head = jobs.drop_last();
        let rest = removed(head, hit);
        let kept = removed(jobs, hit);
        assert(one_queued_each(head)) by {
            assert forall|i: int, j: int|
                0 <= i < j < head.len() && is_queued((#[trigger] head[i]).state) && is_queued(
                    (#[trigger] head[j]).state,
                ) implies head[i].user_id != head[j].user_id || head[i].conversation_id
                != head[j].conversation_id by {
                assert(head[i] == jobs[i] && head[j] == jobs[j]);
            }
        }
        lemma_removed_one_queued(head, hit);
        assert forall|k: int| 0 <= k < kept.len() implies jobs.contains(#[trigger] kept[k]) by {
            if k < rest.len() {
                assert(kept[k] == rest[k]);
                let i = choose|i: int| 0 <= i < head.len() && head[i] == rest[k];
                assert(jobs[i] == kept[k]);
            } else {
                assert(jobs[jobs.len() - 1] == kept[k]);
            }
        }
        assert forall|i: int, j: int|
            0 <= i < j < kept.len() && is_queued((#[trigger] kept[i]).state) && is_queued(
                (#[trigger] kept[j]).state,
            ) implies kept[i].user_id != kept[j].user_id || kept[i].conversation_id
            != kept[j].conversation_id by {
            assert(kept[i] == rest[i]);
            if j < rest.len() {
                assert(kept[j] == rest[j]);
            } else {
                let k = choose|k: int| 0 <= k < head.len() && head[k] == rest[i];
                assert(jobs[k] == kept[i] && jobs[jobs.len() - 1] == kept[j]);
            }
        }
    }
}

/// Changing jobs so that none is queued that was not leaves at most one queued
/// job in each conversation.
proof fn lemma_updated_one_queued(
    jobs: Seq<Job>,
    hit: spec_fn(Job) -> bool,
    change: spec_fn(Job) -> Job,
)
    requires
        one_queued_each(jobs),
        forall|job: Job|
            hit(job) && jobs.contains(job) ==> (#[trigger] change(job)).user_id == job.user_id
                && change(job).conversation_id == job.conversation_id && (is_queued(
                change(job).state,
            ) ==> is_queued(job.state)),
    ensures
        one_queued_each(updated(jobs, hit, change)),
{
    let after = updated(jobs, hit, change);
    assert forall|i: int, j: int|
        0 <= i < j < after.len() && is_queued((#[trigger] after[i]).state) && is_queued(
            (#[trigger] after[j]).state,
        ) implies after[i].user_id != after[j].user_id || after[i].conversation_id
        != after[j].conversation_id by {
        assert(jobs.contains(jobs[i]) && jobs.contains(jobs[j]));
        assert(is_queued(jobs[i].state) && is_queued(jobs[j].state));
    }
}

/// Where a conversation has no queued job, one of its jobs may become queued.
proof fn lemma_updated_first_queued(
    jobs: Seq<Job>,
    id: Seq<char>,
    change: spec_fn(Job) -> Job,
    user_id: Seq<char>,
    conversation_id: Seq<char>,
)
    requires
        one_queued_each(jobs),
        distinct_ids(jobs),
        lookup(jobs, queued_in(user_id, conversation_id)) is None,
        forall|i: int|
            0 <= i < jobs.len() && (#[trigger] jobs[i]).id == id ==> jobs[i].user_id == user_id
                && jobs[i].conversation_id == conversation_id,
        forall|job: Job| (#[trigger] change(job)).user_id == job.user_id,
        forall|job: Job| (#[trigger] change(job)).conversation_id == job.conversation_id,
    ensures
        one_queued_each(updated(jobs, with_id(id), change)),
{
    let after = updated(jobs, with_id(id), change);
    lemma_lookup(jobs, queued_in(user_id, conversation_id));
    assert forall|i: int, j: int|
        0 <= i < j < after.len() && is_queued((#[trigger] after[i]).state) && is_queued(
            (#[trigger] after[j]).state,
        ) implies after[i].user_id != after[j].user_id || after[i].conversation_id
        != after[j].conversation_id by {
        assert(jobs[i].id != jobs[j].id);
        assert(!queued_in(user_id, conversation_id)(jobs[i]));
        assert(!queued_in(user_id, conversation_id)(jobs[j]));
    }
}

/// Where a conversation has no queued job, one may be added.
proof fn lemma_pushed_one_queued(jobs: Seq<Job>, job: Job)
    requires
        one_queued_each(jobs),
        lookup(jobs, queued_in(job.user_id, job.conversation_id)) is None,
    ensures
        one_queued_each(jobs.push(job)),
{
    let after = jobs.push(job);
    lemma_lookup(jobs, queued_in(job.user_id, job.conversation_id));
    assert forall|i: int, j: int|
        0 <= i < j < after.len() && is_queued((#[trigger] after[i]).state) && is_queued(
            (#[trigger] after[j]).state,
        ) implies after[i].user_id != after[j].user_id || after[i].conversation_id
        != after[j].conversation_id by {
        assert(after[i] == jobs[i]);
        if j < jobs.len() {
            assert(after[j] == jobs[j]);
        } else {
            assert(!queued_in(job.user_id, job.conversation_id)(jobs[i]));
        }
    }
}

// ----------------------------------------------------------------------------
// Queuing a turn
// ----------------------------------------------------------------------------

/// A turn counts once: queuing it again, whatever the time and the id offered
/// for a new job, comes to nothing.
pub proof fn law_enqueue_counts_once(
    store: StoreModel,
    input: EnqueueMemoryTurnRow,
    again: EnqueueMemoryTurnRow,
)
    requires
        again.user_id@ == input.user_id@,
        again.conversation_id@ == input.conversation_id@,
        again.operation_version@ == input.operation_version@,
        again.through_turn_id@ == input.through_turn_id@,
    ensures
        enqueue_step(store, input) matches Ok(Some(step)) ==> (enqueue_step(
            (StoreModel { queue: step.queue, ..store }),
            again,
        ) matches Ok(None)),
{
    if let Ok(Some(step)) = enqueue_step(store, input) {
        let turns = step.queue.turns;
        assert(turns.len() > 0);
        assert(same_turn(again)(turns[turns.len() - 1]));
        assert(exists_in(turns, same_turn(again)));
    }
}

/// Whether a turn came to stand in the queued job of its conversation, or else in
/// a new one: that job waits to be claimed, ends with the turn, and covers the
/// turns that waited before it and then the turn.
pub open spec fn joins_queued_job(
    queue: QueueModel,
    step: QueueStep,
    input: EnqueueMemoryTurnRow,
    hash: Seq<char>,
) -> bool {
    let queued = lookup(queue.jobs, queued_in(input.user_id@, input.conversation_id@));
    let before = match queued {
        Some(job) => turns_of_job(queue, job),
        None => Seq::empty(),
    };
    &&& step.queue.jobs.contains(step.job)
    &&& step.job.id == match queued {
        Some(job) => job.id,
        None => input.id@,
    }
    &&& step.job.state == "pending"@
    &&& step.job.through_turn_id == input.through_turn_id@
    &&& turns_of_job(step.queue, step.job) == before.push((input.through_turn_id@, hash))
    &&& step.job.turn_count == turns_of_job(step.queue, step.job).len()
}

/// Where no job of the conversation has failed, a turn that is queued comes to
/// stand in the one queued job, behind the turns that waited already, or else in
/// a new job.
pub proof fn law_enqueue_joins_queued_job(store: StoreModel, input: EnqueueMemoryTurnRow)
    requires
        sound(store.queue),
        exists_in(store.queue.jobs, with_id(input.id@)) || covers(
            store.queue.turns,
            input.id@,
            0,
        ),
        least(
            store.queue.jobs,
            in_state(input.user_id@, input.conversation_id@, "failed"@),
            older_job(),
        ) is None,
    ensures
        enqueue_step(store, input) matches Ok(Some(step)) ==> (snapshot_of(
            store.messages,
            input.conversation_id@,
            input.through_turn_id@,
        ) matches Ok(snapshot) && joins_queued_job(store.queue, step, input, snapshot.hash)),
{
    if let Ok(Some(step)) = enqueue_step(store, input) {
        let queue = store.queue;
        let memory = lookup(store.memories, memory_of(input.user_id@, input.conversation_id@));
        let settings = lookup(store.settings, settings_of(input.user_id@))->0;
        let gate = gate_of(
            settings,
            lookup(store.policies, policy_of(input.user_id@, input.conversation_id@)),
        );
        let snapshot = snapshot_of(
            store.messages,
            input.conversation_id@,
            input.through_turn_id@,
        )->Ok_0;
        let hash = snapshot.hash;
        assert(enqueue_turn(queue, memory, hash, input, gate) == Ok::<_, DbError<Seq<char>>>(step));
        lemma_enqueue_target(queue, memory, hash, input, gate);
        assert(step.queue.jobs.contains(step.job) && turns_of_job(step.queue, step.job)
            == turns_waiting(queue, input).push((input.through_turn_id@, hash))
            && step.job.turn_count >= 0) by {
            law_enqueue_appends_turn(queue, memory, hash, input, gate);
            lemma_member_sound(step.queue, step.job);
        }
    }
}

/// Where no job of the conversation has failed, a turn goes to the queued job,
/// or else to a new one.
proof fn lemma_enqueue_target(
    queue: QueueModel,
    memory: Option<ConversationMemoryRow<Seq<char>>>,
    hash: Seq<char>,
    input: EnqueueMemoryTurnRow,
    gate: CaptureGate,
)
    requires
        least(
            queue.jobs,
            in_state(input.user_id@, input.conversation_id@, "failed"@),
            older_job(),
        ) is None,
    ensures
        enqueue_turn(queue, memory, hash, input, gate) matches Ok(step) ==> {
            &&& step.job.id == match lookup(
                queue.jobs,
                queued_in(input.user_id@, input.conversation_id@),
            ) {
                Some(job) => job.id,
                None => input.id@,
            }
            &&& step.job.state == "pending"@
            &&& step.job.through_turn_id == input.through_turn_id@
        },
{
    lemma_states();
    lemma_lookup(queue.jobs, queued_in(input.user_id@, input.conversation_id@));
}

/// Where no job of the conversation has failed, queuing a turn leaves a running
/// job as it is, with its turns.
pub proof fn law_enqueue_leaves_running_job(
    store: StoreModel,
    input: EnqueueMemoryTurnRow,
    job: Job,
)
    requires
        sound(store.queue),
        least(
            store.queue.jobs,
            in_state(input.user_id@, input.conversation_id@, "failed"@),
            older_job(),
        ) is None,
        store.queue.jobs.contains(job),
        job.state == "running"@,
    ensures
        enqueue_step(store, input) matches Ok(Some(step)) ==> step.queue.jobs.contains(job)
            && turns_of_job(step.queue, job) == turns_of_job(store.queue, job),
{
    if let Ok(Some(step)) = enqueue_step(store, input) {
        let memory = lookup(store.memories, memory_of(input.user_id@, input.conversation_id@));
        let settings = lookup(store.settings, settings_of(input.user_id@))->0;
        let gate = gate_of(
            settings,
            lookup(store.policies, policy_of(input.user_id@, input.conversation_id@)),
        );
        let hash = snapshot_of(
            store.messages,
            input.conversation_id@,
            input.through_turn_id@,
        )->Ok_0.hash;
        lemma_enqueue_leaves_running(store.queue, memory, hash, input, gate, job);
    }
}

proof fn lemma_enqueue_leaves_running(
    queue: QueueModel,
    memory: Option<ConversationMemoryRow<Seq<char>>>,
    hash: Seq<char>,
    input: EnqueueMemoryTurnRow,
    gate: CaptureGate,
    job: Job,
)
    requires
        sound(queue),
        least(
            queue.jobs,
            in_state(input.user_id@, input.conversation_id@, "failed"@),
            older_job(),
        ) is None,
        queue.jobs.contains(job),
        job.state == "running"@,
    ensures
        enqueue_turn(queue, memory, hash, input, gate) matches Ok(step)
            ==> step.queue.jobs.contains(job) && turns_of_job(step.queue, job) == turns_of_job(
            queue,
            job,
        ),
{
    lemma_states();
    let hit = queued_in(input.user_id@, input.conversation_id@);
    lemma_lookup(queue.jobs, hit);
    lemma_member_sound(queue, job);
    if let Ok(step) = enqueue_turn(queue, memory, hash, input, gate) {
        let turn = step.queue.turns[step.queue.turns.len() - 1];
        let k = choose|k: int| 0 <= k < queue.jobs.len() && queue.jobs[k] == job;
        match lookup(queue.jobs, hit) {
            Some(next) => {
                if job.id == next.id {
                    lemma_same_id(queue.jobs, job, next);
                }
                assert(step.queue.turns =~= queue.turns.push(turn));
                assert(step.queue.jobs[k] == job);
            },
            None => {
                if job.id == input.id@ {
                    assert(with_id(input.id@)(queue.jobs[k]));
                }
                assert(step.queue.turns =~= queue.turns.push(turn));
                assert(step.queue.jobs[k] == job);
            },
        }
        lemma_added_turn(queue.turns, turn, job.id, job.turn_count as int);
    }
}

/// Taking jobs into a failed one keeps at most one queued job in each
/// conversation, and the failed job failed.
proof fn lemma_absorb_one_queued(queue: QueueModel, barrier: Job, now: i64)
    requires
        one_queued_each(queue.jobs),
    ensures
        absorb(queue, barrier, now) matches Ok(step) ==> one_queued_each(step.queue.jobs)
            && step.job.state == barrier.state && step.job.user_id == barrier.user_id
            && step.job.conversation_id == barrier.conversation_id && step.job.id == barrier.id,
    decreases queue.jobs.len(),
{
    match least(queue.jobs, absorbed_by(barrier), older_job()) {
        None => {},
        Some(next) => {
            lemma_absorb_shrinks(queue, barrier, next);
            match join_turns(barrier, next) {
                Err(_) => {},
                Ok(both) => match turns_behind(queue.turns, barrier, next) {
                    None => {},
                    Some(turns) => {
                        let change = extended_with(barrier, next, both, now);
                        let left = removed(queue.jobs, with_id(next.id));
                        lemma_removed_one_queued(queue.jobs, with_id(next.id));
                        lemma_updated_one_queued(left, with_id(barrier.id), change);
                        lemma_absorb_one_queued(
                            QueueModel { jobs: updated(left, with_id(barrier.id), change), turns },
                            change(barrier),
                            now,
                        );
                    },
                },
            }
        },
    }
}

/// Queuing a turn keeps at most one queued job in each conversation.
pub proof fn law_enqueue_keeps_one_queued(store: StoreModel, input: EnqueueMemoryTurnRow)
    requires
        sound(store.queue),
        one_queued_each(store.queue.jobs),
    ensures
        enqueue_step(store, input) matches Ok(Some(step)) ==> one_queued_each(step.queue.jobs),
{
    if let Ok(Some(step)) = enqueue_step(store, input) {
        let memory = lookup(store.memories, memory_of(input.user_id@, input.conversation_id@));
        let settings = lookup(store.settings, settings_of(input.user_id@))->0;
        let gate = gate_of(
            settings,
            lookup(store.policies, policy_of(input.user_id@, input.conversation_id@)),
        );
        let hash = snapshot_of(
            store.messages,
            input.conversation_id@,
            input.through_turn_id@,
        )->Ok_0.hash;
        lemma_enqueue_one_queued(store.queue, memory, hash, input, gate);
    }
}

proof fn lemma_enqueue_one_queued(
    queue: QueueModel,
    memory: Option<ConversationMemoryRow<Seq<char>>>,
    hash: Seq<char>,
    input: EnqueueMemoryTurnRow,
    gate: CaptureGate,
)
    requires
        sound(queue),
        one_queued_each(queue.jobs),
    ensures
        enqueue_turn(queue, memory, hash, input, gate) matches Ok(step) ==> one_queued_each(
            step.queue.jobs,
        ),
{
    lemma_states();
    let user = input.user_id@;
    let conversation = input.conversation_id@;
    let base = queue_base(lookup(queue.jobs, in_state(user, conversation, "running"@)), memory);
    let gone = in_state(user, conversation, "failed"@);
    if let Ok(step) = enqueue_turn(queue, memory, hash, input, gate) {
        match least(queue.jobs, gone, older_job()) {
            Some(failed) => {
                lemma_least_selected(queue.jobs, gone, older_job());
                lemma_absorb_one_queued(queue, failed, input.now);
                law_absorb_keeps_turns(queue, failed, input.now);
                let taken = absorb(queue, failed, input.now)->Ok_0;
                lemma_grown_one_queued(
                    taken.queue,
                    taken.job,
                    hash,
                    input,
                    gate,
                    failed_base(taken.job, base),
                );
            },
            None => match lookup(queue.jobs, queued_in(user, conversation)) {
                Some(queued) => {
                    lemma_lookup(queue.jobs, queued_in(user, conversation));
                    lemma_grown_one_queued(queue, queued, hash, input, gate, base);
                },
                None => {
                    lemma_pushed_one_queued(queue.jobs, first_job(hash, input, gate, base));
                },
            },
        }
    }
}

proof fn lemma_grown_one_queued(
    queue: QueueModel,
    target: Job,
    hash: Seq<char>,
    input: EnqueueMemoryTurnRow,
    gate: CaptureGate,
    base: Base,
)
    requires
        sound(queue),
        one_queued_each(queue.jobs),
        queue.jobs.contains(target),
        target.state == "failed"@ || is_queued(target.state),
    ensures
        grow(queue, target, hash, input, gate, base) matches Ok(step) ==> one_queued_each(
            step.queue.jobs,
        ),
{
    lemma_states();
    if let Ok(step) = grow(queue, target, hash, input, gate, base) {
        let digest = appended_digest(
            hex_parsed(target.queue_digest)->0,
            input.through_turn_id@,
            hash,
        );
        let change = grown(target, input, gate, base, digest);
        let hit = owned(target.id, input.user_id@);
        assert forall|job: Job| hit(job) && queue.jobs.contains(job) implies (
        #[trigger] change(job)).user_id == job.user_id && change(job).conversation_id
            == job.conversation_id && (is_queued(change(job).state) ==> is_queued(job.state)) by {
            lemma_same_id(queue.jobs, job, target);
        }
        lemma_updated_one_queued(queue.jobs, hit, change);
    }
}

// ----------------------------------------------------------------------------
// Every other operation
// ----------------------------------------------------------------------------

/// Whether a job's row, where there is one, is of the job's own conversation.
pub open spec fn stays_put(jobs: Seq<Job>, job: Job) -> bool {
    forall|i: int|
        0 <= i < jobs.len() && (#[trigger] jobs[i]).id == job.id ==> jobs[i].user_id == job.user_id
            && jobs[i].conversation_id == job.conversation_id
}

/// Settling a running job keeps at most one queued job in each conversation, the
/// ids apart, and every job that is left in its conversation.
pub proof fn law_settle_keeps_one_queued(
    queue: QueueModel,
    running: Job,
    transition: QueueTransition<Seq<char>>,
)
    requires
        one_queued_each(queue.jobs),
        distinct_ids(queue.jobs),
        stays_put(queue.jobs, running),
    ensures
        settle(queue, running, transition) matches Ok(step) ==> one_queued_each(step.queue.jobs)
            && distinct_ids(step.queue.jobs) && forall|job: Job|
            stays_put(queue.jobs, job) ==> #[trigger] stays_put(step.queue.jobs, job),
{
    lemma_states();
    let hit = queued_in(running.user_id, running.conversation_id);
    let jobs = queue.jobs;
    lemma_lookup(jobs, hit);
    if let Ok(step) = settle(queue, running, transition) {
        let after = step.queue.jobs;
        if !joins_successor(transition.state) {
            let change = settled_alone(running, transition);
            lemma_updated_one_queued(jobs, with_id(running.id), change);
            lemma_updated_ids(jobs, with_id(running.id), change);
        } else {
            match lookup(jobs, hit) {
                None => {
                    let change = settled_alone(running, transition);
                    lemma_updated_first_queued(
                        jobs,
                        running.id,
                        change,
                        running.user_id,
                        running.conversation_id,
                    );
                    lemma_updated_ids(jobs, with_id(running.id), change);
                },
                Some(next) => {
                    let both = join_turns(running, next)->Ok_0;
                    if transition.state == "failed"@ {
                        let change = failed_with(running, next, both, transition);
                        let left = removed(jobs, with_id(next.id));
                        lemma_removed_one_queued(jobs, with_id(next.id));
                        lemma_removed_ids(jobs, with_id(next.id));
                        lemma_updated_one_queued(left, with_id(running.id), change);
                        lemma_updated_ids(left, with_id(running.id), change);
                    } else {
                        let change = requeued_before(running, both, transition);
                        let kept = updated(jobs, with_id(next.id), change);
                        assert forall|job: Job|
                            with_id(next.id)(job) && jobs.contains(job) implies (
                        #[trigger] change(job)).user_id == job.user_id && change(
                            job,
                        ).conversation_id == job.conversation_id && (is_queued(change(job).state)
                            ==> is_queued(job.state)) by {
                            lemma_same_id(jobs, job, next);
                        }
                        lemma_updated_one_queued(jobs, with_id(next.id), change);
                        lemma_updated_ids(jobs, with_id(next.id), change);
                        lemma_removed_one_queued(kept, with_id(running.id));
                        lemma_removed_ids(kept, with_id(running.id));
                    }
                },
            }
        }
    }
}

proof fn lemma_updated_ids(
    jobs: Seq<Job>,
    hit: spec_fn(Job) -> bool,
    change: spec_fn(Job) -> Job,
)
    requires
        distinct_ids(jobs),
        forall|job: Job| (#[trigger] change(job)).id == job.id,
        forall|job: Job| (#[trigger] change(job)).user_id == job.user_id,
        forall|job: Job| (#[trigger] change(job)).conversation_id == job.conversation_id,
    ensures
        distinct_ids(updated(jobs, hit, change)),
        forall|job: Job|
            stays_put(jobs, job) ==> #[trigger] stays_put(updated(jobs, hit, change), job),
{
    let after = updated(jobs, hit, change);
    assert forall|i: int, j: int|
        0 <= i < after.len() && 0 <= j < after.len() && i != j implies (#[trigger] after[i]).id != (
    #[trigger] after[j]).id by {
        assert(jobs[i].id != jobs[j].id);
    }
    assert forall|job: Job| stays_put(jobs, job) implies #[trigger] stays_put(after, job) by {
        assert forall|i: int| 0 <= i < after.len() && (#[trigger] after[i]).id == job.id
            implies after[i].user_id == job.user_id && after[i].conversation_id
            == job.conversation_id by {
            assert(jobs[i].id == job.id);
        }
    }
}

proof fn lemma_removed_ids(jobs: Seq<Job>, hit: spec_fn(Job) -> bool)
    requires
        distinct_ids(jobs),
        one_queued_each(jobs),
    ensures
        distinct_ids(removed(jobs, hit)),
        forall|job: Job| stays_put(jobs, job) ==> #[trigger] stays_put(removed(jobs, hit), job),
{
    let left = removed(jobs, hit);
    lemma_removed_rows(jobs, hit);
    lemma_removed_one_queued(jobs, hit);
    assert forall|job: Job| stays_put(jobs, job) implies #[trigger] stays_put(left, job) by {
        assert forall|k: int| 0 <= k < left.len() && (#[trigger] left[k]).id == job.id
            implies left[k].user_id == job.user_id && left[k].conversation_id
            == job.conversation_id by {
            let i = choose|i: int| 0 <= i < jobs.len() && jobs[i] == left[k];
            assert(jobs[i].id == job.id);
        }
    }
}

/// Giving back jobs whose lease has run out keeps at most one queued job in each
/// conversation.
pub proof fn law_recover_keeps_one_queued(queue: QueueModel, list: Seq<Job>, now: i64)
    requires
        one_queued_each(queue.jobs),
        distinct_ids(queue.jobs),
        forall|i: int| 0 <= i < list.len() ==> queue.jobs.contains(#[trigger] list[i]),
    ensures
        recover(queue, list, now) matches Ok(after) ==> one_queued_each(after.jobs) && distinct_ids(
            after.jobs,
        ) && forall|job: Job|
            stays_put(queue.jobs, job) ==> #[trigger] stays_put(after.jobs, job),
    decreases list.len(),
{
    if list.len() > 0 {
        let head = list.drop_last();
        assert forall|i: int| 0 <= i < head.len() implies queue.jobs.contains(
            #[trigger] head[i],
        ) by {
            assert(head[i] == list[i]);
        }
        law_recover_keeps_one_queued(queue, head, now);
        if let Ok(next) = recover(queue, head, now) {
            let job = list[list.len() - 1];
            assert(stays_put(queue.jobs, job)) by {
                assert forall|i: int| 0 <= i < queue.jobs.len() && (#[trigger] queue.jobs[i]).id
                    == job.id implies queue.jobs[i].user_id == job.user_id
                    && queue.jobs[i].conversation_id == job.conversation_id by {
                    assert(queue.jobs.contains(queue.jobs[i]));
                    lemma_same_id(queue.jobs, queue.jobs[i], job);
                }
            }
            law_settle_keeps_one_queued(next, job, requeue(job.last_error_code, now));
        }
    }
}

/// Trying a failed job again keeps at most one queued job in each conversation:
/// it takes the queued one in first.
pub proof fn law_retry_keeps_one_queued(queue: QueueModel, failed: Job, now: i64)
    requires
        sound(queue),
        one_queued_each(queue.jobs),
        queue.jobs.contains(failed),
        failed.state == "failed"@,
    ensures
        retry(queue, failed, now) matches Ok(step) ==> one_queued_each(step.queue.jobs),
{
    lemma_states();
    lemma_absorb_one_queued(queue, failed, now);
    law_absorb_keeps_turns(queue, failed, now);
    if let Ok(step) = absorb(queue, failed, now) {
        let jobs = step.queue.jobs;
        let job = step.job;
        let hit = queued_in(job.user_id, job.conversation_id);
        lemma_lookup(jobs, hit);
        if let Some(next) = lookup(jobs, hit) {
            if next.id == job.id {
                lemma_same_id(jobs, next, job);
            }
            let k = choose|k: int| 0 <= k < jobs.len() && jobs[k] == next;
            assert(absorbed_by(job)(jobs[k]));
            lemma_least_found(jobs, absorbed_by(job), older_job(), k);
        }
        assert forall|i: int| 0 <= i < jobs.len() && (#[trigger] jobs[i]).id == job.id
            implies jobs[i].user_id == job.user_id && jobs[i].conversation_id
            == job.conversation_id by {
            assert(jobs.contains(jobs[i]));
            lemma_same_id(jobs, jobs[i], job);
        }
        lemma_updated_first_queued(jobs, job.id, retried(now), job.user_id, job.conversation_id);
    }
}

/// Splitting a claimed job keeps at most one queued job in each conversation: the
/// rest goes to the queued one where there is one.
pub proof fn law_split_keeps_one_queued(queue: QueueModel, input: SplitMemoryJobRow)
    requires
        one_queued_each(queue.jobs),
        distinct_ids(queue.jobs),
    ensures
        split_step(queue, input) matches Some(Ok(after)) ==> one_queued_each(after.jobs),
{
    lemma_states();
    let held = leased(input.job_id@, input.user_id@, input.lease_token@, input.now);
    lemma_lookup(queue.jobs, held);
    if let Some(Ok(after)) = split_step(queue, input) {
        let running = lookup(queue.jobs, held)->0;
        let split = split_at(queue.turns, running, input.prefix_count)->Ok_0;
        let change = shortened(running, split, input.now);
        let jobs = updated(queue.jobs, held, change);
        lemma_updated_one_queued(queue.jobs, held, change);
        lemma_updated_ids(queue.jobs, held, change);
        let hit = queued_in(input.user_id@, running.conversation_id);
        lemma_lookup(jobs, hit);
        match lookup(jobs, hit) {
            Some(queued) => {
                let count = (split.rest + queued.turn_count) as i64;
                let digest = hex_parsed(queued.queue_digest)->0;
                let both = joined_digest(
                    split.rest_digest,
                    digest,
                    queued.turn_count as nat,
                );
                let joined = preceded_by_rest(running, split, count, both, input.now);
                assert forall|job: Job| with_id(queued.id)(job) && jobs.contains(job) implies (
                #[trigger] joined(job)).user_id == job.user_id && joined(job).conversation_id
                    == job.conversation_id && (is_queued(joined(job).state) ==> is_queued(
                    job.state,
                )) by {
                    lemma_same_id(jobs, job, queued);
                }
                lemma_updated_one_queued(jobs, with_id(queued.id), joined);
            },
            None => {
                lemma_pushed_one_queued(jobs, rest_job(running, split, input));
            },
        }
    }
}

/// Claiming, canceling, blocking and unblocking jobs keep at most one queued job
/// in each conversation.
pub proof fn law_changes_keep_one_queued(
    store: StoreModel,
    input: ClaimMemoryJobRow,
    user_id: Seq<char>,
    conversation_id: Option<Seq<char>>,
    now: i64,
)
    requires
        one_queued_each(store.queue.jobs),
    ensures
        claim_step(store, input) matches Ok(Some(step)) ==> one_queued_each(step.queue.jobs),
        one_queued_each(
            updated(store.queue.jobs, open_jobs(user_id, conversation_id), canceled(now)),
        ),
        one_queued_each(updated(store.queue.jobs, waiting(user_id), blocked(now))),
        one_queued_each(updated(store.queue.jobs, blocked_of(user_id), unblocked(now))),
{
    lemma_states();
    let jobs = store.queue.jobs;
    lemma_updated_one_queued(jobs, open_jobs(user_id, conversation_id), canceled(now));
    lemma_updated_one_queued(jobs, waiting(user_id), blocked(now));
    lemma_updated_one_queued(jobs, blocked_of(user_id), unblocked(now));
    if let Ok(Some(step)) = claim_step(store, input) {
        let job = least(
            jobs,
            claimable(jobs, input.user_id@, input.now),
            claimed_before(),
        )->0;
        let end = (input.now + input.lease_duration_ms) as i64;
        let change = handed_to(
            input,
            revision_of(store.memories, job.user_id, job.conversation_id),
            end,
        );
        lemma_updated_one_queued(jobs, owned(job.id, input.user_id@), change);
    }
}

/// Committing an update and fixing a job's snapshot keep at most one queued job
/// in each conversation; an update that is out of date settles its job.
pub proof fn law_finishing_keeps_one_queued(
    store: StoreModel,
    input: CommitMemoryUpdateRow,
    snapshot: FinalizeMemoryJobSnapshotRow,
    encoded: Seq<char>,
)
    requires
        one_queued_each(store.queue.jobs),
    ensures
        jobs_after(store.queue.jobs, input) matches Ok(jobs) ==> one_queued_each(jobs),
        finalize_step(store, snapshot, encoded) matches Ok(
            FinalizeOutcome::Finalized { queue, .. },
        ) ==> one_queued_each(queue.jobs),
{
    lemma_states();
    let jobs = store.queue.jobs;
    let running = running_job(input.job_id@, input.user_id@);
    let done = updated(jobs, running, succeeded(input.now));
    lemma_updated_one_queued(jobs, running, succeeded(input.now));
    if let Some(next) = lookup(done, queued_in(input.user_id@, input.conversation_id@)) {
        if let Some(digest) = hex_parsed(next.queue_digest) {
            lemma_updated_one_queued(done, with_id(next.id), rebased_on(next, input, digest));
        }
    }
    if let Ok(FinalizeOutcome::Finalized { queue, job: fixed_job }) = finalize_step(
        store,
        snapshot,
        encoded,
    ) {
        let held = leased(
            snapshot.job_id@,
            snapshot.user_id@,
            snapshot.lease_token@,
            snapshot.now,
        );
        let job = lookup(jobs, held)->0;
        let list = snapshot_turns(store.queue.turns, snapshot.job_id@);
        let digest = seen_digest(list, snapshot.turn_snapshots@, list.len() as int);
        let text = if snapshot.reconciliation_snapshot is Some {
            Some(encoded)
        } else {
            None
        };
        lemma_updated_one_queued(
            jobs,
            with_id(snapshot.job_id@),
            fixed(job, digest, text, snapshot.now),
        );
    }
}

} // verus!

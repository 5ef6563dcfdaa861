//! What capturing a turn, handing out a job and fixing its snapshot keep.
use crate::memory::commands::{
    ClaimMemoryJobRow, EnqueueMemoryTurnRow, FinalizeMemoryJobSnapshotRow,
    MemoryTurnSnapshotExpectationRow,
};
use crate::memory::digest::{
    appended_digest, law_append_is_join_with_one, law_stored_digest_reads_back, turns_digest,
};
use crate::memory::enqueue::{
    claim_step, claimable, claimed_before, enqueue_turn, failed_base, first_job, grow, grown,
    handed_to, new_turn, queue_base, revision_of, worked_on, Base, CaptureGate,
};
use crate::memory::finalize::{
    finalize_step, seen_digest, snapshot_turns, with_seen_hashes, FinalizeOutcome,
};
use crate::memory::leases::{lease_runs, leased, turns_in_order};
use crate::memory::queue::{
    absorb, absorbed_by, extended_with, in_state, join_turns, lemma_absorb_shrinks, older_job,
    owned, queued_in, turns_behind, with_id, Job, QueueModel, Turn,
};
use crate::memory::queue_laws::{
    covers, distinct_ids, has_turn, is_turn, job_sound, law_absorb_keeps_turns,
    law_listing_gives_turns_in_order, lemma_member_sound, lemma_turn_key, sound, turn_key,
    turn_list, turns_of_job,
};
use crate::memory::rows::ConversationMemoryRow;
use crate::memory::split::turn_keys;
use crate::memory::store::StoreModel;
use crate::table::{
    exists_in, law_least, least, lemma_least_selected, lemma_lookup, lookup, orders, removed,
    updated,
};
use crate::text::{lemma_text_order, lemma_text_transitive, text_before};
use vstd::prelude::*;

verus! {

/// A turn that is added to a job stands behind the job's turns; every other job
/// keeps its own.
pub proof fn lemma_added_turn(turns: Seq<Turn>, turn: Turn, id: Seq<char>, count: int)
    requires
        covers(turns, id, count),
        turn.job_id == id ==> turn.position == count,
    ensures
        turn.job_id == id ==> covers(turns.push(turn), id, count + 1) && turn_list(
            turns.push(turn),
            id,
            count + 1,
        ) == turn_list(turns, id, count).push((turn.turn_id, turn.turn_hash)),
        turn.job_id != id ==> covers(turns.push(turn), id, count) && turn_list(
            turns.push(turn),
            id,
            count,
        ) == turn_list(turns, id, count),
{
    let after = turns.push(turn);
    let size = if turn.job_id == id {
        count + 1
    } else {
        count
    };
    assert forall|i: int| 0 <= i < after.len() && (#[trigger] after[i]).job_id == id implies 0
        <= after[i].position < size by {
        if i < turns.len() {
            assert(after[i] == turns[i]);
        }
    }
    assert forall|i: int, j: int|
        0 <= i < after.len() && 0 <= j < after.len() && i != j && (#[trigger] after[i]).job_id == id
            && (#[trigger] after[j]).job_id == id
                implies after[i].position != after[j].position by {
        if i < turns.len() {
            assert(after[i] == turns[i]);
        }
        if j < turns.len() {
            assert(after[j] == turns[j]);
        }
    }
    assert forall|p: int| 0 <= p < size implies #[trigger] has_turn(after, id, p) by {
        if p < count {
            assert(has_turn(turns, id, p));
            let i = choose|i: int| #[trigger] is_turn(turns, id, p, i);
            assert(is_turn(after, id, p, i));
        } else {
            assert(is_turn(after, id, p, turns.len() as int));
        }
    }
    assert(covers(after, id, size));
    assert forall|p: int|
        0 <= p < count implies turn_key(after, id, p) == turn_key(turns, id, p) by {
        assert(has_turn(turns, id, p));
        let i = choose|i: int| #[trigger] is_turn(turns, id, p, i);
        assert(after[i] == turns[i]);
        lemma_turn_key(turns, id, count, i);
        lemma_turn_key(after, id, size, i);
    }
    if turn.job_id == id {
        lemma_turn_key(after, id, size, turns.len() as int);
        assert(turn_list(after, id, size) =~= turn_list(turns, id, count).push(
            (turn.turn_id, turn.turn_hash),
        ));
    } else {
        assert(turn_list(after, id, size) =~= turn_list(turns, id, count));
    }
}

/// Growing a job of a sound queue adds exactly the new turn to it.
proof fn lemma_grow(
    queue: QueueModel,
    target: Job,
    hash: Seq<char>,
    input: EnqueueMemoryTurnRow,
    gate: CaptureGate,
    base: Base,
)
    requires
        sound(queue),
        queue.jobs.contains(target),
        target.user_id == input.user_id@,
    ensures
        grow(queue, target, hash, input, gate, base) matches Ok(step) ==> sound(step.queue)
            && step.queue.jobs.contains(step.job) && turns_of_job(step.queue, step.job)
            == turns_of_job(queue, target).push((input.through_turn_id@, hash)),
{
    lemma_member_sound(queue, target);
    let list = turns_of_job(queue, target);
    if target.turn_count < i64::MAX {
        let digest = appended_digest(turns_digest(list), input.through_turn_id@, hash);
        let change = grown(target, input, gate, base, digest);
        let turn = new_turn(target.id, target.turn_count, hash, input);
        let hit = owned(target.id, input.user_id@);
        let jobs = updated(queue.jobs, hit, change);
        let turns = queue.turns.push(turn);
        law_append_is_join_with_one(list, (input.through_turn_id@, hash));
        law_stored_digest_reads_back(list.push((input.through_turn_id@, hash)));
        let k = choose|k: int| 0 <= k < queue.jobs.len() && queue.jobs[k] == target;
        assert(jobs[k] == change(target));
        lemma_added_turn(queue.turns, turn, target.id, target.turn_count as int);
        assert forall|i: int| 0 <= i < jobs.len() implies job_sound(turns, #[trigger] jobs[i]) by {
            let job = queue.jobs[i];
            assert(job_sound(queue.turns, job));
            if i != k {
                assert(queue.jobs[i].id != queue.jobs[k].id);
                lemma_added_turn(queue.turns, turn, job.id, job.turn_count as int);
            }
        }
        assert(distinct_ids(jobs)) by {
            assert forall|i: int, j: int|
                0 <= i < jobs.len() && 0 <= j < jobs.len() && i != j implies (#[trigger] jobs[i]).id
                != (#[trigger] jobs[j]).id by {
                assert(queue.jobs[i].id != queue.jobs[j].id);
            }
        }
    }
}

/// The turns behind which a new turn of a conversation is queued: those of its
/// oldest failed job, with the later ones that the job takes in; or else of its
/// queued job; or else none.
pub open spec fn turns_waiting(queue: QueueModel, input: EnqueueMemoryTurnRow) -> Seq<
    (Seq<char>, Seq<char>),
> {
    let user = input.user_id@;
    let conversation = input.conversation_id@;
    match least(queue.jobs, in_state(user, conversation, "failed"@), older_job()) {
        Some(failed) => match absorb(queue, failed, input.now) {
            Ok(step) => turns_of_job(step.queue, step.job),
            Err(_) => Seq::empty(),
        },
        None => match lookup(queue.jobs, queued_in(user, conversation)) {
            Some(queued) => turns_of_job(queue, queued),
            None => Seq::empty(),
        },
    }
}

/// Queuing a turn adds it, once, behind the turns that wait already; no turn is
/// lost, none changes its place, and every job's digest is that of its turns.
pub proof fn law_enqueue_appends_turn(
    queue: QueueModel,
    memory: Option<ConversationMemoryRow<Seq<char>>>,
    hash: Seq<char>,
    input: EnqueueMemoryTurnRow,
    gate: CaptureGate,
)
    requires
        sound(queue),
        exists_in(queue.jobs, with_id(input.id@)) || covers(queue.turns, input.id@, 0),
    ensures
        enqueue_turn(queue, memory, hash, input, gate) matches Ok(step) ==> sound(step.queue)
            && step.queue.jobs.contains(step.job) && turns_of_job(step.queue, step.job)
            == turns_waiting(queue, input).push((input.through_turn_id@, hash)),
{
    let user = input.user_id@;
    let conversation = input.conversation_id@;
    let base = queue_base(lookup(queue.jobs, in_state(user, conversation, "running"@)), memory);
    match least(queue.jobs, in_state(user, conversation, "failed"@), older_job()) {
        Some(failed) => {
            lemma_least_selected(
                queue.jobs,
                in_state(user, conversation, "failed"@),
                older_job(),
            );
            law_absorb_keeps_turns(queue, failed, input.now);
            if absorb(queue, failed, input.now) is Ok {
                let step = absorb(queue, failed, input.now)->Ok_0;
                lemma_absorb_owner(queue, failed, input.now);
                lemma_grow(
                    step.queue,
                    step.job,
                    hash,
                    input,
                    gate,
                    failed_base(step.job, base),
                );
            }
        },
        None => match lookup(queue.jobs, queued_in(user, conversation)) {
            Some(queued) => {
                lemma_lookup(queue.jobs, queued_in(user, conversation));
                lemma_grow(queue, queued, hash, input, gate, base);
            },
            None => {
                if !exists_in(queue.jobs, with_id(input.id@)) {
                    let job = first_job(hash, input, gate, base);
                    let turn = new_turn(input.id@, 0, hash, input);
                    let jobs = queue.jobs.push(job);
                    let turns = queue.turns.push(turn);
                    let none = Seq::<(Seq<char>, Seq<char>)>::empty();
                    law_append_is_join_with_one(none, (input.through_turn_id@, hash));
                    law_stored_digest_reads_back(none.push((input.through_turn_id@, hash)));
                    lemma_added_turn(queue.turns, turn, input.id@, 0);
                    assert(turn_list(queue.turns, input.id@, 0) =~= none);
                    assert(jobs[jobs.len() - 1] == job);
                    assert forall|i: int| 0 <= i < jobs.len() implies job_sound(
                        turns,
                        #[trigger] jobs[i],
                    ) by {
                        if i < queue.jobs.len() {
                            assert(jobs[i] == queue.jobs[i]);
                            assert(job_sound(queue.turns, queue.jobs[i]));
                            assert(!with_id(input.id@)(queue.jobs[i]));
                            lemma_added_turn(
                                queue.turns,
                                turn,
                                jobs[i].id,
                                jobs[i].turn_count as int,
                            );
                        }
                    }
                    assert(distinct_ids(jobs)) by {
                        assert forall|i: int, j: int|
                            0 <= i < jobs.len() && 0 <= j < jobs.len() && i != j implies (
                        #[trigger] jobs[i]).id != (#[trigger] jobs[j]).id by {
                            if i < queue.jobs.len() {
                                assert(!with_id(input.id@)(queue.jobs[i]));
                            }
                            if j < queue.jobs.len() {
                                assert(!with_id(input.id@)(queue.jobs[j]));
                            }
                        }
                    }
                }
            },
        },
    }
}

/// A job that takes others in stays its user's.
proof fn lemma_absorb_owner(queue: QueueModel, barrier: Job, now: i64)
    ensures
        absorb(queue, barrier, now) matches Ok(step) ==> step.job.user_id == barrier.user_id,
    decreases queue.jobs.len(),
{
    match least(queue.jobs, absorbed_by(barrier), older_job()) {
        None => {},
        Some(next) => {
            lemma_absorb_shrinks(queue, barrier, next);
            match join_turns(barrier, next) {
                Err(_) => {},
                Ok(both) => match turns_behind(queue.turns, barrier, next) {
                    None => {},
                    Some(turns) => {
                        let change = extended_with(barrier, next, both, now);
                        lemma_absorb_owner(
                            QueueModel {
                                jobs: updated(
                                    removed(queue.jobs, with_id(next.id)),
                                    with_id(barrier.id),
                                    change,
                                ),
                                turns,
                            },
                            change(barrier),
                            now,
                        );
                    },
                },
            }
        },
    }
}

// ----------------------------------------------------------------------------
// Handing out jobs
// ----------------------------------------------------------------------------

/// Whether each conversation has at most one running job, and each running job
/// a lease.
pub open spec fn one_worker_each(jobs: Seq<Job>) -> bool {
    &&& forall|i: int|
        0 <= i < jobs.len() && (#[trigger] jobs[i]).state == "running"@
            ==> jobs[i].lease_expires_at is Some
    &&& forall|i: int, j: int|
        0 <= i < jobs.len() && 0 <= j < jobs.len() && i != j && (#[trigger] jobs[i]).state
            == "running"@ && (#[trigger] jobs[j]).state == "running"@ ==> jobs[i].user_id
            != jobs[j].user_id || jobs[i].conversation_id != jobs[j].conversation_id
}

pub proof fn lemma_claim_order()
    ensures
        orders(claimed_before()),
{
    let less = claimed_before();
    assert forall|a: Job, b: Job| #[trigger] less(a, b) implies !less(b, a) by {
        lemma_text_order(a.id, b.id);
    }
    assert forall|a: Job, b: Job, c: Job| #[trigger] less(a, c) && !less(b, c)
        implies #[trigger] less(
        a,
        b,
    ) by {
        lemma_text_order(b.id, c.id);
        lemma_text_order(a.id, b.id);
        lemma_text_order(a.id, c.id);
        if text_before(a.id, c.id) && text_before(c.id, b.id) {
            lemma_text_transitive(a.id, c.id, b.id);
        }
    }
}

/// Handing out a job keeps it so that a conversation is worked on by one worker
/// at a time: a job that waits is handed out only where no other job of its
/// conversation runs, and a running one only once its lease has run out.
pub proof fn law_one_worker_each(store: StoreModel, input: ClaimMemoryJobRow)
    requires
        distinct_ids(store.queue.jobs),
        one_worker_each(store.queue.jobs),
    ensures
        claim_step(store, input) matches Ok(Some(step)) ==> one_worker_each(step.queue.jobs)
            && distinct_ids(step.queue.jobs) && step.queue.turns == store.queue.turns,
{
    let jobs = store.queue.jobs;
    let hit = claimable(jobs, input.user_id@, input.now);
    if let Ok(Some(step)) = claim_step(store, input) {
        lemma_claim_order();
        law_least(jobs, hit, claimed_before());
        let job = least(jobs, hit, claimed_before())->0;
        let end = (input.now + input.lease_duration_ms) as i64;
        let change = handed_to(
            input,
            revision_of(
                store.memories,
                job.user_id,
                job.conversation_id,
            ),
            end,
        );
        let after = updated(jobs, owned(job.id, input.user_id@), change);
        let k = choose|k: int| 0 <= k < jobs.len() && jobs[k] == job;
        assert(hit(jobs[k]));
        assert(after[k] == change(job));
        assert forall|i: int| 0 <= i < jobs.len() && i != k implies #[trigger] after[i]
            == jobs[i] by {
            assert(jobs[i].id != jobs[k].id);
        }
        assert forall|i: int| 0 <= i < jobs.len() && i != k && (#[trigger] jobs[i]).state
            == "running"@ implies jobs[i].user_id != job.user_id || jobs[i].conversation_id
            != job.conversation_id by {
            if jobs[i].user_id == job.user_id && jobs[i].conversation_id == job.conversation_id
                && job.state != "running"@ {
                if lease_runs(jobs[i], input.now) {
                    assert(worked_on(job.user_id, job.conversation_id, input.now)(jobs[i]));
                } else {
                    assert(hit(jobs[i]));
                    assert(claimed_before()(jobs[i], job));
                }
            }
        }
        assert forall|i: int, j: int|
            0 <= i < after.len() && 0 <= j < after.len() && i != j && (#[trigger] after[i]).state
                == "running"@ && (#[trigger] after[j]).state == "running"@ implies after[i].user_id
            != after[j].user_id || after[i].conversation_id != after[j].conversation_id by {
            if i != k && j != k {
                assert(jobs[i].state == "running"@ && jobs[j].state == "running"@);
            } else if i == k {
                assert(after[j] == jobs[j]);
            } else {
                assert(after[i] == jobs[i]);
            }
        }
        assert(distinct_ids(after)) by {
            assert forall|i: int, j: int|
                0 <= i < after.len() && 0 <= j < after.len() && i != j implies (
            #[trigger] after[i]).id != (#[trigger] after[j]).id by {
                assert(jobs[i].id != jobs[j].id);
            }
        }
    }
}

// ----------------------------------------------------------------------------
// Fixing a snapshot
// ----------------------------------------------------------------------------

/// The turns of a list with the hashes that a worker saw.
pub open spec fn seen_keys(
    list: Seq<Turn>,
    seen: Seq<MemoryTurnSnapshotExpectationRow>,
    count: int,
) -> Seq<
    (Seq<char>, Seq<char>),
> {
    Seq::new(count as nat, |i: int| (list[i].turn_id, seen[i].snapshot_hash@))
}

proof fn lemma_seen_digest(list: Seq<Turn>, seen: Seq<MemoryTurnSnapshotExpectationRow>, count: int)
    requires
        count >= 0,
    ensures
        seen_digest(list, seen, count) == turns_digest(seen_keys(list, seen, count)),
    decreases count,
{
    if count > 0 {
        lemma_seen_digest(list, seen, count - 1);
        let keys = seen_keys(list, seen, count);
        assert(keys.drop_last() =~= seen_keys(list, seen, count - 1));
        assert(keys.last() == (list[count - 1].turn_id, seen[count - 1].snapshot_hash@));
    }
}

/// Taking the seen hashes over changes hashes alone, and of the job's first turns
/// alone.
proof fn lemma_seen_hashes(
    turns: Seq<Turn>,
    id: Seq<char>,
    list: Seq<Turn>,
    seen: Seq<MemoryTurnSnapshotExpectationRow>,
    count: int,
)
    requires
        0 <= count <= list.len(),
        forall|p: int| 0 <= p < list.len() ==> (#[trigger] list[p]).position == p,
    ensures
        ({
            let after = with_seen_hashes(turns, id, list, seen, count);
            &&& after.len() == turns.len()
            &&& forall|i: int|
                0 <= i < turns.len() ==> (#[trigger] after[i]).job_id == turns[i].job_id
                    && after[i].position == turns[i].position && after[i].turn_id
                    == turns[i].turn_id
            &&& forall|i: int|
                0 <= i < turns.len() && (turns[i].job_id != id || !(0 <= turns[i].position
                    < count)) ==> #[trigger] after[i] == turns[i]
            &&& forall|i: int|
                0 <= i < turns.len() && turns[i].job_id == id && 0 <= turns[i].position < count
                    ==> (#[trigger] after[i]).turn_hash
                    == seen[turns[i].position as int].snapshot_hash@
        }),
    decreases count,
{
    if count > 0 {
        lemma_seen_hashes(turns, id, list, seen, count - 1);
        assert(list[count - 1].position == count - 1);
    }
}

/// Fixing the snapshot of a claimed job keeps which turns it covers and their
/// order; their hashes, and the job's digest, become those that the worker saw.
/// Every other job is as it was.
pub proof fn law_finalize_keeps_turns(
    store: StoreModel,
    input: FinalizeMemoryJobSnapshotRow,
    encoded: Seq<char>,
)
    requires
        sound(store.queue),
    ensures
        finalize_step(store, input, encoded) matches Ok(
            FinalizeOutcome::Finalized { queue, job },
        ) ==> sound(queue) && queue.jobs.contains(job) && turns_of_job(queue, job) == seen_keys(
            turns_in_order(store.queue.turns, input.job_id@),
            input.turn_snapshots@,
            job.turn_count as int,
        ),
{
    if let Ok(FinalizeOutcome::Finalized { queue, job }) = finalize_step(store, input, encoded) {
        let id = input.job_id@;
        let seen = input.turn_snapshots@;
        let hit = leased(id, input.user_id@, input.lease_token@, input.now);
        lemma_lookup(store.queue.jobs, hit);
        let claimed = lookup(store.queue.jobs, hit)->0;
        lemma_member_sound(store.queue, claimed);
        let turns = store.queue.turns;
        let count = claimed.turn_count as int;
        let all = turns_in_order(turns, id);
        let list = snapshot_turns(turns, id);
        law_listing_gives_turns_in_order(turns, claimed);
        assert(turn_keys(all).len() == all.len());
        assert(list =~= all);
        let after = with_seen_hashes(turns, id, list, seen, count);
        lemma_seen_hashes(turns, id, list, seen, count);
        assert(covers(after, id, count)) by {
            assert forall|p: int| 0 <= p < count implies #[trigger] has_turn(after, id, p) by {
                assert(has_turn(turns, id, p));
                let i = choose|i: int| #[trigger] is_turn(turns, id, p, i);
                assert(is_turn(after, id, p, i));
            }
        }
        let keys = seen_keys(list, seen, count);
        assert forall|p: int| 0 <= p < count implies turn_key(after, id, p) == keys[p] by {
            assert(has_turn(turns, id, p));
            let i = choose|i: int| #[trigger] is_turn(turns, id, p, i);
            lemma_turn_key(turns, id, count, i);
            lemma_turn_key(after, id, count, i);
            assert(turn_keys(list)[p] == turn_list(turns, id, count)[p]);
        }
        assert(turn_list(after, id, count) =~= keys);
        lemma_seen_digest(list, seen, count);
        law_stored_digest_reads_back(keys);
        let k = choose|k: int| 0 <= k < store.queue.jobs.len() && store.queue.jobs[k] == claimed;
        assert(queue.jobs[k] == job);
        assert forall|i: int| 0 <= i < queue.jobs.len() implies job_sound(
            after,
            #[trigger] queue.jobs[i],
        ) by {
            let other = store.queue.jobs[i];
            assert(job_sound(turns, other));
            if i != k {
                assert(store.queue.jobs[i].id != store.queue.jobs[k].id);
                lemma_untouched(turns, after, other.id, other.turn_count as int);
            }
        }
        assert(distinct_ids(queue.jobs)) by {
            assert forall|i: int, j: int|
                0 <= i < queue.jobs.len() && 0 <= j < queue.jobs.len() && i != j implies (
            #[trigger] queue.jobs[i]).id != (#[trigger] queue.jobs[j]).id by {
                assert(store.queue.jobs[i].id != store.queue.jobs[j].id);
            }
        }
    }
}

/// A job whose rows are untouched keeps its turns.
proof fn lemma_untouched(turns: Seq<Turn>, after: Seq<Turn>, id: Seq<char>, count: int)
    requires
        covers(turns, id, count),
        after.len() == turns.len(),
        forall|i: int| 0 <= i < turns.len() ==> (#[trigger] after[i]).job_id == turns[i].job_id,
        forall|i: int|
            0 <= i < turns.len() && turns[i].job_id == id ==> #[trigger] after[i] == turns[i],
    ensures
        covers(after, id, count),
        turn_list(after, id, count) == turn_list(turns, id, count),
{
    assert forall|p: int| 0 <= p < count implies #[trigger] has_turn(after, id, p) by {
        assert(has_turn(turns, id, p));
        let i = choose|i: int| #[trigger] is_turn(turns, id, p, i);
        assert(is_turn(after, id, p, i));
    }
    assert(covers(after, id, count));
    assert forall|p: int|
        0 <= p < count implies turn_key(after, id, p) == turn_key(turns, id, p) by {
        assert(has_turn(turns, id, p));
        let i = choose|i: int| #[trigger] is_turn(turns, id, p, i);
        assert(after[i] == turns[i]);
        lemma_turn_key(turns, id, count, i);
        lemma_turn_key(after, id, count, i);
    }
    assert(turn_list(after, id, count) =~= turn_list(turns, id, count));
}

} // verus!

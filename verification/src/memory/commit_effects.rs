//! What a committed update leaves behind, told by the rows.
use crate::json::json_list_text;
use crate::memory::commands::{CommitMemoryUpdateRow, EnqueueMemoryTurnRow};
use crate::memory::commit::{
    change_set_with_id, commit_step, covered_by, fence_holds, jobs_after, memory_at, rewritten,
    running_job, succeeded, turn_with, CommitOutcome, PersistedEntries,
};
use crate::memory::consent_laws::{keys_are_unique, lemma_earliest};
use crate::memory::enqueue::{enqueue_step, gate_of};
use crate::memory::evidence::earliest_at;
use crate::memory::job_laws::{is_held_by, is_put_down, is_same_work, waits};
use crate::memory::queue::{in_state, older_job, owned, queued_in, Job};
use crate::memory::queue_laws::distinct_ids;
use crate::memory::rows::{
    ConversationMemoryRow, MemorySettingsRow, StoredMemoryPolicyRow, TurnMessageRow,
};
use crate::memory::store::{memory_of, policy_of, settings_of, StoreModel};
use crate::table::{lemma_least_selected, lemma_lookup, lookup, updated};
use crate::text::opt_text;
use vstd::prelude::*;

verus! {

// ----------------------------------------------------------------------------
// What lets an update in
// ----------------------------------------------------------------------------

/// Whether a job is the one that the writer works on, as the writer knows it.
pub open spec fn is_the_writers(job: Job, input: CommitMemoryUpdateRow) -> bool {
    &&& is_held_by(
        job,
        input.job_id@,
        input.user_id@,
        input.lease_owner@,
        input.lease_token@,
        input.now,
    )
    &&& job.conversation_id == input.conversation_id@
    &&& job.expected_revision == input.expected_revision
    &&& job.through_turn_id == input.through_turn_id@
    &&& job.attempt_count == input.expected_attempt_count
}

/// Whether a user still wants what the job was queued for.
pub open spec fn is_still_wanted(
    settings: MemorySettingsRow<Seq<char>>,
    policies: Seq<StoredMemoryPolicyRow<Seq<char>>>,
    job: Job,
) -> bool {
    &&& settings.user_id == job.user_id
    &&& settings.enabled
    &&& settings.consent_version is Some
    &&& settings.lifecycle_epoch == job.global_epoch
    &&& forall|i: int|
        0 <= i < policies.len() && (#[trigger] policies[i]).user_id == job.user_id
            && policies[i].conversation_id == job.conversation_id ==> {
            &&& policies[i].capture_enabled != Some(false)
            &&& policies[i].capture_enabled is None ==> settings.default_capture
            &&& policies[i].lifecycle_epoch == job.conversation_epoch
        }
    &&& (forall|i: int|
        0 <= i < policies.len() ==> !((#[trigger] policies[i]).user_id == job.user_id
            && policies[i].conversation_id == job.conversation_id)) ==> settings.default_capture
        && job.conversation_epoch == 0
}

/// Whether a message is of a turn that a job covers.
pub open spec fn is_worked_on(row: TurnMessageRow<Seq<char>>, store: StoreModel, id: Seq<char>)
    -> bool {
    exists|t: int|
        0 <= t < store.queue.turns.len() && (#[trigger] store.queue.turns[t]).job_id == id
            && store.queue.turns[t].conversation_id == row.message.conversation_id && Some(
            store.queue.turns[t].turn_id,
        ) == row.message.turn_id
}

/// Nothing comes of an update unless the writer holds its job as it knows it, the
/// user still wants what the job was queued for, and every message that the job
/// covers was written after the last reset.
pub proof fn law_update_needs_consent(
    store: StoreModel,
    input: CommitMemoryUpdateRow,
    persisted: PersistedEntries,
)
    requires
        keys_are_unique(store),
        distinct_ids(store.queue.jobs),
        commit_step(store, input, persisted) is Ok,
    ensures
        exists|j: int, s: int|
            #![trigger store.queue.jobs[j], store.settings[s]]
            {
                &&& 0 <= j < store.queue.jobs.len()
                &&& 0 <= s < store.settings.len()
                &&& is_the_writers(store.queue.jobs[j], input)
                &&& is_still_wanted(store.settings[s], store.policies, store.queue.jobs[j])
                &&& forall|m: int|
                    0 <= m < store.messages.len() && is_worked_on(
                        #[trigger] store.messages[m],
                        store,
                        input.job_id@,
                    ) ==> (store.settings[s].reset_at matches Some(time)
                        ==> store.messages[m].message.created_at > time)
                &&& forall|m: int, p: int|
                    0 <= m < store.messages.len() && is_worked_on(
                        #[trigger] store.messages[m],
                        store,
                        input.job_id@,
                    ) && 0 <= p < store.policies.len() && (#[trigger] store.policies[p]).user_id
                        == input.user_id@ && store.policies[p].conversation_id
                        == input.conversation_id@ ==> (store.policies[p].reset_at matches Some(time)
                        ==> store.messages[m].message.created_at > time)
            },
{
    let user = input.user_id@;
    let id = input.conversation_id@;
    let jobs = store.queue.jobs;
    lemma_lookup(jobs, owned(input.job_id@, user));
    lemma_lookup(store.settings, settings_of(user));
    lemma_lookup(store.policies, policy_of(user, id));
    let job = lookup(jobs, owned(input.job_id@, user))->0;
    let settings = lookup(store.settings, settings_of(user))->0;
    let own = lookup(store.policies, policy_of(user, id));
    let gate = gate_of(settings, own);
    let covered = covered_by(store.queue.turns, job.id);
    let earliest = earliest_at(store.messages, covered);
    assert(fence_holds(job, gate, earliest, input));
    lemma_earliest(store.messages, covered);
    let j = choose|j: int| 0 <= j < jobs.len() && jobs[j] == job;
    let s = choose|s: int| 0 <= s < store.settings.len() && store.settings[s] == settings;
    if let Some(policy) = own {
        let p = choose|p: int| 0 <= p < store.policies.len() && store.policies[p] == policy;
        assert(policy_of(user, id)(store.policies[p]));
    } else {
        assert forall|k: int| 0 <= k < store.policies.len() implies !((
        #[trigger] store.policies[k]).user_id == user && store.policies[k].conversation_id
            == id) by {
            assert(!policy_of(user, id)(store.policies[k]));
        }
    }
    assert forall|m: int|
        0 <= m < store.messages.len() && is_worked_on(
            #[trigger] store.messages[m],
            store,
            input.job_id@,
        ) implies store.messages[m].message.created_at >= earliest->0 by {
        let row = store.messages[m];
        let turn = turn_with(job.id, row.message.conversation_id, row.message.turn_id);
        let t = choose|t: int|
            0 <= t < store.queue.turns.len() && (#[trigger] store.queue.turns[t]).job_id
                == input.job_id@ && store.queue.turns[t].conversation_id
                == row.message.conversation_id && Some(store.queue.turns[t].turn_id)
                == row.message.turn_id;
        assert(turn(store.queue.turns[t]));
        assert(covered(row));
    }
    assert(is_the_writers(jobs[j], input));
    assert(is_still_wanted(store.settings[s], store.policies, jobs[j]));
}

// ----------------------------------------------------------------------------
// What an update leaves behind
// ----------------------------------------------------------------------------

/// Whether what is remembered of a conversation is what an update says.
pub open spec fn says_the_update(
    row: ConversationMemoryRow<Seq<char>>,
    input: CommitMemoryUpdateRow,
) -> bool {
    &&& row.user_id == input.user_id@
    &&& row.conversation_id == input.conversation_id@
    &&& row.project_id == opt_text(input.project_id)
    &&& row.workspace_key == opt_text(input.workspace_key)
    &&& row.summary_json == input.summary_json@
    &&& row.through_turn_id == input.through_turn_id@
    &&& row.source == "memory_update"@
    &&& row.schema_version == input.schema_version
    &&& row.prompt_version == opt_text(input.prompt_version)
    &&& row.writer_provider_id == opt_text(input.writer_provider_id)
    &&& row.writer_model_id == opt_text(input.writer_model_id)
    &&& row.updated_at == input.now
}

/// After an update the conversation's memory says what the update says, one
/// revision on, and every other memory is as it was.
pub proof fn law_update_is_remembered(
    store: StoreModel,
    input: CommitMemoryUpdateRow,
    persisted: PersistedEntries,
)
    requires
        forall|i: int, j: int|
            0 <= i < store.memories.len() && 0 <= j < store.memories.len() && (
            #[trigger] store.memories[i]).user_id == (#[trigger] store.memories[j]).user_id
                && store.memories[i].conversation_id == store.memories[j].conversation_id ==> i
                == j,
    ensures
        commit_step(store, input, persisted) matches Ok(CommitOutcome::Committed { store: after, .. })
            ==> {
            let old = store.memories;
            let new = after.memories;
            &&& forall|i: int|
                0 <= i < old.len() && !(old[i].user_id == input.user_id@ && old[i].conversation_id
                    == input.conversation_id@) ==> i < new.len() && #[trigger] new[i] == old[i]
            &&& forall|i: int|
                0 <= i < old.len() && old[i].user_id == input.user_id@ && old[i].conversation_id
                    == input.conversation_id@ ==> new.len() == old.len() && says_the_update(
                    #[trigger] new[i],
                    input,
                ) && new[i].created_at == old[i].created_at && old[i].revision
                    == input.expected_revision && (old[i].revision < i64::MAX ==> new[i].revision
                    == old[i].revision + 1)
            &&& (forall|i: int|
                0 <= i < old.len() ==> !((#[trigger] old[i]).user_id == input.user_id@
                    && old[i].conversation_id == input.conversation_id@)) ==> new.len()
                == old.len() + 1 && says_the_update(new.last(), input) && new.last().created_at
                == input.now && new.last().revision == 1 && input.expected_revision == 0
        },
{
    let hit = memory_of(input.user_id@, input.conversation_id@);
    lemma_lookup(store.memories, hit);
    if let Ok(CommitOutcome::Committed { store: after, .. }) = commit_step(
        store,
        input,
        persisted,
    ) {
        let old = store.memories;
        match lookup(old, hit) {
            Some(row) => {
                let k = choose|k: int| 0 <= k < old.len() && old[k] == row;
                assert(hit(old[k]));
                assert(after.memories == updated(old, memory_at(input), rewritten(input)));
                assert forall|i: int|
                    0 <= i < old.len() && old[i].user_id == input.user_id@
                        && old[i].conversation_id == input.conversation_id@ implies i == k by {
                    assert(hit(old[i]));
                }
            },
            None => {
                assert forall|i: int| 0 <= i < old.len() implies !((#[trigger] old[i]).user_id
                    == input.user_id@ && old[i].conversation_id == input.conversation_id@) by {
                    assert(!hit(old[i]));
                }
            },
        }
    }
}

/// After an update there is one change set more: the update's, which names the
/// entries that were added, refined, superseded and disputed.
pub proof fn law_update_is_on_record(
    store: StoreModel,
    input: CommitMemoryUpdateRow,
    persisted: PersistedEntries,
)
    ensures
        commit_step(store, input, persisted) matches Ok(CommitOutcome::Committed { store: after, ledger })
            ==> {
            let sets = after.change_sets;
            &&& sets.len() == store.change_sets.len() + 1
            &&& forall|i: int|
                0 <= i < store.change_sets.len() ==> #[trigger] sets[i] == store.change_sets[i]
            &&& forall|i: int|
                0 <= i < store.change_sets.len() ==> (#[trigger] store.change_sets[i]).id
                    != input.change_set_id@
            &&& sets.last().id == input.change_set_id@
            &&& sets.last().user_id == input.user_id@
            &&& sets.last().conversation_id == input.conversation_id@
            &&& sets.last().through_turn_id == input.through_turn_id@
            &&& sets.last().job_id == input.job_id@
            &&& sets.last().added_ids_json == json_list_text(ledger.added)
            &&& sets.last().refined_ids_json == json_list_text(ledger.refined)
            &&& sets.last().superseded_ids_json == json_list_text(ledger.superseded)
            &&& sets.last().conflict_ids_json == json_list_text(ledger.conflicts)
            &&& sets.last().created_at == input.now
        },
{
    if let Ok(CommitOutcome::Committed { store: after, ledger }) = commit_step(
        store,
        input,
        persisted,
    ) {
        assert forall|i: int| 0 <= i < store.change_sets.len() implies (
        #[trigger] store.change_sets[i]).id != input.change_set_id@ by {
            assert(!change_set_with_id(input.change_set_id@)(store.change_sets[i]));
        }
    }
}

/// An update touches neither settings nor policies nor messages nor the turns of
/// any job.
pub proof fn law_update_leaves_the_rest(
    store: StoreModel,
    input: CommitMemoryUpdateRow,
    persisted: PersistedEntries,
)
    ensures
        commit_step(store, input, persisted) matches Ok(CommitOutcome::Committed { store: after, .. })
            ==> {
            &&& after.users == store.users
            &&& after.conversations == store.conversations
            &&& after.messages == store.messages
            &&& after.settings == store.settings
            &&& after.policies == store.policies
            &&& after.queue.turns == store.queue.turns
            &&& after.retrievals == store.retrievals
            &&& after.import_states == store.import_states
        },
{
}

/// After an update its job has succeeded and is put down; a job that waits in the
/// conversation goes on behind the update's last turn, on the new revision; and
/// every other job is as it was.
pub proof fn law_update_ends_its_job(jobs: Seq<Job>, input: CommitMemoryUpdateRow, i: int)
    requires
        distinct_ids(jobs),
        0 <= i < jobs.len(),
        input.expected_revision < i64::MAX,
    ensures
        jobs_after(jobs, input) matches Ok(after) ==> {
            let old = jobs[i];
            let new = after[i];
            let own = old.id == input.job_id@ && old.user_id == input.user_id@ && old.state
                == "running"@;
            let next = waits(old) && old.user_id == input.user_id@ && old.conversation_id
                == input.conversation_id@;
            &&& after.len() == jobs.len()
            &&& own ==> is_same_work(new, old) && new.expected_revision == old.expected_revision
                && new.state == "succeeded"@ && is_put_down(new) && new.next_attempt_at
                == old.next_attempt_at && new.last_error_code == old.last_error_code
                && new.updated_at == input.now
            &&& !own && !next ==> new == old
            &&& next && new != old ==> {
                &&& new.id == old.id
                &&& new.user_id == old.user_id
                &&& new.conversation_id == old.conversation_id
                &&& new.state == old.state
                &&& new.turn_count == old.turn_count
                &&& new.through_turn_id == old.through_turn_id
                &&& new.queue_digest == old.queue_digest
                &&& new.from_turn_id == Some(input.through_turn_id@)
                &&& new.expected_revision == input.expected_revision + 1
                &&& new.updated_at == input.now
                &&& new.attempt_count == old.attempt_count
                &&& new.next_attempt_at == old.next_attempt_at
            }
        },
        jobs_after(jobs, input) matches Ok(after) ==> ((exists|k: int|
            0 <= k < jobs.len() && waits(#[trigger] jobs[k]) && jobs[k].user_id == input.user_id@
                && jobs[k].conversation_id == input.conversation_id@) ==> exists|k: int|
            0 <= k < after.len() && waits(#[trigger] after[k]) && after[k].user_id
                == input.user_id@ && after[k].conversation_id == input.conversation_id@
                && after[k].from_turn_id == Some(input.through_turn_id@)
                && after[k].expected_revision == input.expected_revision + 1),
{
    lemma_job_states();
    let done = updated(
        jobs,
        running_job(input.job_id@, input.user_id@),
        succeeded(input.now),
    );
    let hit = queued_in(input.user_id@, input.conversation_id@);
    lemma_lookup(done, hit);
    if let Ok(after) = jobs_after(jobs, input) {
        if let Some(next) = lookup(done, hit) {
            let n = choose|n: int| 0 <= n < done.len() && done[n] == next;
            assert(hit(done[n]));
            assert(jobs[n] == next);
            assert(jobs[i].id == next.id ==> i == n) by {
                if i != n {
                    assert(jobs[i].id != jobs[n].id);
                }
            }
            assert(waits(after[n]));
        } else {
            assert forall|k: int| 0 <= k < jobs.len() implies !(waits(#[trigger] jobs[k])
                && jobs[k].user_id == input.user_id@ && jobs[k].conversation_id
                == input.conversation_id@) by {
                assert(!hit(done[k]));
            }
        }
    }
}

pub proof fn lemma_job_states()
    ensures
        "running"@ != "pending"@,
        "running"@ != "retry_wait"@,
        "running"@ != "blocked"@,
        "succeeded"@ != "pending"@,
        "succeeded"@ != "retry_wait"@,
        "succeeded"@ != "blocked"@,
{
    reveal_strlit("running");
    reveal_strlit("pending");
    reveal_strlit("retry_wait");
    reveal_strlit("blocked");
    reveal_strlit("succeeded");
    assert("running"@.len() == 7 && "retry_wait"@.len() == 10 && "succeeded"@.len() == 9);
    assert("running"@[0] == 'r' && "pending"@[0] == 'p' && "blocked"@[0] == 'b');
    assert("pending"@.len() == 7 && "blocked"@.len() == 7);
}

/// Where no job of a conversation failed and none waits, a turn is queued in a new
/// job that starts behind the job that runs, on its revision, or else behind what
/// is remembered, or else at the beginning.
pub proof fn law_new_job_starts_behind(store: StoreModel, input: EnqueueMemoryTurnRow)
    requires
        forall|i: int|
            0 <= i < store.queue.jobs.len() && (#[trigger] store.queue.jobs[i]).user_id
                == input.user_id@ && store.queue.jobs[i].conversation_id == input.conversation_id@
                ==> store.queue.jobs[i].state != "failed"@ && !waits(store.queue.jobs[i]),
    ensures
        enqueue_step(store, input) matches Ok(Some(step)) ==> {
            let jobs = store.queue.jobs;
            &&& step.queue.jobs == jobs.push(step.job)
            &&& step.job.global_epoch == input.expected_global_epoch
            &&& step.job.conversation_epoch == input.expected_conversation_epoch
            &&& {
                ||| exists|k: int|
                    0 <= k < jobs.len() && (#[trigger] jobs[k]).user_id == input.user_id@
                        && jobs[k].conversation_id == input.conversation_id@ && jobs[k].state
                        == "running"@ && step.job.from_turn_id == Some(jobs[k].through_turn_id)
                        && step.job.expected_revision == jobs[k].expected_revision
                ||| (forall|k: int|
                    0 <= k < jobs.len() ==> !((#[trigger] jobs[k]).user_id == input.user_id@
                        && jobs[k].conversation_id == input.conversation_id@ && jobs[k].state
                        == "running"@)) && starts_behind_memory(step.job, store.memories, input)
            }
        },
{
    let user = input.user_id@;
    let id = input.conversation_id@;
    let jobs = store.queue.jobs;
    let failed = in_state(user, id, "failed"@);
    let running = in_state(user, id, "running"@);
    lemma_lookup(jobs, running);
    lemma_lookup(jobs, queued_in(user, id));
    lemma_least_selected(jobs, failed, older_job());
    let own = memory_of(user, id);
    lemma_lookup(store.memories, own);
    if let Ok(Some(step)) = enqueue_step(store, input) {
        match lookup(jobs, running) {
            Some(job) => {
                let k = choose|k: int| 0 <= k < jobs.len() && jobs[k] == job;
                assert(running(jobs[k]));
            },
            None => {
                assert forall|k: int| 0 <= k < jobs.len() implies !((#[trigger] jobs[k]).user_id
                    == user && jobs[k].conversation_id == id && jobs[k].state == "running"@) by {
                    assert(!running(jobs[k]));
                }
                match lookup(store.memories, own) {
                    Some(row) => {
                        let m = choose|m: int|
                            0 <= m < store.memories.len() && store.memories[m] == row;
                        assert(own(store.memories[m]));
                    },
                    None => {
                        assert forall|m: int| 0 <= m < store.memories.len() implies !((
                        #[trigger] store.memories[m]).user_id == user
                            && store.memories[m].conversation_id == id) by {
                            assert(!own(store.memories[m]));
                        }
                    },
                }
            },
        }
    }
}

/// Whether a job starts behind what is remembered of its conversation, or at the
/// beginning where nothing is.
pub open spec fn starts_behind_memory(
    job: Job,
    memories: Seq<ConversationMemoryRow<Seq<char>>>,
    input: EnqueueMemoryTurnRow,
) -> bool {
    ||| exists|m: int|
        0 <= m < memories.len() && (#[trigger] memories[m]).user_id == input.user_id@
            && memories[m].conversation_id == input.conversation_id@ && job.from_turn_id == Some(
            memories[m].through_turn_id,
        ) && job.expected_revision == memories[m].revision
    ||| (forall|m: int|
        0 <= m < memories.len() ==> !((#[trigger] memories[m]).user_id == input.user_id@
            && memories[m].conversation_id == input.conversation_id@)) && job.from_turn_id is None
        && job.expected_revision == 0
}

} // verus!

//! What is fixed of a claimed job, and what a split leaves, told by the rows.
use crate::memory::commands::{
    BoundedMemoryTurnMessagesRow, FinalizeMemoryJobSnapshotRow, MemoryReconciliationSnapshotRow,
    MemoryTurnSnapshotExpectationRow, SplitMemoryJobRow,
};
use crate::memory::commit_effects::lemma_job_states;
use crate::memory::consent_laws::{keys_are_unique, lemma_earliest};
use crate::memory::evidence::{
    content_hash, of_turn, snapshot_of, total_bytes, turn_evidence, SnapshotModel,
    MEMORY_EVIDENCE_MAX_BYTES, MEMORY_EVIDENCE_MAX_MESSAGES,
};
use crate::memory::finalize::{
    entry_of, finalize_step, is_bounded, reconciled, row_reconciled, snapshot_turns,
    turns_confirmed, FinalizeOutcome, MAX_RECONCILED_ENTRIES,
};
use crate::memory::job_laws::{is_put_down, waits};
use crate::memory::leases::leased;
use crate::memory::queue::{queued_in, Job, QueueModel, Turn};
use crate::memory::queue_laws::distinct_ids;
use crate::memory::rows::{MemoryEntryDbRow, TurnMessageRow};
use crate::memory::split::{shortened, split_at, split_step};
use crate::memory::store::{policy_of, settings_of, StoreModel};
use crate::table::{lemma_lookup, lookup, model, updated};
use crate::text::opt_text;
use vstd::prelude::*;

verus! {

// ----------------------------------------------------------------------------
// What a writer saw
// ----------------------------------------------------------------------------

/// Whether an entry is, field by field, what a writer saw of it, with the same
/// content so far as its hash tells.
pub open spec fn is_as_it_was_seen(
    entry: MemoryEntryDbRow<Seq<char>>,
    seen: MemoryReconciliationSnapshotRow,
    user: Seq<char>,
) -> bool {
    &&& entry.id == seen.id@
    &&& entry.user_id == user
    &&& entry.revision == seen.revision
    &&& entry.state == seen.state@
    &&& entry.state == "active"@
    &&& entry.fingerprint == seen.fingerprint@
    &&& entry.project_id == opt_text(seen.project_id)
    &&& entry.workspace_key == opt_text(seen.workspace_key)
    &&& entry.pinned == seen.pinned
    &&& entry.user_edited == seen.user_edited
    &&& content_hash(entry.content) == seen.content_hash@
}

/// Whether the entry that a writer saw is there as it was seen.
pub open spec fn is_still_there(
    entries: Seq<MemoryEntryDbRow<Seq<char>>>,
    seen: MemoryReconciliationSnapshotRow,
    user: Seq<char>,
) -> bool {
    exists|k: int| 0 <= k < entries.len() && is_as_it_was_seen(#[trigger] entries[k], seen, user)
}

/// What a writer saw of the entries still holds only where each of them is there
/// as it was seen, active and the user's, and none was seen twice.
pub proof fn law_entries_are_as_seen(
    entries: Seq<MemoryEntryDbRow<Seq<char>>>,
    user: Seq<char>,
    seen: Seq<MemoryReconciliationSnapshotRow>,
)
    requires
        reconciled(entries, user, seen),
    ensures
        forall|i: int|
            0 <= i < seen.len() ==> is_still_there(entries, #[trigger] seen[i], user),
        forall|i: int, j: int|
            0 <= i < j < seen.len() ==> (#[trigger] seen[i]).id@ != (#[trigger] seen[j]).id@,
{
    assert forall|i: int| 0 <= i < seen.len() implies is_still_there(
        entries,
        #[trigger] seen[i],
        user,
    ) by {
        assert(row_reconciled(entries, user, seen, i));
        let hit = entry_of(seen[i].id@, user);
        lemma_lookup(entries, hit);
        let row = lookup(entries, hit)->0;
        let k = choose|k: int| 0 <= k < entries.len() && entries[k] == row;
        assert(is_as_it_was_seen(entries[k], seen[i], user));
    }
    assert forall|i: int, j: int| 0 <= i < j < seen.len() implies (#[trigger] seen[i]).id@ != (
    #[trigger] seen[j]).id@ by {
        assert(row_reconciled(entries, user, seen, j));
    }
}

/// And it does hold wherever that is so, up to the number that is kept, ids being
/// unique.
pub proof fn law_seen_entries_are_accepted(
    entries: Seq<MemoryEntryDbRow<Seq<char>>>,
    user: Seq<char>,
    seen: Seq<MemoryReconciliationSnapshotRow>,
)
    requires
        seen.len() <= MAX_RECONCILED_ENTRIES,
        forall|i: int, j: int|
            0 <= i < entries.len() && 0 <= j < entries.len() && (#[trigger] entries[i]).id == (
            #[trigger] entries[j]).id ==> i == j,
        forall|i: int|
            0 <= i < seen.len() ==> is_still_there(entries, #[trigger] seen[i], user),
        forall|i: int, j: int|
            0 <= i < j < seen.len() ==> (#[trigger] seen[i]).id@ != (#[trigger] seen[j]).id@,
    ensures
        reconciled(entries, user, seen),
{
    assert forall|i: int| 0 <= i < seen.len() implies #[trigger] row_reconciled(
        entries,
        user,
        seen,
        i,
    ) by {
        let k = choose|k: int|
            0 <= k < entries.len() && is_as_it_was_seen(#[trigger] entries[k], seen[i], user);
        let hit = entry_of(seen[i].id@, user);
        lemma_lookup(entries, hit);
        assert(hit(entries[k]));
        let row = lookup(entries, hit)->0;
        let m = choose|m: int| 0 <= m < entries.len() && entries[m] == row;
        assert(entries[m].id == entries[k].id);
    }
}

// ----------------------------------------------------------------------------
// Fixing a claimed job
// ----------------------------------------------------------------------------

proof fn lemma_all_confirmed(
    messages: Seq<TurnMessageRow<Seq<char>>>,
    conversation_id: Seq<char>,
    list: Seq<Turn>,
    seen: Seq<MemoryTurnSnapshotExpectationRow>,
    count: int,
    k: int,
)
    requires
        turns_confirmed(messages, conversation_id, list, seen, count) == Ok::<
            bool,
            crate::error::DbError<Seq<char>>,
        >(true),
        0 <= k < count,
    ensures
        is_confirmed(messages, conversation_id, list[k].turn_id, seen[k].snapshot_hash@),
    decreases count,
{
    if k < count - 1 {
        lemma_all_confirmed(messages, conversation_id, list, seen, count - 1, k);
    }
}

/// Whether a turn still is what a writer saw: its messages hash to the same, say
/// no more than is kept of one, and both sides said something.
pub open spec fn is_confirmed(
    messages: Seq<TurnMessageRow<Seq<char>>>,
    conversation_id: Seq<char>,
    turn_id: Seq<char>,
    hash: Seq<char>,
) -> bool {
    let found = snapshot_of(messages, conversation_id, turn_id);
    &&& found is Ok
    &&& found->Ok_0.hash == hash
    &&& found->Ok_0.has_user_work
    &&& found->Ok_0.has_assistant_outcome
    &&& !found->Ok_0.absolute_limit_exceeded
}

/// A claimed job is fixed only where its worker holds it, in the epochs that the
/// worker, the job and the rows agree on; where each of its turns still is what
/// the worker saw; and where the entries are. The job then waits, runs and counts
/// as before, and what the worker saw of the entries stays on it.
pub proof fn law_job_is_fixed(
    store: StoreModel,
    input: FinalizeMemoryJobSnapshotRow,
    encoded: Seq<char>,
)
    requires
        keys_are_unique(store),
    ensures
        finalize_step(store, input, encoded) matches Ok(
            FinalizeOutcome::Finalized { queue, job },
        ) ==> exists|j: int|
            #![trigger store.queue.jobs[j]]
            {
                let jobs = store.queue.jobs;
                let old = jobs[j];
                let list = snapshot_turns(store.queue.turns, input.job_id@);
                &&& 0 <= j < jobs.len()
                &&& old.id == input.job_id@
                &&& old.user_id == input.user_id@
                &&& old.state == "running"@
                &&& old.lease_token == Some(input.lease_token@)
                &&& old.lease_expires_at is Some
                &&& old.lease_expires_at->0 > input.now
                &&& old.global_epoch == input.expected_global_epoch
                &&& old.conversation_epoch == input.expected_conversation_epoch
                &&& forall|s: int|
                    0 <= s < store.settings.len() && (#[trigger] store.settings[s]).user_id
                        == input.user_id@ ==> store.settings[s].lifecycle_epoch
                        == input.expected_global_epoch
                &&& forall|p: int|
                    0 <= p < store.policies.len() && (#[trigger] store.policies[p]).user_id
                        == input.user_id@ && store.policies[p].conversation_id
                        == old.conversation_id ==> store.policies[p].lifecycle_epoch
                        == input.expected_conversation_epoch
                &&& list.len() == old.turn_count
                &&& list.len() == input.turn_snapshots@.len()
                &&& forall|k: int|
                    0 <= k < list.len() ==> (#[trigger] list[k]).turn_id
                        == input.turn_snapshots@[k].turn_id@ && is_confirmed(
                        store.messages,
                        old.conversation_id,
                        list[k].turn_id,
                        input.turn_snapshots@[k].snapshot_hash@,
                    )
                &&& input.reconciliation_snapshot matches Some(entries) ==> reconciled(
                    store.entries,
                    input.user_id@,
                    entries@,
                )
                &&& input.require_existing_reconciliation_snapshot
                    ==> old.reconciliation_snapshot_json is Some
                &&& old.reconciliation_snapshot_json is Some ==> job.reconciliation_snapshot_json
                    == old.reconciliation_snapshot_json
                &&& old.reconciliation_snapshot_json is None && input.reconciliation_snapshot is Some
                    ==> job.reconciliation_snapshot_json == Some(encoded)
                &&& old.reconciliation_snapshot_json is None && input.reconciliation_snapshot is None
                    ==> job.reconciliation_snapshot_json is None
                &&& job.id == old.id
                &&& job.user_id == old.user_id
                &&& job.conversation_id == old.conversation_id
                &&& job.from_turn_id == old.from_turn_id
                &&& job.through_turn_id == old.through_turn_id
                &&& job.turn_count == old.turn_count
                &&& job.expected_revision == old.expected_revision
                &&& job.state == old.state
                &&& job.attempt_count == old.attempt_count
                &&& job.lease_owner == old.lease_owner
                &&& job.lease_token == old.lease_token
                &&& job.lease_expires_at == old.lease_expires_at
                &&& job.updated_at == input.now
                &&& queue.jobs.len() == jobs.len()
                &&& queue.jobs[j] == job
                &&& forall|i: int|
                    0 <= i < jobs.len() && jobs[i].id != input.job_id@ ==> #[trigger] queue.jobs[i]
                        == jobs[i]
            },
{
    let user = input.user_id@;
    let hit = leased(input.job_id@, user, input.lease_token@, input.now);
    lemma_lookup(store.queue.jobs, hit);
    lemma_lookup(store.settings, settings_of(user));
    if let Ok(FinalizeOutcome::Finalized { queue, job }) = finalize_step(store, input, encoded) {
        let old = lookup(store.queue.jobs, hit)->0;
        let j = choose|j: int| 0 <= j < store.queue.jobs.len() && store.queue.jobs[j] == old;
        let list = snapshot_turns(store.queue.turns, input.job_id@);
        let policy = policy_of(user, old.conversation_id);
        lemma_lookup(store.policies, policy);
        assert forall|s: int|
            0 <= s < store.settings.len() && (#[trigger] store.settings[s]).user_id
                == user implies store.settings[s].lifecycle_epoch
            == input.expected_global_epoch by {
            assert(settings_of(user)(store.settings[s]));
            let row = lookup(store.settings, settings_of(user))->0;
            let m = choose|m: int| 0 <= m < store.settings.len() && store.settings[m] == row;
            assert(store.settings[m].user_id == user);
        }
        assert forall|p: int|
            0 <= p < store.policies.len() && (#[trigger] store.policies[p]).user_id == user
                && store.policies[p].conversation_id == old.conversation_id
                implies store.policies[p].lifecycle_epoch == input.expected_conversation_epoch by {
            assert(policy(store.policies[p]));
            let row = lookup(store.policies, policy)->0;
            let m = choose|m: int| 0 <= m < store.policies.len() && store.policies[m] == row;
            assert(store.policies[m].user_id == user);
        }
        assert forall|k: int| 0 <= k < list.len() implies (#[trigger] list[k]).turn_id
            == input.turn_snapshots@[k].turn_id@ && is_confirmed(
            store.messages,
            old.conversation_id,
            list[k].turn_id,
            input.turn_snapshots@[k].snapshot_hash@,
        ) by {
            lemma_all_confirmed(
                store.messages,
                old.conversation_id,
                list,
                input.turn_snapshots@,
                list.len() as int,
                k,
            );
        }
        assert(store.queue.jobs[j] == old);
    }
}

// ----------------------------------------------------------------------------
// Snapshots
// ----------------------------------------------------------------------------

proof fn lemma_bytes_count(rows: Seq<TurnMessageRow<Seq<char>>>)
    ensures
        total_bytes(rows) >= 0,
    decreases rows.len(),
{
    if rows.len() > 0 {
        lemma_bytes_count(rows.drop_last());
    }
}

/// A snapshot of a turn counts its evidence and the bytes of it, says whether that
/// is more than is kept, and hands on the evidence only where it is not. Its time
/// is that of the turn's earliest message.
pub proof fn law_snapshot_counts_evidence(
    messages: Seq<TurnMessageRow<Seq<char>>>,
    conversation_id: Seq<char>,
    turn_id: Seq<char>,
)
    ensures
        snapshot_of(messages, conversation_id, turn_id) matches Ok(snapshot) ==> {
            let rows = turn_evidence(messages, conversation_id, turn_id);
            let over = rows.len() > MEMORY_EVIDENCE_MAX_MESSAGES || total_bytes(rows)
                > MEMORY_EVIDENCE_MAX_BYTES;
            &&& snapshot.content_bytes == total_bytes(rows)
            &&& rows.len() <= i64::MAX ==> snapshot.message_count == rows.len()
            &&& snapshot.absolute_limit_exceeded == over
            &&& over ==> snapshot.messages.len() == 0
            &&& !over ==> snapshot.messages.len() == rows.len() && forall|i: int|
                0 <= i < rows.len() ==> {
                    &&& (#[trigger] snapshot.messages[i]).id == rows[i].message.id
                    &&& snapshot.messages[i].conversation_id == rows[i].message.conversation_id
                    &&& snapshot.messages[i].turn_id == rows[i].message.turn_id
                    &&& snapshot.messages[i].msg_id == rows[i].message.msg_id
                    &&& snapshot.messages[i].message_type == rows[i].message.message_type
                    &&& snapshot.messages[i].position == rows[i].message.position
                    &&& snapshot.messages[i].status == rows[i].message.status
                    &&& snapshot.messages[i].hidden == rows[i].message.hidden
                    &&& snapshot.messages[i].created_at == rows[i].message.created_at
                }
            &&& forall|i: int|
                0 <= i < messages.len() && (#[trigger] messages[i]).message.conversation_id
                    == conversation_id && messages[i].message.turn_id == Some(turn_id)
                    ==> snapshot.earliest_all_at is Some && snapshot.earliest_all_at->0
                    <= messages[i].message.created_at
        },
{
    let hit = of_turn(conversation_id, turn_id);
    lemma_earliest(messages, hit);
    lemma_bytes_count(turn_evidence(messages, conversation_id, turn_id));
    assert forall|i: int|
        0 <= i < messages.len() && (#[trigger] messages[i]).message.conversation_id
            == conversation_id && messages[i].message.turn_id == Some(turn_id) implies hit(
        messages[i],
    ) by {}
}

/// What is loaded of a turn keeps to the caller's limits as well: over them, or
/// over what is kept at all, no message is handed out, and it says so; what it
/// counts is counted either way, and it says whether the turn is as it was.
pub proof fn law_loaded_turn_is_bounded(
    row: BoundedMemoryTurnMessagesRow,
    snapshot: SnapshotModel,
    stored_hash: Seq<char>,
    max_messages: u32,
    max_bytes: u64,
)
    requires
        is_bounded(row, snapshot, stored_hash, max_messages, max_bytes),
    ensures
        row.message_count == snapshot.message_count,
        row.content_bytes == snapshot.content_bytes,
        row.limit_exceeded == (snapshot.absolute_limit_exceeded || snapshot.message_count
            > max_messages || snapshot.content_bytes > max_bytes),
        row.limit_exceeded ==> row.messages@.len() == 0,
        !row.limit_exceeded ==> model(row.messages@) == snapshot.messages,
        row.snapshot_matches == (snapshot.hash == stored_hash),
        row.snapshot_hash@ == snapshot.hash,
        row.has_user_work == snapshot.has_user_work,
        row.has_assistant_outcome == snapshot.has_assistant_outcome,
{
    assert(model(row.messages@).len() == row.messages@.len());
}

// ----------------------------------------------------------------------------
// Splitting
// ----------------------------------------------------------------------------

/// A job is split only by the worker that holds it, and only into two parts that
/// both have turns. It then goes on with the first turns, as many as were named;
/// the rest waits in another job, behind the last of them, on the same revision
/// and under the same epochs.
pub proof fn law_split_leaves_the_rest_waiting(queue: QueueModel, input: SplitMemoryJobRow)
    requires
        distinct_ids(queue.jobs),
    ensures
        split_step(queue, input) matches Some(Ok(after)) ==> exists|j: int|
            #![trigger queue.jobs[j]]
            {
                let old = queue.jobs[j];
                let new = after.jobs[j];
                &&& 0 <= j < queue.jobs.len()
                &&& old.id == input.job_id@
                &&& old.user_id == input.user_id@
                &&& old.state == "running"@
                &&& old.lease_token == Some(input.lease_token@)
                &&& old.lease_expires_at is Some
                &&& old.lease_expires_at->0 > input.now
                &&& 0 < input.prefix_count < old.turn_count
                &&& new.id == old.id
                &&& new.user_id == old.user_id
                &&& new.conversation_id == old.conversation_id
                &&& new.from_turn_id == old.from_turn_id
                &&& new.turn_count == input.prefix_count
                &&& new.state == "running"@
                &&& new.lease_token == old.lease_token
                &&& new.lease_owner == old.lease_owner
                &&& new.lease_expires_at == old.lease_expires_at
                &&& new.expected_revision == old.expected_revision
                &&& new.global_epoch == old.global_epoch
                &&& new.conversation_epoch == old.conversation_epoch
                &&& new.attempt_count == old.attempt_count
                &&& exists|r: int|
                    0 <= r < after.jobs.len() && r != j && takes_the_rest(
                        #[trigger] after.jobs[r],
                        new,
                        old,
                        input,
                    ) && (r < queue.jobs.len() ==> waits(queue.jobs[r]) && after.jobs[r].id
                        == queue.jobs[r].id && after.jobs[r].through_turn_id
                        == queue.jobs[r].through_turn_id && after.jobs[r].turn_count
                        == old.turn_count - input.prefix_count + queue.jobs[r].turn_count) && (r
                        == queue.jobs.len() ==> after.jobs[r].id == input.pending_job_id@
                        && after.jobs[r].through_turn_id == old.through_turn_id
                        && after.jobs[r].turn_count == old.turn_count - input.prefix_count
                        && after.jobs[r].attempt_count == 0 && is_put_down(after.jobs[r]))
            },
        split_step(queue, input) is None ==> forall|i: int|
            0 <= i < queue.jobs.len() ==> !((#[trigger] queue.jobs[i]).id == input.job_id@
                && queue.jobs[i].user_id == input.user_id@ && queue.jobs[i].state == "running"@
                && queue.jobs[i].lease_token == Some(input.lease_token@)
                && queue.jobs[i].lease_expires_at is Some && queue.jobs[i].lease_expires_at->0
                > input.now),
{
    lemma_job_states();
    let hit = leased(input.job_id@, input.user_id@, input.lease_token@, input.now);
    let jobs = queue.jobs;
    lemma_lookup(jobs, hit);
    if let Some(Ok(after)) = split_step(queue, input) {
        let old = lookup(jobs, hit)->0;
        let j = choose|j: int| 0 <= j < jobs.len() && jobs[j] == old;
        assert(hit(jobs[j]));
        let split = split_at(queue.turns, old, input.prefix_count)->Ok_0;
        let cut = updated(jobs, hit, shortened(old, split, input.now));
        assert(cut[j].turn_count == input.prefix_count);
        assert forall|i: int| 0 <= i < jobs.len() && i != j implies #[trigger] cut[i]
            == jobs[i] by {
            assert(jobs[i].id != jobs[j].id);
        }
        let queued = queued_in(input.user_id@, old.conversation_id);
        lemma_lookup(cut, queued);
        if let Some(next) = lookup(cut, queued) {
            let r = choose|r: int| 0 <= r < cut.len() && cut[r] == next;
            assert(queued(cut[r]));
            assert(r != j);
            assert(jobs[r] == next);
            assert(jobs[r].id != jobs[j].id);
            assert(after.jobs[j] == cut[j]);
            assert(takes_the_rest(after.jobs[r], after.jobs[j], old, input));
        } else {
            let r = jobs.len() as int;
            assert(after.jobs[j] == cut[j]);
            assert(takes_the_rest(after.jobs[r], after.jobs[j], old, input));
        }
        assert(jobs[j] == old);
    }
    if split_step(queue, input) is None {
        assert forall|i: int| 0 <= i < jobs.len() implies !((#[trigger] jobs[i]).id
            == input.job_id@ && jobs[i].user_id == input.user_id@ && jobs[i].state == "running"@
            && jobs[i].lease_token == Some(input.lease_token@) && jobs[i].lease_expires_at is Some
            && jobs[i].lease_expires_at->0 > input.now) by {
            assert(!hit(jobs[i]));
        }
    }
}

/// Whether a job waits with what a split job gave up, behind what it kept.
pub open spec fn takes_the_rest(
    rest: Job,
    kept: Job,
    old: Job,
    input: SplitMemoryJobRow,
) -> bool {
    &&& rest.user_id == input.user_id@
    &&& rest.conversation_id == old.conversation_id
    &&& rest.state == "pending"@
    &&& rest.next_attempt_at is None
    &&& rest.from_turn_id == Some(kept.through_turn_id)
    &&& rest.expected_revision == old.expected_revision
    &&& rest.global_epoch == old.global_epoch
    &&& rest.conversation_epoch == old.conversation_epoch
    &&& rest.updated_at == input.now
}

} // verus!

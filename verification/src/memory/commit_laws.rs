//! What committing an update promises: a user's hand and a tombstone are
//! respected, an update counts once, and only for the state it was made from.
use crate::error::DbError;
use crate::memory::commands::{
    CommitMemoryEntryRow, CommitMemoryEntryTransition, CommitMemoryUpdateResult,
    CommitMemoryUpdateRow, ExpectedMemoryEntryRow,
};
use crate::memory::commit::{
    commit_done, commit_step, fence_lost, first_memory, memories_after, memory_at, requeued_for,
    rewritten, running_job, succeeded, CommitOutcome, PersistedEntries,
};
use crate::memory::enqueue::gate_of;
use crate::memory::entries::Entry;
use crate::memory::ledger::{
    conflict_marked, expected, identity_in_state, is_protected, roughly_expected, write_entries,
    write_entry, EntryStep, Ledger, WriteContext,
};
use crate::memory::queue::{
    is_queued, join_turns, owned, queued_in, rebase_fits, requeue, settle, turns_from, Job,
    QueueModel,
};
use crate::memory::queue_laws::{
    distinct_ids, has_turn, is_turn, law_settle_alone_keeps_turns, law_settle_joins_in_order,
    lemma_member_sound, sound, turns_of_job,
};
use crate::memory::rows::{ConversationRow, TurnMessageRow};
use crate::memory::store::{memory_of, policy_of, settings_of, StoreModel};
use crate::table::{
    exists_in, first_at, lemma_lookup, lemma_lookup_added, lemma_lookup_first, lookup, selected,
    updated,
};
use vstd::prelude::*;

verus! {

// ----------------------------------------------------------------------------
// Entries that a user's hand is on
// ----------------------------------------------------------------------------

/// Where one row is selected, no two are.
pub proof fn lemma_only_one(rows: Seq<Entry>, hit: spec_fn(Entry) -> bool, a: int, b: int)
    requires
        selected(rows, hit).len() == 1,
        0 <= a < rows.len(),
        0 <= b < rows.len(),
        hit(rows[a]),
        hit(rows[b]),
    ensures
        a == b,
    decreases rows.len(),
{
    let head = rows.drop_last();
    let last = rows.len() - 1;
    if a < last {
        assert(head[a] == rows[a]);
        lemma_some_selected(head, hit, a);
    }
    if b < last {
        assert(head[b] == rows[b]);
        lemma_some_selected(head, hit, b);
    }
    if a < last && b < last {
        lemma_only_one(head, hit, a, b);
    }
}

proof fn lemma_some_selected(rows: Seq<Entry>, hit: spec_fn(Entry) -> bool, at: int)
    requires
        0 <= at < rows.len(),
        hit(rows[at]),
    ensures
        selected(rows, hit).len() > 0,
    decreases rows.len(),
{
    if at < rows.len() - 1 {
        assert(rows.drop_last()[at] == rows[at]);
        lemma_some_selected(rows.drop_last(), hit, at);
    }
}

/// Whether an update for a user leaves an entry alone.
pub open spec fn out_of_reach(entry: Entry, user_id: Seq<char>) -> bool {
    is_protected(entry) || entry.state != "active"@ || entry.user_id != user_id
}

/// Whether the entries that are out of reach stand where they stood, and every
/// new one is the user's.
pub open spec fn spared(before: Seq<Entry>, after: Seq<Entry>, user_id: Seq<char>) -> bool {
    &&& after.len() >= before.len()
    &&& forall|i: int|
        0 <= i < before.len() && out_of_reach(before[i], user_id) ==> #[trigger] after[i]
            == before[i]
    &&& forall|i: int|
        before.len() <= i < after.len() ==> (#[trigger] after[i]).user_id == user_id
}

proof fn lemma_marked_spares(
    ledger: Ledger,
    target: ExpectedMemoryEntryRow,
    group_id: Seq<char>,
    context: WriteContext,
)
    ensures
        conflict_marked(ledger, target, group_id, context) matches Some(next) ==> spared(
            ledger.entries,
            next.entries,
            context.user_id,
        ),
{
    let wanted = expected(context.user_id, target);
    let rough = roughly_expected(context.user_id, target);
    let entries = ledger.entries;
    lemma_lookup(entries, wanted);
    if let Some(found) = lookup(entries, wanted) {
        if !is_protected(found) && selected(entries, rough).len() == 1 {
            let k = choose|k: int| 0 <= k < entries.len() && entries[k] == found;
            assert(rough(entries[k]));
            assert forall|i: int|
                0 <= i < entries.len() && out_of_reach(
                    entries[i],
                    context.user_id,
                ) implies !rough(#[trigger] entries[i]) by {
                if rough(entries[i]) {
                    lemma_only_one(entries, rough, i, k);
                }
            }
        }
    }
}

pub proof fn lemma_write_spares(
    conversations: Seq<ConversationRow<Seq<char>>>,
    messages: Seq<TurnMessageRow<Seq<char>>>,
    ledger: Ledger,
    written: CommitMemoryEntryRow,
    context: WriteContext,
)
    ensures
        write_entry(conversations, messages, ledger, written, context) matches EntryStep::Written(
            next,
        ) ==> spared(ledger.entries, next.entries, context.user_id),
{
    match written.transition {
        CommitMemoryEntryTransition::Conflict { target, conflict_group_id } => {
            lemma_marked_spares(ledger, target, conflict_group_id@, context);
        },
        _ => {},
    }
}

/// An update never changes an entry that a user has pinned or edited, nor one
/// that is superseded, in conflict or deleted, nor another user's. What it adds
/// is the user's.
pub proof fn law_update_spares_entries(
    conversations: Seq<ConversationRow<Seq<char>>>,
    messages: Seq<TurnMessageRow<Seq<char>>>,
    ledger: Ledger,
    written: Seq<CommitMemoryEntryRow>,
    context: WriteContext,
    at: int,
)
    requires
        0 <= at < ledger.entries.len(),
        out_of_reach(ledger.entries[at], context.user_id),
    ensures
        write_entries(conversations, messages, ledger, written, context) matches EntryStep::Written(
            next,
        ) ==> next.entries.len() >= ledger.entries.len() && next.entries[at]
            == ledger.entries[at] && forall|i: int|
            ledger.entries.len() <= i < next.entries.len() ==> (#[trigger] next.entries[i]).user_id
                == context.user_id,
    decreases written.len(),
{
    if written.len() > 0 {
        law_update_spares_entries(
            conversations,
            messages,
            ledger,
            written.drop_last(),
            context,
            at,
        );
        if let EntryStep::Written(next) = write_entries(
            conversations,
            messages,
            ledger,
            written.drop_last(),
            context,
        ) {
            lemma_write_spares(conversations, messages, next, written.last(), context);
        }
    }
}

// ----------------------------------------------------------------------------
// Tombstones
// ----------------------------------------------------------------------------

/// Whether every entry of an identity after a write was there before it, of the
/// same identity and state.
spec fn none_comes_back(
    before: Seq<Entry>,
    after: Seq<Entry>,
    user_id: Seq<char>,
    fingerprint: Seq<char>,
) -> bool {
    forall|i: int|
        0 <= i < after.len() && identity_in_state(user_id, fingerprint, "active"@)(
            #[trigger] after[i],
        ) ==> i < before.len() && identity_in_state(user_id, fingerprint, "active"@)(before[i])
}

pub proof fn lemma_states_differ()
    ensures
        "active"@ != "superseded"@,
        "active"@ != "conflict"@,
        "active"@ != "deleted"@,
{
    reveal_strlit("active");
    reveal_strlit("superseded");
    reveal_strlit("conflict");
    reveal_strlit("deleted");
    assert("active"@[0] == 'a' && "superseded"@[0] == 's' && "conflict"@[0] == 'c' && "deleted"@[0]
        == 'd');
}

proof fn lemma_write_keeps_buried(
    conversations: Seq<ConversationRow<Seq<char>>>,
    messages: Seq<TurnMessageRow<Seq<char>>>,
    ledger: Ledger,
    written: CommitMemoryEntryRow,
    context: WriteContext,
    fingerprint: Seq<char>,
)
    requires
        exists_in(ledger.entries, identity_in_state(context.user_id, fingerprint, "deleted"@)),
    ensures
        write_entry(conversations, messages, ledger, written, context) matches EntryStep::Written(
            next,
        ) ==> none_comes_back(ledger.entries, next.entries, context.user_id, fingerprint)
            && exists_in(
            next.entries,
            identity_in_state(context.user_id, fingerprint, "deleted"@),
        ),
{
    lemma_states_differ();
    let buried = identity_in_state(context.user_id, fingerprint, "deleted"@);
    let k = choose|k: int| 0 <= k < ledger.entries.len() && buried(#[trigger] ledger.entries[k]);
    lemma_write_spares(conversations, messages, ledger, written, context);
    if let EntryStep::Written(next) = write_entry(
        conversations,
        messages,
        ledger,
        written,
        context,
    ) {
        assert(buried(next.entries[k]));
        if written.fingerprint@ == fingerprint {
            assert(next.entries == ledger.entries);
        } else {
            assert forall|i: int|
                0 <= i < next.entries.len() && identity_in_state(
                    context.user_id,
                    fingerprint,
                    "active"@,
                )(#[trigger] next.entries[i]) implies i < ledger.entries.len() && identity_in_state(
                context.user_id,
                fingerprint,
                "active"@,
            )(ledger.entries[i]) by {}
        }
    }
}

/// What a user has deleted does not come back: an update makes no entry of a
/// deleted identity active.
pub proof fn law_deleted_stays_deleted(
    conversations: Seq<ConversationRow<Seq<char>>>,
    messages: Seq<TurnMessageRow<Seq<char>>>,
    ledger: Ledger,
    written: Seq<CommitMemoryEntryRow>,
    context: WriteContext,
    fingerprint: Seq<char>,
)
    requires
        exists_in(ledger.entries, identity_in_state(context.user_id, fingerprint, "deleted"@)),
    ensures
        write_entries(conversations, messages, ledger, written, context) matches EntryStep::Written(
            next,
        ) ==> exists_in(next.entries, identity_in_state(context.user_id, fingerprint, "deleted"@))
            && forall|i: int|
            0 <= i < next.entries.len() && identity_in_state(
                context.user_id,
                fingerprint,
                "active"@,
            )(#[trigger] next.entries[i]) ==> i < ledger.entries.len() && identity_in_state(
                context.user_id,
                fingerprint,
                "active"@,
            )(ledger.entries[i]),
    decreases written.len(),
{
    if written.len() > 0 {
        law_deleted_stays_deleted(
            conversations,
            messages,
            ledger,
            written.drop_last(),
            context,
            fingerprint,
        );
        if let EntryStep::Written(next) = write_entries(
            conversations,
            messages,
            ledger,
            written.drop_last(),
            context,
        ) {
            lemma_write_keeps_buried(
                conversations,
                messages,
                next,
                written.last(),
                context,
                fingerprint,
            );
        }
    }
}

// ----------------------------------------------------------------------------
// The fence
// ----------------------------------------------------------------------------

/// Nothing comes of an update unless its job runs under the writer's lease and
/// was queued in the present epochs, with memory and capture switched on.
pub proof fn law_commit_is_fenced(
    store: StoreModel,
    input: CommitMemoryUpdateRow,
    persisted: PersistedEntries,
)
    requires
        commit_step(store, input, persisted) is Ok,
    ensures
        ({
            let job = lookup(store.queue.jobs, owned(input.job_id@, input.user_id@));
            let settings = lookup(store.settings, settings_of(input.user_id@));
            let policy = lookup(store.policies, policy_of(input.user_id@, input.conversation_id@));
            &&& job is Some
            &&& settings is Some
            &&& job->0.state == "running"@
            &&& job->0.lease_token == Some(input.lease_token@)
            &&& gate_of(settings->0, policy).enabled
            &&& gate_of(settings->0, policy).capture
            &&& gate_of(settings->0, policy).global_epoch == job->0.global_epoch
            &&& gate_of(settings->0, policy).conversation_epoch == job->0.conversation_epoch
        }),
{
}

/// The store after a committed update.
pub open spec fn committed(
    store: StoreModel,
    input: CommitMemoryUpdateRow,
    persisted: PersistedEntries,
) -> Option<StoreModel> {
    match commit_step(store, input, persisted) {
        Ok(CommitOutcome::Committed { store: after, .. }) => Some(after),
        _ => None,
    }
}

/// A committed update raises the revision of what is remembered of the
/// conversation by exactly one, and that then reaches through the update's last
/// turn.
pub proof fn law_commit_raises_revision(
    store: StoreModel,
    input: CommitMemoryUpdateRow,
    persisted: PersistedEntries,
)
    requires
        input.expected_revision < i64::MAX,
    ensures
        committed(store, input, persisted) matches Some(after) ==> (lookup(
            after.memories,
            memory_of(input.user_id@, input.conversation_id@),
        ) matches Some(row) && row.revision == input.expected_revision + 1 && row.summary_json
            == input.summary_json@ && row.through_turn_id == input.through_turn_id@),
{
    if committed(store, input, persisted) is Some {
        let hit = memory_of(input.user_id@, input.conversation_id@);
        let after = memories_after(store.memories, input);
        lemma_lookup(store.memories, hit);
        if lookup(store.memories, hit) is Some {
            let at = choose|at: int| #[trigger] first_at(store.memories, hit, at);
            lemma_lookup_first(store.memories, hit, at);
            assert(memory_at(input)(store.memories[at]));
            assert(after[at] == rewritten(input)(store.memories[at]));
            assert forall|k: int| 0 <= k < at implies !hit(#[trigger] after[k]) by {
                assert(!hit(store.memories[k]));
            }
            assert(first_at(after, hit, at));
            lemma_lookup_first(after, hit, at);
        } else {
            lemma_lookup_added(store.memories, hit, first_memory(input));
        }
    }
}

/// An update counts once: the same update again finds its job done and changes
/// nothing.
pub proof fn law_commit_counts_once(
    store: StoreModel,
    input: CommitMemoryUpdateRow,
    persisted: PersistedEntries,
    again: PersistedEntries,
)
    requires
        distinct_ids(store.queue.jobs),
    ensures
        committed(store, input, persisted) matches Some(after) ==> commit_step(after, input, again)
            == Err::<CommitOutcome, DbError<Seq<char>>>(fence_lost(input.job_id@)),
{
    if let Some(after) = committed(store, input, persisted) {
        let jobs = store.queue.jobs;
        let hit = owned(input.job_id@, input.user_id@);
        let done = updated(
            jobs,
            running_job(input.job_id@, input.user_id@),
            succeeded(input.now),
        );
        lemma_lookup(jobs, hit);
        let at = choose|at: int| #[trigger] first_at(jobs, hit, at);
        lemma_lookup_first(jobs, hit, at);
        assert(done[at] == succeeded(input.now)(jobs[at]));
        lemma_done_is_over();
        let queued = queued_in(input.user_id@, input.conversation_id@);
        lemma_lookup(done, queued);
        let last = after.queue.jobs;
        if let Some(next) = lookup(done, queued) {
            let n = choose|n: int| 0 <= n < done.len() && done[n] == next;
            assert(n != at);
            assert(jobs[n].id != jobs[at].id);
            assert(done[n].id == jobs[n].id);
        }
        assert(last[at] == done[at]);
        assert forall|k: int| 0 <= k < at implies !hit(#[trigger] last[k]) by {
            assert(!hit(jobs[k]));
        }
        assert(first_at(last, hit, at));
        lemma_lookup_first(last, hit, at);
    }
}

/// A job that is done neither runs nor waits.
proof fn lemma_done_is_over()
    ensures
        "succeeded"@ != "running"@,
        !is_queued("succeeded"@),
{
    reveal_strlit("succeeded");
    reveal_strlit("running");
    reveal_strlit("pending");
    reveal_strlit("retry_wait");
    reveal_strlit("blocked");
    assert("succeeded"@[0] == 's' && "running"@[0] == 'r' && "pending"@[0] == 'p'
        && "retry_wait"@[0] == 'r' && "blocked"@[0] == 'b');
}

// ----------------------------------------------------------------------------
// All or nothing
// ----------------------------------------------------------------------------

/// Why an update was not committed, as the job's row tells it; nothing where it
/// was committed.
pub open spec fn stale_reason(result: CommitMemoryUpdateResult) -> Option<Seq<char>> {
    match result {
        CommitMemoryUpdateResult::SnapshotChanged => Some("snapshot_changed"@),
        CommitMemoryUpdateResult::StaleRevision { .. } => Some("stale_revision"@),
        CommitMemoryUpdateResult::StaleReconciliation => Some("stale_reconciliation"@),
        CommitMemoryUpdateResult::Committed { .. } => None,
    }
}

/// Whether a running job went back to the queue for a reason: the job that now
/// stands for it waits to be claimed, nobody holds it, and no attempt was
/// counted.
pub open spec fn given_back(
    before: QueueModel,
    after: QueueModel,
    running: Job,
    reason: Seq<char>,
    now: i64,
) -> bool {
    settle(before, running, requeue(Some(reason), now)) matches Ok(step) && {
        &&& after == step.queue
        &&& step.job.state == "pending"@
        &&& step.job.lease_owner is None
        &&& step.job.lease_token is None
        &&& step.job.lease_expires_at is None
        &&& step.job.attempt_count == running.attempt_count
        &&& step.job.last_error_code == Some(reason)
    }
}

proof fn lemma_requeued(before: QueueModel, running: Job, reason: Seq<char>, now: i64)
    ensures
        requeued_for(before, running, reason, now) matches Ok(after) ==> given_back(
            before,
            after,
            running,
            reason,
            now,
        ),
{
    lemma_running_waits_not();
}

/// An update is committed whole or not at all: an error changes nothing, and an
/// update that is out of date only gives its job back to the queue, under the
/// reason that the result names.
pub proof fn law_commit_is_all_or_nothing(
    before: StoreModel,
    after: StoreModel,
    input: CommitMemoryUpdateRow,
    persisted: PersistedEntries,
    result: Result<CommitMemoryUpdateResult, DbError>,
)
    requires
        commit_done(commit_step(before, input, persisted), result, input, before, after),
    ensures
        result is Err ==> after == before,
        result matches Ok(done) ==> (stale_reason(done) matches Some(reason) ==> {
            &&& after == (StoreModel { queue: after.queue, ..before })
            &&& lookup(before.queue.jobs, owned(input.job_id@, input.user_id@)) matches Some(job)
                && job.state == "running"@ && job.conversation_id == input.conversation_id@
                && given_back(before.queue, after.queue, job, reason, input.now)
        }),
{
    if let Some(job) = lookup(before.queue.jobs, owned(input.job_id@, input.user_id@)) {
        lemma_requeued(before.queue, job, "snapshot_changed"@, input.now);
        lemma_requeued(before.queue, job, "stale_revision"@, input.now);
        lemma_requeued(before.queue, job, "stale_reconciliation"@, input.now);
    }
}

/// The turns of a job that went back to the queue are at the front of the job
/// that then stands for it, in their order, before those that waited already; no
/// turn is lost, and every job's digest is that of its turns.
pub proof fn law_given_back_keeps_turns(
    before: QueueModel,
    after: QueueModel,
    running: Job,
    reason: Seq<char>,
    now: i64,
)
    requires
        sound(before),
        before.jobs.contains(running),
        running.state == "running"@,
        given_back(before, after, running, reason, now),
    ensures
        sound(after),
        settle(before, running, requeue(Some(reason), now)) matches Ok(step)
            && after.jobs.contains(step.job) && turns_of_job(after, step.job) == turns_of_job(
            before,
            running,
        ) + match lookup(before.jobs, queued_in(running.user_id, running.conversation_id)) {
            Some(next) => turns_of_job(before, next),
            None => Seq::empty(),
        },
{
    let transition = requeue(Some(reason), now);
    let hit = queued_in(running.user_id, running.conversation_id);
    lemma_running_waits_not();
    lemma_lookup(before.jobs, hit);
    match lookup(before.jobs, hit) {
        None => {
            law_settle_alone_keeps_turns(before, running, transition);
            let own = turns_of_job(before, running);
            assert(own + Seq::empty() =~= own);
        },
        Some(next) => {
            lemma_member_sound(before, running);
            lemma_member_sound(before, next);
            let both = join_turns(running, next)->Ok_0;
            if next.turn_count > 0 {
                assert(has_turn(before.turns, next.id, next.turn_count - 1));
                let i = choose|i: int| #[trigger]
                    is_turn(before.turns, next.id, next.turn_count - 1, i);
                assert(rebase_fits(before.turns, next.id, i64::MIN as int, 0, both.count as int));
                assert(turns_from(next.id, i64::MIN as int)(before.turns[i]));
            }
            law_settle_joins_in_order(before, running, next, transition);
        },
    }
}

/// A running job is not queued, and a job that waits to be claimed is.
proof fn lemma_running_waits_not()
    ensures
        !is_queued("running"@),
        is_queued("pending"@),
        "pending"@ != "failed"@,
{
    reveal_strlit("running");
    reveal_strlit("pending");
    reveal_strlit("retry_wait");
    reveal_strlit("blocked");
    reveal_strlit("failed");
    assert("running"@[0] == 'r' && "pending"@[0] == 'p' && "blocked"@[0] == 'b');
    assert("running"@.len() == 7 && "retry_wait"@.len() == 10 && "pending"@.len() == 7
        && "failed"@.len() == 6);
}

} // verus!

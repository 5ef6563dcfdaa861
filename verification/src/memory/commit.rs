//! Committing a finished update: what is remembered of the conversation, the
//! entries, the change set, and the queue, all or nothing.
use crate::error::{conflict_of, conflict_with, missing, not_found, DbError};
use crate::json::{encode_list, json_list_text};
use crate::memory::commands::{
    CommitMemoryUpdateResult, CommitMemoryUpdateRow, MemoryReconciliationSnapshotRow,
};
use crate::memory::digest::{bad_digest, input_hash, input_hash_of, parse_queue_digest};
use crate::memory::enqueue::{after_reset, gate_of, is_after_reset, read_gate, CaptureGate};
use crate::memory::evidence::{canonical_turn_snapshot, earliest_at, find_earliest, snapshot_of};
use crate::memory::finalize::{
    collect_snapshot_turns, is_reconciled, reconciled, snapshot_turns, MAX_SNAPSHOT_TURNS,
};
use crate::memory::leases::lease_runs;
use crate::memory::ledger::{
    target_fits, write_entries, EntryStep, Ledger, LedgerRows, WriteContext,
};
use crate::memory::queue::{
    change_job, find_owned, find_queued, owned, queued_in, requeue, requeue_transition, settle,
    with_id, Job, QueueModel, Turn,
};
use crate::memory::rows::{
    ConversationMemoryRow, MemoryChangeSetRow, MemoryEntryDbRow, MemoryJobRow, StoredJobTurnRow,
    TurnMessageRow,
};
use crate::memory::store::{
    conversation_check, ensure_conversation, find_memory, find_policy, find_settings, memory_of,
    missing_row, policy_of, row_missing, settings_of, MemoryStore, StoreModel,
};
use crate::table::{any_where, copy_rows, exists_in, lookup, model, update_where, updated, Record};
use crate::text::{copy_opt, hex_parsed, is_some_text, opt_text, same, texts};
use vstd::prelude::*;

verus! {

/// The model of what is remembered of a conversation.
pub type Memory = ConversationMemoryRow<Seq<char>>;

/// The entries that a job is reconciled with, as its stored text gives them.
/// Where the job holds no such text, they are not looked at.
pub enum PersistedEntries {
    /// The entries that the text lists.
    Listed(Vec<MemoryReconciliationSnapshotRow>),
    /// The text cannot be read, and why.
    Unreadable(String),
}

// ----------------------------------------------------------------------------
// The fence
// ----------------------------------------------------------------------------

/// The messages of the turns that a job covers.
pub open spec fn covered_by(turns: Seq<Turn>, job_id: Seq<char>) -> spec_fn(
    TurnMessageRow<Seq<char>>,
) -> bool {
    |row: TurnMessageRow<Seq<char>>|
        exists_in(
            turns,
            turn_with(job_id, row.message.conversation_id, row.message.turn_id),
        )
}

/// A job's turn in a conversation.
pub open spec fn turn_with(
    job_id: Seq<char>,
    conversation_id: Seq<char>,
    turn_id: Option<Seq<char>>,
) -> spec_fn(Turn) -> bool {
    |turn: Turn|
        turn.job_id == job_id && turn.conversation_id == conversation_id && Some(turn.turn_id)
            == turn_id
}

/// Whether a job is still the writer's and still what the writer worked on.
pub open spec fn fence_holds(
    job: Job,
    gate: CaptureGate,
    earliest: Option<i64>,
    input: CommitMemoryUpdateRow,
) -> bool {
    &&& job.conversation_id == input.conversation_id@
    &&& job.state == "running"@
    &&& job.expected_revision == input.expected_revision
    &&& job.through_turn_id == input.through_turn_id@
    &&& job.lease_owner == Some(input.lease_owner@)
    &&& job.lease_token == Some(input.lease_token@)
    &&& lease_runs(job, input.now)
    &&& job.attempt_count == input.expected_attempt_count
    &&& gate.enabled
    &&& gate.capture
    &&& gate.consent_version is Some
    &&& gate.global_epoch == job.global_epoch
    &&& gate.conversation_epoch == job.conversation_epoch
    &&& after_reset(earliest, gate.reset_at)
}

/// The error for a job that is no longer the writer's.
pub open spec fn fence_lost(job_id: Seq<char>) -> DbError<Seq<char>> {
    DbError::Conflict("Memory job '"@ + job_id + "' lease or cursor changed"@)
}

/// Whether the first `count` turns still have the hashes that they were queued
/// with; the first that has not, or that has no snapshot, decides.
pub open spec fn hashes_hold(
    messages: Seq<TurnMessageRow<Seq<char>>>,
    conversation_id: Seq<char>,
    list: Seq<Turn>,
    count: int,
) -> Result<bool, DbError<Seq<char>>>
    decreases count,
{
    if count <= 0 {
        Ok(true)
    } else {
        match hashes_hold(messages, conversation_id, list, count - 1) {
            Err(error) => Err(error),
            Ok(false) => Ok(false),
            Ok(true) => match snapshot_of(messages, conversation_id, list[count - 1].turn_id) {
                Err(error) => Err(error),
                Ok(snapshot) => Ok(snapshot.hash == list[count - 1].turn_hash),
            },
        }
    }
}

/// Whether a job's turns are all there, not too many, and as they were queued.
pub open spec fn job_snapshot_holds(store: StoreModel, job: Job) -> Result<
    bool,
    DbError<Seq<char>>,
> {
    let list = snapshot_turns(store.queue.turns, job.id);
    if list.len() != job.turn_count || list.len() > MAX_SNAPSHOT_TURNS {
        Ok(false)
    } else {
        hashes_hold(store.messages, job.conversation_id, list, list.len() as int)
    }
}

/// Whether the entries that a job is reconciled with are as they were; they are
/// where it holds no text that lists any.
pub open spec fn entries_hold(
    entries: Seq<MemoryEntryDbRow<Seq<char>>>,
    job: Job,
    persisted: PersistedEntries,
) -> Result<bool, DbError<Seq<char>>> {
    if job.reconciliation_snapshot_json is None {
        Ok(true)
    } else {
        match persisted {
            PersistedEntries::Listed(list) => Ok(reconciled(entries, job.user_id, list@)),
            PersistedEntries::Unreadable(error) => Err(
                DbError::Conflict("Invalid Memory reconciliation snapshot: "@ + error@),
            ),
        }
    }
}

// ----------------------------------------------------------------------------
// What is written
// ----------------------------------------------------------------------------

/// What is remembered of a conversation, written anew.
pub open spec fn rewritten(input: CommitMemoryUpdateRow) -> spec_fn(Memory) -> Memory {
    |row: Memory|
        ConversationMemoryRow {
            project_id: opt_text(input.project_id),
            workspace_key: opt_text(input.workspace_key),
            summary_json: input.summary_json@,
            through_turn_id: input.through_turn_id@,
            revision: (row.revision + 1) as i64,
            source: "memory_update"@,
            schema_version: input.schema_version,
            prompt_version: opt_text(input.prompt_version),
            writer_provider_id: opt_text(input.writer_provider_id),
            writer_model_id: opt_text(input.writer_model_id),
            updated_at: input.now,
            ..row
        }
}

/// The conversation's memory at the revision that the writer expects.
pub open spec fn memory_at(input: CommitMemoryUpdateRow) -> spec_fn(Memory) -> bool {
    |row: Memory|
        row.user_id == input.user_id@ && row.conversation_id == input.conversation_id@
            && row.revision == input.expected_revision
}

/// What is remembered of a conversation for the first time.
pub open spec fn first_memory(input: CommitMemoryUpdateRow) -> Memory {
    ConversationMemoryRow {
        user_id: input.user_id@,
        conversation_id: input.conversation_id@,
        project_id: opt_text(input.project_id),
        workspace_key: opt_text(input.workspace_key),
        summary_json: input.summary_json@,
        through_turn_id: input.through_turn_id@,
        revision: 1,
        source: "memory_update"@,
        schema_version: input.schema_version,
        prompt_version: opt_text(input.prompt_version),
        writer_provider_id: opt_text(input.writer_provider_id),
        writer_model_id: opt_text(input.writer_model_id),
        created_at: input.now,
        updated_at: input.now,
    }
}

/// The memories after the update.
pub open spec fn memories_after(
    memories: Seq<Memory>,
    input: CommitMemoryUpdateRow,
) -> Seq<Memory> {
    match lookup(memories, memory_of(input.user_id@, input.conversation_id@)) {
        Some(_) => updated(memories, memory_at(input), rewritten(input)),
        None => memories.push(first_memory(input)),
    }
}

/// The change set of an update.
pub open spec fn change_set(input: CommitMemoryUpdateRow, ledger: Ledger) -> MemoryChangeSetRow<
    Seq<char>,
> {
    MemoryChangeSetRow {
        id: input.change_set_id@,
        user_id: input.user_id@,
        conversation_id: input.conversation_id@,
        through_turn_id: input.through_turn_id@,
        job_id: input.job_id@,
        added_ids_json: json_list_text(ledger.added),
        refined_ids_json: json_list_text(ledger.refined),
        superseded_ids_json: json_list_text(ledger.superseded),
        conflict_ids_json: json_list_text(ledger.conflicts),
        created_at: input.now,
    }
}

/// The change sets with an id.
pub open spec fn change_set_with_id(id: Seq<char>) -> spec_fn(
    MemoryChangeSetRow<Seq<char>>,
) -> bool {
    |row: MemoryChangeSetRow<Seq<char>>| row.id == id
}

/// The error for a change set id that is taken.
pub open spec fn change_set_id_taken() -> DbError<Seq<char>> {
    DbError::Query("UNIQUE constraint failed: memory_change_sets.id"@)
}

/// A job that is done.
pub open spec fn succeeded(now: i64) -> spec_fn(Job) -> Job {
    |job: Job|
        MemoryJobRow {
            state: "succeeded"@,
            lease_owner: None,
            lease_token: None,
            lease_expires_at: None,
            reconciliation_snapshot_json: None,
            updated_at: now,
            ..job
        }
}

/// A user's running job by its id.
pub open spec fn running_job(id: Seq<char>, user_id: Seq<char>) -> spec_fn(Job) -> bool {
    |job: Job| job.id == id && job.user_id == user_id && job.state == "running"@
}

/// A queued job that now starts behind the update.
pub open spec fn rebased_on(
    next: Job,
    input: CommitMemoryUpdateRow,
    digest: int,
) -> spec_fn(Job) -> Job {
    |job: Job|
        MemoryJobRow {
            from_turn_id: Some(input.through_turn_id@),
            expected_revision: (input.expected_revision + 1) as i64,
            input_hash: input_hash_of(
                next.operation_version,
                next.global_epoch,
                next.conversation_epoch,
                Some(input.through_turn_id@),
                next.turn_count,
                digest,
            ),
            updated_at: input.now,
            ..job
        }
}

/// The jobs after the update: the writer's is done, and the one queued behind it
/// starts where the update ends.
pub open spec fn jobs_after(jobs: Seq<Job>, input: CommitMemoryUpdateRow) -> Result<
    Seq<Job>,
    DbError<Seq<char>>,
> {
    let done = updated(
        jobs,
        running_job(input.job_id@, input.user_id@),
        succeeded(input.now),
    );
    match lookup(done, queued_in(input.user_id@, input.conversation_id@)) {
        None => Ok(done),
        Some(next) => match hex_parsed(next.queue_digest) {
            None => Err(bad_digest()),
            Some(digest) => Ok(
                updated(done, with_id(next.id), rebased_on(next, input, digest)),
            ),
        },
    }
}

/// What committing an update comes to.
pub enum CommitOutcome {
    /// The turns are no longer what the writer worked on; the job is queued again.
    SnapshotChanged { queue: QueueModel },
    /// Something else was committed meanwhile; the job is queued again.
    StaleRevision { queue: QueueModel, current_revision: i64 },
    /// The entries are not what the writer believes; the job is queued again.
    StaleReconciliation { queue: QueueModel },
    /// The update is committed.
    Committed { store: StoreModel, ledger: Ledger },
}

/// The queue after the job went back to it for a reason.
pub open spec fn requeued_for(queue: QueueModel, job: Job, reason: Seq<char>, now: i64) -> Result<
    QueueModel,
    DbError<Seq<char>>,
> {
    match settle(queue, job, requeue(Some(reason), now)) {
        Err(error) => Err(error),
        Ok(step) => Ok(step.queue),
    }
}

/// The job goes back to the queue because the entries are stale.
pub open spec fn stale_entries(store: StoreModel, job: Job, now: i64) -> Result<
    CommitOutcome,
    DbError<Seq<char>>,
> {
    match requeued_for(store.queue, job, "stale_reconciliation"@, now) {
        Err(error) => Err(error),
        Ok(queue) => Ok(CommitOutcome::StaleReconciliation { queue }),
    }
}

/// What committing comes to once nothing stands against it but the entries.
pub open spec fn commit_entries(
    store: StoreModel,
    job: Job,
    input: CommitMemoryUpdateRow,
) -> Result<
    CommitOutcome,
    DbError<Seq<char>>,
> {
    let start = Ledger {
        entries: store.entries,
        sources: store.sources,
        added: Seq::empty(),
        refined: Seq::empty(),
        superseded: Seq::empty(),
        conflicts: Seq::empty(),
    };
    let context = WriteContext {
        user_id: input.user_id@,
        schema_version: input.schema_version,
        now: input.now,
    };
    match write_entries(store.conversations, store.messages, start, input.entries@, context) {
        EntryStep::Failed(error) => Err(error),
        EntryStep::Stale => stale_entries(store, job, input.now),
        EntryStep::Written(ledger) => if exists_in(
            store.change_sets,
            change_set_with_id(input.change_set_id@),
        ) {
            Err(change_set_id_taken())
        } else {
            match jobs_after(store.queue.jobs, input) {
                Err(error) => Err(error),
                Ok(jobs) => Ok(
                    CommitOutcome::Committed {
                        store: StoreModel {
                            memories: memories_after(store.memories, input),
                            entries: ledger.entries,
                            sources: ledger.sources,
                            change_sets: store.change_sets.push(change_set(input, ledger)),
                            queue: QueueModel { jobs, turns: store.queue.turns },
                            ..store
                        },
                        ledger,
                    },
                ),
            }
        },
    }
}

/// What committing comes to once the job is known to be the writer's.
pub open spec fn commit_fenced(
    store: StoreModel,
    job: Job,
    input: CommitMemoryUpdateRow,
    persisted: PersistedEntries,
) -> Result<CommitOutcome, DbError<Seq<char>>> {
    match job_snapshot_holds(store, job) {
        Err(error) => Err(error),
        Ok(false) => match requeued_for(store.queue, job, "snapshot_changed"@, input.now) {
            Err(error) => Err(error),
            Ok(queue) => Ok(CommitOutcome::SnapshotChanged { queue }),
        },
        Ok(true) => {
            let current_revision = match lookup(
                store.memories,
                memory_of(input.user_id@, input.conversation_id@),
            ) {
                Some(row) => row.revision,
                None => 0,
            };
            if current_revision != input.expected_revision {
                match requeued_for(store.queue, job, "stale_revision"@, input.now) {
                    Err(error) => Err(error),
                    Ok(queue) => Ok(CommitOutcome::StaleRevision { queue, current_revision }),
                }
            } else {
                match entries_hold(store.entries, job, persisted) {
                    Err(error) => Err(error),
                    Ok(false) => stale_entries(store, job, input.now),
                    Ok(true) => commit_entries(store, job, input),
                }
            }
        },
    }
}

/// What committing an update comes to.
pub open spec fn commit_step(
    store: StoreModel,
    input: CommitMemoryUpdateRow,
    persisted: PersistedEntries,
) -> Result<CommitOutcome, DbError<Seq<char>>> {
    let user = input.user_id@;
    let conversation_id = input.conversation_id@;
    match conversation_check(store.conversations, user, conversation_id) {
        Err(error) => Err(error),
        Ok(()) => match lookup(store.queue.jobs, owned(input.job_id@, user)) {
            None => Err(missing("Memory job '"@, input.job_id@, "' not found"@)),
            Some(job) => match lookup(store.settings, settings_of(user)) {
                None => Err(row_missing()),
                Some(settings) => {
                    let gate = gate_of(
                        settings,
                        lookup(store.policies, policy_of(user, conversation_id)),
                    );
                    let earliest = earliest_at(
                        store.messages,
                        covered_by(store.queue.turns, job.id),
                    );
                    if !fence_holds(job, gate, earliest, input) {
                        Err(fence_lost(input.job_id@))
                    } else {
                        commit_fenced(store, job, input, persisted)
                    }
                },
            },
        },
    }
}

/// Whether a result says that an update was committed with this ledger.
pub open spec fn says_committed(
    result: CommitMemoryUpdateResult,
    revision: int,
    ledger: Ledger,
) -> bool {
    match result {
        CommitMemoryUpdateResult::Committed {
            revision: number,
            added_ids,
            refined_ids,
            superseded_ids,
            conflict_ids,
        } => {
            &&& number == revision
            &&& texts(added_ids@) == ledger.added
            &&& texts(refined_ids@) == ledger.refined
            &&& texts(superseded_ids@) == ledger.superseded
            &&& texts(conflict_ids@) == ledger.conflicts
        },
        _ => false,
    }
}

/// Whether committing was carried out as `expected` says.
pub open spec fn commit_done(
    expected: Result<CommitOutcome, DbError<Seq<char>>>,
    result: Result<CommitMemoryUpdateResult, DbError>,
    input: CommitMemoryUpdateRow,
    before: StoreModel,
    after: StoreModel,
) -> bool {
    match expected {
        Err(wanted) => {
            &&& result matches Err(error) && error@ == wanted
            &&& after == before
        },
        Ok(CommitOutcome::SnapshotChanged { queue }) => {
            &&& result matches Ok(CommitMemoryUpdateResult::SnapshotChanged)
            &&& after == (StoreModel { queue, ..before })
        },
        Ok(CommitOutcome::StaleRevision { queue, current_revision }) => {
            &&& result matches Ok(
                CommitMemoryUpdateResult::StaleRevision { current_revision: number },
            ) && number == current_revision
            &&& after == (StoreModel { queue, ..before })
        },
        Ok(CommitOutcome::StaleReconciliation { queue }) => {
            &&& result matches Ok(CommitMemoryUpdateResult::StaleReconciliation)
            &&& after == (StoreModel { queue, ..before })
        },
        Ok(CommitOutcome::Committed { store, ledger }) => {
            &&& result matches Ok(done) && says_committed(
                done,
                input.expected_revision + 1,
                ledger,
            )
            &&& after == store
        },
    }
}

// ----------------------------------------------------------------------------
// The same in running code
// ----------------------------------------------------------------------------

fn find_earliest_covered(
    messages: &Vec<TurnMessageRow>,
    turns: &Vec<StoredJobTurnRow>,
    job_id: &str,
) -> (time: Option<i64>)
    ensures
        time == earliest_at(model(messages@), covered_by(model(turns@), job_id@)),
{
    find_earliest(
        messages,
        |row: &TurnMessageRow| -> (yes: bool)
            ensures yes == covered_by(model(turns@), job_id@)(row@)
            { is_covered(row, turns, job_id) },
        Ghost(covered_by(model(turns@), job_id@)),
    )
}

fn is_covered(row: &TurnMessageRow, turns: &Vec<StoredJobTurnRow>, job_id: &str) -> (yes: bool)
    ensures
        yes == covered_by(model(turns@), job_id@)(row@),
{
    let ghost hit = turn_with(job_id@, row@.message.conversation_id, row@.message.turn_id);
    any_where(
        turns,
        |turn: &StoredJobTurnRow| -> (yes: bool)
            ensures yes == hit(turn@)
            {
                same(turn.job_id.as_str(), job_id) && same(
                    turn.conversation_id.as_str(),
                    row.message.conversation_id.as_str(),
                ) && is_some_text(&row.message.turn_id, turn.turn_id.as_str())
            },
        Ghost(hit),
    )
}

fn is_fence_held(
    job: &MemoryJobRow,
    gate: &CaptureGate,
    earliest: Option<i64>,
    input: &CommitMemoryUpdateRow,
) -> (yes: bool)
    ensures
        yes == fence_holds(job@, *gate, earliest, *input),
{
    same(job.conversation_id.as_str(), input.conversation_id.as_str()) && same(
        job.state.as_str(),
        "running",
    ) && job.expected_revision == input.expected_revision && same(
        job.through_turn_id.as_str(),
        input.through_turn_id.as_str(),
    ) && is_some_text(&job.lease_owner, input.lease_owner.as_str()) && is_some_text(
        &job.lease_token,
        input.lease_token.as_str(),
    ) && (match job.lease_expires_at {
        Some(end) => end > input.now,
        None => false,
    }) && job.attempt_count == input.expected_attempt_count && gate.enabled && gate.capture
        && gate.consent_version.is_some() && gate.global_epoch == job.global_epoch
        && gate.conversation_epoch == job.conversation_epoch && is_after_reset(
        earliest,
        gate.reset_at,
    )
}

proof fn lemma_hashes_stop(
    messages: Seq<TurnMessageRow<Seq<char>>>,
    conversation_id: Seq<char>,
    list: Seq<Turn>,
    count: int,
    total: int,
)
    requires
        0 <= count <= total,
        hashes_hold(messages, conversation_id, list, count) != Ok::<bool, DbError<Seq<char>>>(true),
    ensures
        hashes_hold(messages, conversation_id, list, total) == hashes_hold(
            messages,
            conversation_id,
            list,
            count,
        ),
    decreases total - count,
{
    if count < total {
        lemma_hashes_stop(messages, conversation_id, list, count, total - 1);
    }
}

impl MemoryStore {
    /// Whether a job's turns are all there, not too many, and as they were
    /// queued.
    pub fn job_snapshot_matches(&self, job: &MemoryJobRow) -> (result: Result<bool, DbError>)
        ensures
            match (result, job_snapshot_holds(self@, job@)) {
                (Ok(yes), Ok(wanted)) => yes == wanted,
                (Err(error), Err(wanted)) => error@ == wanted,
                _ => false,
            },
    {
        let list = collect_snapshot_turns(&self.queue.turns, job.id.as_str());
        if list.len() as i64 != job.turn_count || list.len() > MAX_SNAPSHOT_TURNS {
            return Ok(false);
        }
        let ghost rows = model(list@);
        let mut i: usize = 0;
        while i < list.len()
            invariant
                i <= list.len(),
                rows == model(list@),
                rows == snapshot_turns(self@.queue.turns, job@.id),
                rows.len() == job.turn_count,
                rows.len() <= MAX_SNAPSHOT_TURNS,
                hashes_hold(self@.messages, job@.conversation_id, rows, i as int) == Ok::<
                    bool,
                    DbError<Seq<char>>,
                >(true),
            decreases list.len() - i,
        {
            assert(rows[i as int] == list[i as int]@);
            let step = canonical_turn_snapshot(
                &self.messages,
                job.conversation_id.as_str(),
                list[i].turn_id.as_str(),
            );
            match step {
                Err(error) => {
                    proof {
                        lemma_hashes_stop(
                            self@.messages,
                            job@.conversation_id,
                            rows,
                            i as int + 1,
                            list.len() as int,
                        );
                    }
                    return Err(error);
                },
                Ok(snapshot) => {
                    if !same(snapshot.hash.as_str(), list[i].turn_hash.as_str()) {
                        proof {
                            lemma_hashes_stop(
                                self@.messages,
                                job@.conversation_id,
                                rows,
                                i as int + 1,
                                list.len() as int,
                            );
                        }
                        return Ok(false);
                    }
                },
            }
            i = i + 1;
        }
        Ok(true)
    }

    /// Puts a job back into the queue for a reason.
    fn requeue_for(&mut self, job: &MemoryJobRow, reason: &str, now: i64) -> (result: Result<
        (),
        DbError,
    >)
        ensures
            match requeued_for(old(self)@.queue, job@, reason@, now) {
                Ok(queue) => result is Ok && final(self)@ == (StoreModel { queue, ..old(self)@ }),
                Err(wanted) => (result matches Err(error) && error@ == wanted) && final(self)@
                    == old(self)@,
            },
    {
        let transition = requeue_transition(Some(reason.to_owned()), now);
        match self.queue.transition_running(job, &transition) {
            Ok(_) => Ok(()),
            Err(error) => Err(error),
        }
    }

    /// Writes what is remembered of the conversation.
    fn write_memory(&mut self, input: &CommitMemoryUpdateRow)
        requires
            input.expected_revision < i64::MAX,
        ensures
            final(self)@ == (StoreModel {
                memories: memories_after(old(self)@.memories, *input),
                ..old(self)@
            }),
    {
        match find_memory(
            &self.memories,
            input.user_id.as_str(),
            input.conversation_id.as_str(),
        ) {
            Some(_) => {
                let _written: u64 = update_where(
                    &mut self.memories,
                    |row: &ConversationMemoryRow| -> (yes: bool)
                        ensures yes == memory_at(*input)(row@)
                        {
                            same(row.user_id.as_str(), input.user_id.as_str()) && same(
                                row.conversation_id.as_str(),
                                input.conversation_id.as_str(),
                            ) && row.revision == input.expected_revision
                        },
                    |row: &ConversationMemoryRow| -> (next: ConversationMemoryRow)
                        requires row.revision < i64::MAX
                        ensures next@ == rewritten(*input)(row@)
                        {
                            ConversationMemoryRow {
                                project_id: copy_opt(&input.project_id),
                                workspace_key: copy_opt(&input.workspace_key),
                                summary_json: input.summary_json.clone(),
                                through_turn_id: input.through_turn_id.clone(),
                                revision: row.revision + 1,
                                source: "memory_update".to_owned(),
                                schema_version: input.schema_version,
                                prompt_version: copy_opt(&input.prompt_version),
                                writer_provider_id: copy_opt(&input.writer_provider_id),
                                writer_model_id: copy_opt(&input.writer_model_id),
                                updated_at: input.now,
                                ..row.duplicate()
                            }
                        },
                    Ghost(memory_at(*input)),
                    Ghost(rewritten(*input)),
                );
            },
            None => {
                let row = ConversationMemoryRow {
                    user_id: input.user_id.clone(),
                    conversation_id: input.conversation_id.clone(),
                    project_id: copy_opt(&input.project_id),
                    workspace_key: copy_opt(&input.workspace_key),
                    summary_json: input.summary_json.clone(),
                    through_turn_id: input.through_turn_id.clone(),
                    revision: 1,
                    source: "memory_update".to_owned(),
                    schema_version: input.schema_version,
                    prompt_version: copy_opt(&input.prompt_version),
                    writer_provider_id: copy_opt(&input.writer_provider_id),
                    writer_model_id: copy_opt(&input.writer_model_id),
                    created_at: input.now,
                    updated_at: input.now,
                };
                let ghost before = self.memories@;
                self.memories.push(row);
                assert(model(self.memories@) =~= model(before).push(row@));
            },
        }
    }

    /// Commits a finished update. `persisted` are the entries that the job's
    /// stored text lists; they do not count where the job holds no such text.
    /// Where the job is no longer the writer's, nothing changes; where what the
    /// writer worked on has changed, only the job goes back to the queue.
    pub fn commit_update(
        &mut self,
        input: &CommitMemoryUpdateRow,
        persisted: &PersistedEntries,
    ) -> (result: Result<CommitMemoryUpdateResult, DbError>)
        requires
            input.expected_revision < i64::MAX,
            forall|i: int| 0 <= i < input.entries.len()
                ==> target_fits(#[trigger] input.entries[i]),
        ensures
            commit_done(
                commit_step(old(self)@, *input, *persisted),
                result,
                *input,
                old(self)@,
                final(self)@,
            ),
    {
        let user_id = input.user_id.as_str();
        let conversation_id = input.conversation_id.as_str();
        match ensure_conversation(&self.conversations, user_id, conversation_id) {
            Ok(()) => {},
            Err(error) => {
                return Err(error);
            },
        }
        let job = match find_owned(&self.queue.jobs, input.job_id.as_str(), user_id) {
            Some(at) => self.queue.jobs[at].duplicate(),
            None => {
                return Err(not_found("Memory job '", input.job_id.as_str(), "' not found"));
            },
        };
        let settings_at: usize = match find_settings(&self.settings, user_id) {
            Some(at) => at,
            None => {
                return Err(missing_row());
            },
        };
        let policy = match find_policy(&self.policies, user_id, conversation_id) {
            Some(at) => Some(&self.policies[at]),
            None => None,
        };
        let gate = read_gate(&self.settings[settings_at], policy);
        let earliest = find_earliest_covered(&self.messages, &self.queue.turns, job.id.as_str());
        if !is_fence_held(&job, &gate, earliest, input) {
            return Err(
                conflict_of("Memory job '", input.job_id.as_str(), "' lease or cursor changed"),
            );
        }
        assert(commit_step(self@, *input, *persisted) == commit_fenced(
            self@,
            job@,
            *input,
            *persisted,
        ));
        match self.job_snapshot_matches(&job) {
            Err(error) => {
                return Err(error);
            },
            Ok(false) => {
                return match self.requeue_for(&job, "snapshot_changed", input.now) {
                    Ok(()) => Ok(CommitMemoryUpdateResult::SnapshotChanged),
                    Err(error) => Err(error),
                };
            },
            Ok(true) => {},
        }
        let current_revision: i64 = match find_memory(&self.memories, user_id, conversation_id) {
            Some(at) => self.memories[at].revision,
            None => 0,
        };
        if current_revision != input.expected_revision {
            return match self.requeue_for(&job, "stale_revision", input.now) {
                Ok(()) => Ok(CommitMemoryUpdateResult::StaleRevision { current_revision }),
                Err(error) => Err(error),
            };
        }
        let current = if job.reconciliation_snapshot_json.is_none() {
            true
        } else {
            match persisted {
                PersistedEntries::Listed(list) => is_reconciled(
                    &self.entries,
                    job.user_id.as_str(),
                    list,
                ),
                PersistedEntries::Unreadable(error) => {
                    return Err(
                        conflict_with("Invalid Memory reconciliation snapshot: ", error.as_str()),
                    );
                },
            }
        };
        if !current {
            return match self.requeue_for(&job, "stale_reconciliation", input.now) {
                Ok(()) => Ok(CommitMemoryUpdateResult::StaleReconciliation),
                Err(error) => Err(error),
            };
        }
        self.commit_checked(&job, input)
    }

    /// Commits an update that nothing stands against but its entries.
    fn commit_checked(&mut self, job: &MemoryJobRow, input: &CommitMemoryUpdateRow) -> (result:
        Result<CommitMemoryUpdateResult, DbError>)
        requires
            input.expected_revision < i64::MAX,
            forall|i: int| 0 <= i < input.entries.len()
                ==> target_fits(#[trigger] input.entries[i]),
        ensures
            commit_done(
                commit_entries(old(self)@, job@, *input),
                result,
                *input,
                old(self)@,
                final(self)@,
            ),
    {
        let mut ledger = LedgerRows {
            entries: copy_rows(&self.entries),
            sources: copy_rows(&self.sources),
            added: Vec::new(),
            refined: Vec::new(),
            superseded: Vec::new(),
            conflicts: Vec::new(),
        };
        assert(ledger@ =~= (Ledger {
            entries: self@.entries,
            sources: self@.sources,
            added: Seq::empty(),
            refined: Seq::empty(),
            superseded: Seq::empty(),
            conflicts: Seq::empty(),
        }));
        let written = ledger.write_entries(
            &self.conversations,
            &self.messages,
            &input.entries,
            input.user_id.as_str(),
            input.schema_version,
            input.now,
        );
        match written {
            Err(error) => {
                return Err(error);
            },
            Ok(false) => {
                return match self.requeue_for(job, "stale_reconciliation", input.now) {
                    Ok(()) => Ok(CommitMemoryUpdateResult::StaleReconciliation),
                    Err(error) => Err(error),
                };
            },
            Ok(true) => {},
        }
        let taken = any_where(
            &self.change_sets,
            |row: &MemoryChangeSetRow| -> (yes: bool)
                ensures yes == change_set_with_id(input.change_set_id@)(row@)
                { same(row.id.as_str(), input.change_set_id.as_str()) },
            Ghost(change_set_with_id(input.change_set_id@)),
        );
        if taken {
            return Err(
                DbError::Query("UNIQUE constraint failed: memory_change_sets.id".to_owned()),
            );
        }
        let mut jobs = copy_rows(&self.queue.jobs);
        let ghost hit = running_job(input.job_id@, input.user_id@);
        let _done: u64 = update_where(
            &mut jobs,
            |row: &MemoryJobRow| -> (yes: bool)
                ensures yes == hit(row@)
                {
                    same(row.id.as_str(), input.job_id.as_str()) && same(
                        row.user_id.as_str(),
                        input.user_id.as_str(),
                    ) && same(row.state.as_str(), "running")
                },
            |row: &MemoryJobRow| -> (next: MemoryJobRow)
                ensures next@ == succeeded(input.now)(row@)
                {
                    MemoryJobRow {
                        state: "succeeded".to_owned(),
                        lease_owner: None,
                        lease_token: None,
                        lease_expires_at: None,
                        reconciliation_snapshot_json: None,
                        updated_at: input.now,
                        ..row.duplicate()
                    }
                },
            Ghost(hit),
            Ghost(succeeded(input.now)),
        );
        let revision: i64 = input.expected_revision + 1;
        match find_queued(&jobs, input.user_id.as_str(), input.conversation_id.as_str()) {
            None => {},
            Some(at) => {
                let next = jobs[at].duplicate();
                let digest: u128 = match parse_queue_digest(next.queue_digest.as_str()) {
                    Ok(digest) => digest,
                    Err(error) => {
                        return Err(error);
                    },
                };
                let ghost change = rebased_on(next@, *input, digest as int);
                change_job(
                    &mut jobs,
                    next.id.as_str(),
                    |row: &MemoryJobRow| -> (changed: MemoryJobRow)
                        requires revision == input.expected_revision + 1
                        ensures changed@ == change(row@)
                        {
                            MemoryJobRow {
                                from_turn_id: Some(input.through_turn_id.clone()),
                                expected_revision: revision,
                                input_hash: input_hash(
                                    next.operation_version.as_str(),
                                    next.global_epoch,
                                    next.conversation_epoch,
                                    Some(input.through_turn_id.as_str()),
                                    next.turn_count,
                                    digest,
                                ),
                                updated_at: input.now,
                                ..row.duplicate()
                            }
                        },
                    Ghost(change),
                );
            },
        }
        let set = MemoryChangeSetRow {
            id: input.change_set_id.clone(),
            user_id: input.user_id.clone(),
            conversation_id: input.conversation_id.clone(),
            through_turn_id: input.through_turn_id.clone(),
            job_id: input.job_id.clone(),
            added_ids_json: encode_list(&ledger.added),
            refined_ids_json: encode_list(&ledger.refined),
            superseded_ids_json: encode_list(&ledger.superseded),
            conflict_ids_json: encode_list(&ledger.conflicts),
            created_at: input.now,
        };
        assert(set@ == change_set(*input, ledger@));
        self.write_memory(input);
        let ghost sets = self.change_sets@;
        self.change_sets.push(set);
        assert(model(self.change_sets@) =~= model(sets).push(set@));
        self.queue.jobs = jobs;
        self.entries = ledger.entries;
        self.sources = ledger.sources;
        Ok(
            CommitMemoryUpdateResult::Committed {
                revision,
                added_ids: ledger.added,
                refined_ids: ledger.refined,
                superseded_ids: ledger.superseded,
                conflict_ids: ledger.conflicts,
            },
        )
    }
}

} // verus!

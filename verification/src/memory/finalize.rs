//! Fixing what a worker saw before it writes: the evidence of a job's turns and
//! the entries that it is reconciled with.
use crate::error::{conflict, missing, not_found, DbError};
use crate::memory::commands::{
    BoundedMemoryTurnMessagesRow, FinalizeMemoryJobSnapshotResult, FinalizeMemoryJobSnapshotRow,
    MemoryReconciliationSnapshotRow, MemoryTurnSnapshotExpectationRow,
};
use crate::memory::digest::{append_queue_digest, appended_digest, queue_digest};
use crate::memory::evidence::{
    canonical_turn_snapshot, content_hash, memory_entry_content_hash, snapshot_of, SnapshotModel,
};
use crate::memory::leases::{collect_turns, find_leased, leased, turns_in_order};
use crate::memory::queue::{change_job, find_owned, owned, rehashed, with_id, Job, QueueModel, Turn};
use crate::memory::rows::{
    MemoryEntryDbRow, MemoryJobRow, MessageRow, StoredJobTurnRow, TurnMessageRow,
};
use crate::memory::store::{
    find_policy, find_settings, missing_row, policy_of, row_missing, settings_of, MemoryStore,
    StoreModel,
};
use crate::table::{find_where, lookup, model, page, take_page, update_where, updated, Record};
use crate::text::{borrow_opt, copy_opt, hex_fixed, opt_text, same, same_opt};
use vstd::prelude::*;

verus! {

/// The most turns that one job's snapshot may cover.
pub const MAX_SNAPSHOT_TURNS: usize = 32;

/// The most entries that one job may be reconciled with.
pub const MAX_RECONCILED_ENTRIES: usize = 64;

/// A user's entry by its id.
pub open spec fn entry_of(id: Seq<char>, user_id: Seq<char>) -> spec_fn(
    MemoryEntryDbRow<Seq<char>>,
) -> bool {
    |entry: MemoryEntryDbRow<Seq<char>>| entry.id == id && entry.user_id == user_id
}

/// Finds a user's entry by its id.
pub fn find_entry(
    entries: &Vec<MemoryEntryDbRow>,
    id: &str,
    user_id: &str,
) -> (found: Option<usize>)
    ensures
        match found {
            Some(at) => at < entries.len() && entry_of(id@, user_id@)(entries[at as int]@)
                && lookup(model(entries@), entry_of(id@, user_id@)) == Some(entries[at as int]@),
            None => lookup(model(entries@), entry_of(id@, user_id@)) is None,
        },
{
    find_where(
        entries,
        |entry: &MemoryEntryDbRow| -> (yes: bool)
            ensures yes == entry_of(id@, user_id@)(entry@)
            { same(entry.id.as_str(), id) && same(entry.user_id.as_str(), user_id) },
        Ghost(entry_of(id@, user_id@)),
    )
}

// ----------------------------------------------------------------------------
// Reconciled entries
// ----------------------------------------------------------------------------

/// Whether a stored entry is as a worker saw it.
pub open spec fn as_seen(
    entry: MemoryEntryDbRow<Seq<char>>,
    seen: MemoryReconciliationSnapshotRow,
) -> bool {
    &&& entry.revision == seen.revision
    &&& entry.state == seen.state@
    &&& entry.fingerprint == seen.fingerprint@
    &&& entry.project_id == opt_text(seen.project_id)
    &&& entry.workspace_key == opt_text(seen.workspace_key)
    &&& entry.pinned == seen.pinned
    &&& entry.user_edited == seen.user_edited
    &&& content_hash(entry.content) == seen.content_hash@
}

/// Whether row `i` of a snapshot is active, named once, and stored as it was seen.
pub open spec fn row_reconciled(
    entries: Seq<MemoryEntryDbRow<Seq<char>>>,
    user_id: Seq<char>,
    snapshot: Seq<MemoryReconciliationSnapshotRow>,
    i: int,
) -> bool {
    &&& forall|k: int| 0 <= k < i ==> (#[trigger] snapshot[k]).id@ != snapshot[i].id@
    &&& snapshot[i].state@ == "active"@
    &&& match lookup(entries, entry_of(snapshot[i].id@, user_id)) {
        Some(entry) => as_seen(entry, snapshot[i]),
        None => false,
    }
}

/// Whether a worker's snapshot of entries still holds: not too long, and each
/// row active, named once, and stored as it was seen.
pub open spec fn reconciled(
    entries: Seq<MemoryEntryDbRow<Seq<char>>>,
    user_id: Seq<char>,
    snapshot: Seq<MemoryReconciliationSnapshotRow>,
) -> bool {
    &&& snapshot.len() <= MAX_RECONCILED_ENTRIES
    &&& forall|i: int|
        0 <= i < snapshot.len() ==> #[trigger] row_reconciled(entries, user_id, snapshot, i)
}

fn is_as_seen(entry: &MemoryEntryDbRow, seen: &MemoryReconciliationSnapshotRow) -> (yes: bool)
    ensures
        yes == as_seen(entry@, *seen),
{
    entry.revision == seen.revision && same(entry.state.as_str(), seen.state.as_str()) && same(
        entry.fingerprint.as_str(),
        seen.fingerprint.as_str(),
    ) && same_opt(&entry.project_id, &seen.project_id) && same_opt(
        &entry.workspace_key,
        &seen.workspace_key,
    ) && entry.pinned == seen.pinned && entry.user_edited == seen.user_edited && same(
        memory_entry_content_hash(borrow_opt(&entry.content)).as_str(),
        seen.content_hash.as_str(),
    )
}

/// Decides whether a worker's snapshot of entries still holds.
pub fn is_reconciled(
    entries: &Vec<MemoryEntryDbRow>,
    user_id: &str,
    snapshot: &Vec<MemoryReconciliationSnapshotRow>,
) -> (yes: bool)
    ensures
        yes == reconciled(model(entries@), user_id@, snapshot@),
{
    if snapshot.len() > MAX_RECONCILED_ENTRIES {
        return false;
    }
    let mut i: usize = 0;
    while i < snapshot.len()
        invariant
            i <= snapshot.len(),
            snapshot.len() <= MAX_RECONCILED_ENTRIES,
            forall|k: int|
                0 <= k < i ==> #[trigger] row_reconciled(model(entries@), user_id@, snapshot@, k),
        decreases snapshot.len() - i,
    {
        let mut k: usize = 0;
        let mut named = false;
        while k < i
            invariant
                k <= i < snapshot.len(),
                named == exists|m: int|
                    0 <= m < k && (#[trigger] snapshot@[m]).id@ == snapshot@[i as int].id@,
            decreases i - k,
        {
            if same(snapshot[k].id.as_str(), snapshot[i].id.as_str()) {
                assert(snapshot@[k as int].id@ == snapshot@[i as int].id@);
                named = true;
            }
            k = k + 1;
        }
        let seen = &snapshot[i];
        let holds = !named && same(seen.state.as_str(), "active") && match find_entry(
            entries,
            seen.id.as_str(),
            user_id,
        ) {
            Some(at) => is_as_seen(&entries[at], seen),
            None => false,
        };
        assert(holds == row_reconciled(model(entries@), user_id@, snapshot@, i as int));
        if !holds {
            return false;
        }
        i = i + 1;
    }
    true
}

// ----------------------------------------------------------------------------
// The turns of a job
// ----------------------------------------------------------------------------

/// The turns of a job that its snapshot looks at; one more than allowed shows
/// that there are too many.
pub open spec fn snapshot_turns(turns: Seq<Turn>, job_id: Seq<char>) -> Seq<Turn> {
    page(turns_in_order(turns, job_id), 0, (MAX_SNAPSHOT_TURNS + 1) as nat)
}

/// Whether a worker names a job's turns, each in its place.
pub open spec fn turns_named(
    list: Seq<Turn>,
    job: Job,
    seen: Seq<MemoryTurnSnapshotExpectationRow>,
) -> bool {
    &&& list.len() <= MAX_SNAPSHOT_TURNS
    &&& list.len() == job.turn_count
    &&& list.len() == seen.len()
    &&& forall|i: int|
        0 <= i < list.len() ==> (#[trigger] list[i]).turn_id == seen[i].turn_id@
}

/// Whether a turn is as the worker saw it and worth remembering.
pub open spec fn turn_confirmed(snapshot: SnapshotModel, seen: Seq<char>) -> bool {
    !snapshot.absolute_limit_exceeded && snapshot.has_user_work && snapshot.has_assistant_outcome
        && snapshot.hash == seen
}

/// Whether the first `count` turns are as the worker saw them; the first that is
/// not, or that has no snapshot, decides.
pub open spec fn turns_confirmed(
    messages: Seq<TurnMessageRow<Seq<char>>>,
    conversation_id: Seq<char>,
    list: Seq<Turn>,
    seen: Seq<MemoryTurnSnapshotExpectationRow>,
    count: int,
) -> Result<bool, DbError<Seq<char>>>
    decreases count,
{
    if count <= 0 {
        Ok(true)
    } else {
        match turns_confirmed(messages, conversation_id, list, seen, count - 1) {
            Err(error) => Err(error),
            Ok(false) => Ok(false),
            Ok(true) => match snapshot_of(messages, conversation_id, list[count - 1].turn_id) {
                Err(error) => Err(error),
                Ok(snapshot) => Ok(
                    turn_confirmed(snapshot, seen[count - 1].snapshot_hash@),
                ),
            },
        }
    }
}

/// The digest of the first `count` turns with the hashes that the worker saw.
pub open spec fn seen_digest(
    list: Seq<Turn>,
    seen: Seq<MemoryTurnSnapshotExpectationRow>,
    count: int,
) -> int
    decreases count,
{
    if count <= 0 {
        0
    } else {
        appended_digest(
            seen_digest(list, seen, count - 1),
            list[count - 1].turn_id,
            seen[count - 1].snapshot_hash@,
        )
    }
}

/// The job's turn at a position.
pub open spec fn turn_of_job(job_id: Seq<char>, position: i64) -> spec_fn(Turn) -> bool {
    |turn: Turn| turn.job_id == job_id && turn.position == position
}

/// A turn with another hash.
pub open spec fn hashed_as(hash: Seq<char>) -> spec_fn(Turn) -> Turn {
    |turn: Turn| StoredJobTurnRow { turn_hash: hash, ..turn }
}

/// The turns after the first `count` of the job took the hashes that the worker
/// saw.
pub open spec fn with_seen_hashes(
    turns: Seq<Turn>,
    job_id: Seq<char>,
    list: Seq<Turn>,
    seen: Seq<MemoryTurnSnapshotExpectationRow>,
    count: int,
) -> Seq<Turn>
    decreases count,
{
    if count <= 0 {
        turns
    } else {
        updated(
            with_seen_hashes(turns, job_id, list, seen, count - 1),
            turn_of_job(job_id, list[count - 1].position),
            hashed_as(seen[count - 1].snapshot_hash@),
        )
    }
}

/// A job whose snapshot is fixed. What it was reconciled with at first stays.
pub open spec fn fixed(job: Job, digest: int, encoded: Option<Seq<char>>, now: i64) -> spec_fn(
    Job,
) -> Job {
    |row: Job|
        MemoryJobRow {
            queue_digest: hex_fixed(digest as nat, 32),
            input_hash: rehashed(job, job.turn_count, digest),
            reconciliation_snapshot_json: match row.reconciliation_snapshot_json {
                Some(text) => Some(text),
                None => encoded,
            },
            updated_at: now,
            ..row
        }
}

/// What fixing a snapshot comes to.
pub enum FinalizeOutcome {
    FenceLost,
    SnapshotChanged,
    /// The turns took the hashes that the worker saw; nothing else changed.
    ReconciliationChanged { turns: Seq<Turn> },
    Finalized { queue: QueueModel, job: Job },
}

/// Whether the epochs are those that a worker expects.
pub open spec fn epochs_hold(
    job: Job,
    global_epoch: i64,
    conversation_epoch: i64,
    input: FinalizeMemoryJobSnapshotRow,
) -> bool {
    &&& job.global_epoch == input.expected_global_epoch
    &&& job.conversation_epoch == input.expected_conversation_epoch
    &&& global_epoch == input.expected_global_epoch
    &&& conversation_epoch == input.expected_conversation_epoch
}

/// Whether the entries allow a job's snapshot to be fixed: those that the worker
/// names are as it saw them, and agree with those named before.
pub open spec fn entries_allow(
    entries: Seq<MemoryEntryDbRow<Seq<char>>>,
    job: Job,
    input: FinalizeMemoryJobSnapshotRow,
    encoded: Seq<char>,
) -> bool {
    &&& input.reconciliation_snapshot matches Some(list) ==> reconciled(
        entries,
        input.user_id@,
        list@,
    )
    &&& input.require_existing_reconciliation_snapshot ==> job.reconciliation_snapshot_json is Some
    &&& (input.reconciliation_snapshot is Some && job.reconciliation_snapshot_json is Some)
        ==> job.reconciliation_snapshot_json == Some(encoded)
}

/// What fixing the snapshot of a claimed job comes to. `encoded` is the text of
/// the entries that the worker names.
pub open spec fn finalize_step(
    store: StoreModel,
    input: FinalizeMemoryJobSnapshotRow,
    encoded: Seq<char>,
) -> Result<FinalizeOutcome, DbError<Seq<char>>> {
    match lookup(
        store.queue.jobs,
        leased(input.job_id@, input.user_id@, input.lease_token@, input.now),
    ) {
        None => Ok(FinalizeOutcome::FenceLost),
        Some(job) => match lookup(store.settings, settings_of(input.user_id@)) {
            None => Err(row_missing()),
            Some(settings) => {
                let conversation_epoch = match lookup(
                    store.policies,
                    policy_of(input.user_id@, job.conversation_id),
                ) {
                    Some(policy) => policy.lifecycle_epoch,
                    None => 0,
                };
                let list = snapshot_turns(store.queue.turns, input.job_id@);
                let seen = input.turn_snapshots@;
                if !epochs_hold(job, settings.lifecycle_epoch, conversation_epoch, input) {
                    Ok(FinalizeOutcome::FenceLost)
                } else if !turns_named(list, job, seen) {
                    Ok(FinalizeOutcome::SnapshotChanged)
                } else {
                    match turns_confirmed(
                        store.messages,
                        job.conversation_id,
                        list,
                        seen,
                        list.len() as int,
                    ) {
                        Err(error) => Err(error),
                        Ok(false) => Ok(FinalizeOutcome::SnapshotChanged),
                        Ok(true) => {
                            let turns = with_seen_hashes(
                                store.queue.turns,
                                input.job_id@,
                                list,
                                seen,
                                list.len() as int,
                            );
                            if !entries_allow(store.entries, job, input, encoded) {
                                Ok(FinalizeOutcome::ReconciliationChanged { turns })
                            } else {
                                let digest = seen_digest(list, seen, list.len() as int);
                                let text = if input.reconciliation_snapshot is Some {
                                    Some(encoded)
                                } else {
                                    None
                                };
                                let change = fixed(job, digest, text, input.now);
                                Ok(
                                    FinalizeOutcome::Finalized {
                                        queue: QueueModel {
                                            jobs: updated(
                                                store.queue.jobs,
                                                with_id(input.job_id@),
                                                change,
                                            ),
                                            turns,
                                        },
                                        job: change(job),
                                    },
                                )
                            }
                        },
                    }
                }
            },
        },
    }
}

/// Whether fixing a snapshot was carried out as `expected` says.
pub open spec fn finalize_done(
    expected: Result<FinalizeOutcome, DbError<Seq<char>>>,
    result: Result<FinalizeMemoryJobSnapshotResult, DbError>,
    before: StoreModel,
    after: StoreModel,
) -> bool {
    match expected {
        Err(wanted) => {
            &&& result matches Err(error) && error@ == wanted
            &&& after == before
        },
        Ok(FinalizeOutcome::FenceLost) => {
            &&& result matches Ok(FinalizeMemoryJobSnapshotResult::FenceLost)
            &&& after == before
        },
        Ok(FinalizeOutcome::SnapshotChanged) => {
            &&& result matches Ok(FinalizeMemoryJobSnapshotResult::SnapshotChanged)
            &&& after == before
        },
        Ok(FinalizeOutcome::ReconciliationChanged { turns }) => {
            &&& result matches Ok(FinalizeMemoryJobSnapshotResult::ReconciliationChanged)
            &&& after == (StoreModel {
                queue: QueueModel { jobs: before.queue.jobs, turns },
                ..before
            })
        },
        Ok(FinalizeOutcome::Finalized { queue, job }) => {
            &&& result matches Ok(FinalizeMemoryJobSnapshotResult::Finalized(row)) && (*row)@ == job
            &&& after == (StoreModel { queue, ..before })
        },
    }
}

/// Collects the turns of a job that its snapshot looks at.
pub fn collect_snapshot_turns(turns: &Vec<StoredJobTurnRow>, job_id: &str) -> (list: Vec<
    StoredJobTurnRow,
>)
    ensures
        model(list@) == snapshot_turns(model(turns@), job_id@),
{
    let all = collect_turns(turns, job_id);
    take_page(&all, 0, MAX_SNAPSHOT_TURNS + 1)
}

fn are_named(
    list: &Vec<StoredJobTurnRow>,
    job: &MemoryJobRow,
    seen: &Vec<MemoryTurnSnapshotExpectationRow>,
) -> (yes: bool)
    ensures
        yes == turns_named(model(list@), job@, seen@),
{
    if list.len() > MAX_SNAPSHOT_TURNS || list.len() as i64 != job.turn_count || list.len()
        != seen.len() {
        return false;
    }
    let mut i: usize = 0;
    while i < list.len()
        invariant
            i <= list.len(),
            list.len() == seen.len(),
            forall|k: int|
                0 <= k < i ==> (#[trigger] model(list@)[k]).turn_id == seen[k].turn_id@,
        decreases list.len() - i,
    {
        assert(model(list@)[i as int] == list[i as int]@);
        if !same(list[i].turn_id.as_str(), seen[i].turn_id.as_str()) {
            return false;
        }
        i = i + 1;
    }
    true
}

fn are_confirmed(
    messages: &Vec<TurnMessageRow>,
    conversation_id: &str,
    list: &Vec<StoredJobTurnRow>,
    seen: &Vec<MemoryTurnSnapshotExpectationRow>,
) -> (result: Result<bool, DbError>)
    requires
        list.len() == seen.len(),
    ensures
        match (
            result,
            turns_confirmed(
                model(messages@),
                conversation_id@,
                model(list@),
                seen@,
                list.len() as int,
            ),
        ) {
            (Ok(yes), Ok(wanted)) => yes == wanted,
            (Err(error), Err(wanted)) => error@ == wanted,
            _ => false,
        },
{
    let ghost rows = model(list@);
    let mut i: usize = 0;
    while i < list.len()
        invariant
            i <= list.len(),
            list.len() == seen.len(),
            rows == model(list@),
            turns_confirmed(model(messages@), conversation_id@, rows, seen@, i as int) == Ok::<
                bool,
                DbError<Seq<char>>,
            >(true),
        decreases list.len() - i,
    {
        assert(rows[i as int] == list[i as int]@);
        let step = canonical_turn_snapshot(messages, conversation_id, list[i].turn_id.as_str());
        match step {
            Err(error) => {
                proof {
                    lemma_confirmed_stops(
                        model(messages@),
                        conversation_id@,
                        rows,
                        seen@,
                        i as int + 1,
                        list.len() as int,
                    );
                }
                return Err(error);
            },
            Ok(snapshot) => {
                if snapshot.absolute_limit_exceeded || !snapshot.has_user_work
                    || !snapshot.has_assistant_outcome || !same(
                    snapshot.hash.as_str(),
                    seen[i].snapshot_hash.as_str(),
                ) {
                    proof {
                        lemma_confirmed_stops(
                            model(messages@),
                            conversation_id@,
                            rows,
                            seen@,
                            i as int + 1,
                            list.len() as int,
                        );
                    }
                    return Ok(false);
                }
            },
        }
        i = i + 1;
    }
    Ok(true)
}

proof fn lemma_confirmed_stops(
    messages: Seq<TurnMessageRow<Seq<char>>>,
    conversation_id: Seq<char>,
    list: Seq<Turn>,
    seen: Seq<MemoryTurnSnapshotExpectationRow>,
    count: int,
    total: int,
)
    requires
        0 <= count <= total,
        turns_confirmed(messages, conversation_id, list, seen, count) != Ok::<
            bool,
            DbError<Seq<char>>,
        >(true),
    ensures
        turns_confirmed(messages, conversation_id, list, seen, total) == turns_confirmed(
            messages,
            conversation_id,
            list,
            seen,
            count,
        ),
    decreases total - count,
{
    if count < total {
        lemma_confirmed_stops(messages, conversation_id, list, seen, count, total - 1);
    }
}

fn digest_seen(
    list: &Vec<StoredJobTurnRow>,
    seen: &Vec<MemoryTurnSnapshotExpectationRow>,
) -> (digest:
    u128)
    requires
        list.len() == seen.len(),
    ensures
        digest == seen_digest(model(list@), seen@, list.len() as int),
{
    let mut digest: u128 = 0;
    let mut i: usize = 0;
    while i < list.len()
        invariant
            i <= list.len(),
            list.len() == seen.len(),
            digest == seen_digest(model(list@), seen@, i as int),
        decreases list.len() - i,
    {
        assert(model(list@)[i as int] == list[i as int]@);
        digest = append_queue_digest(
            digest,
            list[i].turn_id.as_str(),
            seen[i].snapshot_hash.as_str(),
        );
        i = i + 1;
    }
    digest
}

fn take_seen_hashes(
    turns: &mut Vec<StoredJobTurnRow>,
    job_id: &str,
    list: &Vec<StoredJobTurnRow>,
    seen: &Vec<MemoryTurnSnapshotExpectationRow>,
)
    requires
        list.len() == seen.len(),
    ensures
        model(final(turns)@) == with_seen_hashes(
            model(old(turns)@),
            job_id@,
            model(list@),
            seen@,
            list.len() as int,
        ),
{
    let ghost start = model(turns@);
    let mut i: usize = 0;
    while i < list.len()
        invariant
            i <= list.len(),
            list.len() == seen.len(),
            model(turns@) == with_seen_hashes(start, job_id@, model(list@), seen@, i as int),
        decreases list.len() - i,
    {
        let position: i64 = list[i].position;
        let hash = seen[i].snapshot_hash.as_str();
        assert(model(list@)[i as int] == list[i as int]@);
        let _hashed: u64 = update_where(
            turns,
            |turn: &StoredJobTurnRow| -> (yes: bool)
                ensures yes == turn_of_job(job_id@, position)(turn@)
                { same(turn.job_id.as_str(), job_id) && turn.position == position },
            |turn: &StoredJobTurnRow| -> (next: StoredJobTurnRow)
                ensures next@ == hashed_as(hash@)(turn@)
                { StoredJobTurnRow { turn_hash: hash.to_owned(), ..turn.duplicate() } },
            Ghost(turn_of_job(job_id@, position)),
            Ghost(hashed_as(hash@)),
        );
        i = i + 1;
    }
}

fn do_allow(
    entries: &Vec<MemoryEntryDbRow>,
    job: &MemoryJobRow,
    input: &FinalizeMemoryJobSnapshotRow,
    encoded: &str,
) -> (yes: bool)
    ensures
        yes == entries_allow(model(entries@), job@, *input, encoded@),
{
    match &input.reconciliation_snapshot {
        Some(list) => {
            if !is_reconciled(entries, input.user_id.as_str(), list) {
                return false;
            }
        },
        None => {},
    }
    if input.require_existing_reconciliation_snapshot
        && job.reconciliation_snapshot_json.is_none() {
        return false;
    }
    match (&input.reconciliation_snapshot, &job.reconciliation_snapshot_json) {
        (Some(_), Some(text)) => same(text.as_str(), encoded),
        _ => true,
    }
}

fn apply_fixed(
    row: &MemoryJobRow,
    job: &MemoryJobRow,
    digest: u128,
    encoded: &Option<String>,
    now: i64,
) -> (next: MemoryJobRow)
    ensures
        next@ == fixed(job@, digest as int, opt_text(*encoded), now)(row@),
{
    MemoryJobRow {
        queue_digest: queue_digest(digest),
        input_hash: crate::memory::digest::input_hash(
            job.operation_version.as_str(),
            job.global_epoch,
            job.conversation_epoch,
            borrow_opt(&job.from_turn_id),
            job.turn_count,
            digest,
        ),
        reconciliation_snapshot_json: match &row.reconciliation_snapshot_json {
            Some(text) => Some(text.clone()),
            None => copy_opt(encoded),
        },
        updated_at: now,
        ..row.duplicate()
    }
}

impl MemoryStore {
    /// Fixes what a worker saw of a claimed job. `encoded` is the JSON text of
    /// the entries that the worker names, and is not looked at where it names
    /// none.
    pub fn finalize_claimed_job_snapshot(
        &mut self,
        input: &FinalizeMemoryJobSnapshotRow,
        encoded: &str,
    ) -> (result: Result<FinalizeMemoryJobSnapshotResult, DbError>)
        ensures
            finalize_done(
                finalize_step(old(self)@, *input, encoded@),
                result,
                old(self)@,
                final(self)@,
            ),
    {
        let user_id = input.user_id.as_str();
        let found = find_leased(
            &self.queue.jobs,
            input.job_id.as_str(),
            user_id,
            input.lease_token.as_str(),
            input.now,
        );
        let job = match found {
            Some(at) => self.queue.jobs[at].duplicate(),
            None => {
                return Ok(FinalizeMemoryJobSnapshotResult::FenceLost);
            },
        };
        let global_epoch: i64 = match find_settings(&self.settings, user_id) {
            Some(at) => self.settings[at].lifecycle_epoch,
            None => {
                return Err(missing_row());
            },
        };
        let conversation_epoch: i64 = match find_policy(
            &self.policies,
            user_id,
            job.conversation_id.as_str(),
        ) {
            Some(at) => self.policies[at].lifecycle_epoch,
            None => 0,
        };
        if job.global_epoch != input.expected_global_epoch || job.conversation_epoch
            != input.expected_conversation_epoch || global_epoch != input.expected_global_epoch
            || conversation_epoch != input.expected_conversation_epoch {
            return Ok(FinalizeMemoryJobSnapshotResult::FenceLost);
        }
        let list = collect_snapshot_turns(&self.queue.turns, input.job_id.as_str());
        if !are_named(&list, &job, &input.turn_snapshots) {
            return Ok(FinalizeMemoryJobSnapshotResult::SnapshotChanged);
        }
        match are_confirmed(
            &self.messages,
            job.conversation_id.as_str(),
            &list,
            &input.turn_snapshots,
        ) {
            Err(error) => {
                return Err(error);
            },
            Ok(false) => {
                return Ok(FinalizeMemoryJobSnapshotResult::SnapshotChanged);
            },
            Ok(true) => {},
        }
        take_seen_hashes(
            &mut self.queue.turns,
            input.job_id.as_str(),
            &list,
            &input.turn_snapshots,
        );
        if !do_allow(&self.entries, &job, input, encoded) {
            return Ok(FinalizeMemoryJobSnapshotResult::ReconciliationChanged);
        }
        let digest: u128 = digest_seen(&list, &input.turn_snapshots);
        let text: Option<String> = match &input.reconciliation_snapshot {
            Some(_) => Some(encoded.to_owned()),
            None => None,
        };
        let ghost change = fixed(job@, digest as int, opt_text(text), input.now);
        change_job(
            &mut self.queue.jobs,
            input.job_id.as_str(),
            |row: &MemoryJobRow| -> (next: MemoryJobRow)
                ensures next@ == change(row@)
                { apply_fixed(row, &job, digest, &text, input.now) },
            Ghost(change),
        );
        Ok(
            FinalizeMemoryJobSnapshotResult::Finalized(
                Box::new(apply_fixed(&job, &job, digest, &text, input.now)),
            ),
        )
    }
}

// ----------------------------------------------------------------------------
// Reading evidence within bounds
// ----------------------------------------------------------------------------

/// The job's turn with an id.
pub open spec fn job_turn(job_id: Seq<char>, turn_id: Seq<char>) -> spec_fn(Turn) -> bool {
    |turn: Turn| turn.job_id == job_id && turn.turn_id == turn_id
}

/// Whether evidence exceeds a reader's bounds.
pub open spec fn exceeds(snapshot: SnapshotModel, max_messages: u32, max_bytes: u64) -> bool {
    snapshot.absolute_limit_exceeded || snapshot.message_count > max_messages
        || snapshot.content_bytes > max_bytes
}

/// Whether the evidence of a turn is what was asked for.
pub open spec fn is_bounded(
    row: BoundedMemoryTurnMessagesRow,
    snapshot: SnapshotModel,
    stored_hash: Seq<char>,
    max_messages: u32,
    max_bytes: u64,
) -> bool {
    let over = exceeds(snapshot, max_messages, max_bytes);
    &&& model(row.messages@) == if over {
        Seq::empty()
    } else {
        snapshot.messages
    }
    &&& row.message_count == snapshot.message_count
    &&& row.content_bytes == snapshot.content_bytes
    &&& row.snapshot_hash@ == snapshot.hash
    &&& row.snapshot_matches == (snapshot.hash == stored_hash)
    &&& row.limit_exceeded == over
    &&& row.has_user_work == snapshot.has_user_work
    &&& row.has_assistant_outcome == snapshot.has_assistant_outcome
}

/// The error for a turn that a job does not cover.
pub open spec fn job_turn_missing(turn_id: Seq<char>) -> DbError<Seq<char>> {
    missing("Memory job turn '"@, turn_id, "' not found"@)
}

impl MemoryStore {
    /// Reads the evidence of one turn of a user's job, within bounds.
    pub fn load_job_turn_messages_bounded(
        &self,
        user_id: &str,
        job_id: &str,
        turn_id: &str,
        max_messages: u32,
        max_bytes: u64,
    ) -> (result: Result<BoundedMemoryTurnMessagesRow, DbError>)
        ensures
            match (
                lookup(self@.queue.turns, job_turn(job_id@, turn_id@)),
                lookup(self@.queue.jobs, owned(job_id@, user_id@)),
            ) {
                (Some(turn), Some(job)) => match snapshot_of(
                    self@.messages,
                    job.conversation_id,
                    turn_id@,
                ) {
                    Err(wanted) => result matches Err(error) && error@ == wanted,
                    Ok(snapshot) => if max_bytes > i64::MAX {
                        result matches Err(error) && error@ == DbError::Conflict(
                            "Memory evidence byte limit overflow"@,
                        )
                    } else {
                        result matches Ok(row) && is_bounded(
                            row,
                            snapshot,
                            turn.turn_hash,
                            max_messages,
                            max_bytes,
                        )
                    },
                },
                _ => result matches Err(error) && error@ == job_turn_missing(turn_id@),
            },
    {
        let turn_at = find_where(
            &self.queue.turns,
            |turn: &StoredJobTurnRow| -> (yes: bool)
                ensures yes == job_turn(job_id@, turn_id@)(turn@)
                { same(turn.job_id.as_str(), job_id) && same(turn.turn_id.as_str(), turn_id) },
            Ghost(job_turn(job_id@, turn_id@)),
        );
        let job_at = find_owned(&self.queue.jobs, job_id, user_id);
        match (turn_at, job_at) {
            (Some(turn_at), Some(job_at)) => {
                let conversation_id = self.queue.jobs[job_at].conversation_id.as_str();
                let snapshot = match canonical_turn_snapshot(
                    &self.messages,
                    conversation_id,
                    turn_id,
                ) {
                    Ok(snapshot) => snapshot,
                    Err(error) => {
                        return Err(error);
                    },
                };
                if max_bytes > i64::MAX as u64 {
                    return Err(conflict("Memory evidence byte limit overflow"));
                }
                let over = snapshot.absolute_limit_exceeded || snapshot.message_count
                    > max_messages as i64 || snapshot.content_bytes > max_bytes as i64;
                let matches = same(
                    snapshot.hash.as_str(),
                    self.queue.turns[turn_at].turn_hash.as_str(),
                );
                let messages: Vec<MessageRow> = if over {
                    Vec::new()
                } else {
                    snapshot.messages
                };
                assert(over ==> model(messages@) =~= Seq::empty());
                Ok(
                    BoundedMemoryTurnMessagesRow {
                        messages,
                        message_count: snapshot.message_count,
                        content_bytes: snapshot.content_bytes,
                        snapshot_hash: snapshot.hash,
                        snapshot_matches: matches,
                        limit_exceeded: over,
                        has_user_work: snapshot.has_user_work,
                        has_assistant_outcome: snapshot.has_assistant_outcome,
                    },
                )
            },
            _ => Err(not_found("Memory job turn '", turn_id, "' not found")),
        }
    }
}

} // verus!

//! Queuing completed turns and handing jobs to workers.
use crate::error::{conflict, not_found, DbError};
use crate::memory::commands::{ClaimMemoryJobRow, EnqueueMemoryTurnRow};
use crate::memory::digest::{
    append_queue_digest, appended_digest, bad_digest, input_hash, input_hash_of, parse_queue_digest,
    queue_digest,
};
use crate::memory::evidence::{canonical_turn_snapshot, snapshot_of, SnapshotModel};
use crate::memory::leases::{lease_over, lease_overflow, lease_runs};
use crate::memory::queue::{
    absorb, find_in_state, find_queued, has_job, in_state, length_overflow, older_job, owned,
    queued_in, step_taken, with_id, Job, MemoryQueue, QueueModel, QueueStep, Turn,
};
use crate::memory::rows::{
    ConversationMemoryRow, ConversationRow, MemoryJobRow, MemorySettingsRow, StoredJobTurnRow,
    StoredMemoryPolicyRow,
};
use crate::memory::split::job_id_taken;
use crate::memory::store::{
    conversation_is_excluded, conversation_missing, conversation_of, ensure_user, find_conversation,
    find_memory, find_policy, find_settings, is_excluded, later, later_of, memory_of, missing_row,
    policy_of, row_missing, settings_of, user_check, MemoryStore, StoreModel,
};
use crate::table::{
    any_where, exists_in, least, least_where, lookup, model, update_where, updated, Record,
};
use crate::text::{
    before, borrow_opt, copy_opt, hex_fixed, hex_parsed, is_some_text, opt_text, same, text_before,
};
use vstd::prelude::*;

verus! {

/// What decides, besides the turn itself, whether a turn is captured.
pub struct CaptureGate {
    pub enabled: bool,
    pub capture: bool,
    pub consent_version: Option<i64>,
    pub reset_at: Option<i64>,
    pub global_epoch: i64,
    pub conversation_epoch: i64,
}

/// What a user's settings and a conversation's own policy allow.
pub open spec fn gate_of(
    settings: MemorySettingsRow<Seq<char>>,
    policy: Option<StoredMemoryPolicyRow<Seq<char>>>,
) -> CaptureGate {
    match policy {
        Some(own) => CaptureGate {
            enabled: settings.enabled,
            capture: match own.capture_enabled {
                Some(flag) => flag,
                None => settings.default_capture,
            },
            consent_version: settings.consent_version,
            reset_at: later_of(settings.reset_at, own.reset_at),
            global_epoch: settings.lifecycle_epoch,
            conversation_epoch: own.lifecycle_epoch,
        },
        None => CaptureGate {
            enabled: settings.enabled,
            capture: settings.default_capture,
            consent_version: settings.consent_version,
            reset_at: settings.reset_at,
            global_epoch: settings.lifecycle_epoch,
            conversation_epoch: 0,
        },
    }
}

/// Reads what a user's settings and a conversation's own policy allow.
pub fn read_gate(settings: &MemorySettingsRow, policy: Option<&StoredMemoryPolicyRow>) -> (gate:
    CaptureGate)
    ensures
        gate == gate_of(
            settings@,
            match policy {
                Some(own) => Some(own@),
                None => None,
            },
        ),
{
    match policy {
        Some(own) => CaptureGate {
            enabled: settings.enabled,
            capture: match own.capture_enabled {
                Some(flag) => flag,
                None => settings.default_capture,
            },
            consent_version: settings.consent_version,
            reset_at: later(settings.reset_at, own.reset_at),
            global_epoch: settings.lifecycle_epoch,
            conversation_epoch: own.lifecycle_epoch,
        },
        None => CaptureGate {
            enabled: settings.enabled,
            capture: settings.default_capture,
            consent_version: settings.consent_version,
            reset_at: settings.reset_at,
            global_epoch: settings.lifecycle_epoch,
            conversation_epoch: 0,
        },
    }
}

/// Whether something that began at `earliest` lies wholly after a reset.
pub open spec fn after_reset(earliest: Option<i64>, reset_at: Option<i64>) -> bool {
    match (earliest, reset_at) {
        (Some(time), Some(reset)) => time > reset,
        (Some(_), None) => true,
        (None, _) => false,
    }
}

/// Decides whether something that began at `earliest` lies wholly after a reset.
pub fn is_after_reset(earliest: Option<i64>, reset_at: Option<i64>) -> (yes: bool)
    ensures
        yes == after_reset(earliest, reset_at),
{
    match (earliest, reset_at) {
        (Some(time), Some(reset)) => time > reset,
        (Some(_), None) => true,
        (None, _) => false,
    }
}

/// Whether a completed turn is captured.
pub open spec fn captures(
    conversation: ConversationRow<Seq<char>>,
    gate: CaptureGate,
    snapshot: SnapshotModel,
    input: EnqueueMemoryTurnRow,
) -> bool {
    &&& gate.enabled
    &&& gate.capture
    &&& gate.consent_version == Some(input.required_consent_version)
    &&& gate.global_epoch == input.expected_global_epoch
    &&& gate.conversation_epoch == input.expected_conversation_epoch
    &&& conversation.status == Some("finished"@)
    &&& !is_excluded(conversation.conversation_type, conversation.source, conversation.extra)
    &&& snapshot.has_user_work
    &&& snapshot.has_assistant_outcome
    &&& after_reset(snapshot.earliest_all_at, gate.reset_at)
}

/// A turn that some job covers already.
pub open spec fn same_turn(input: EnqueueMemoryTurnRow) -> spec_fn(Turn) -> bool {
    |turn: Turn|
        turn.user_id == input.user_id@ && turn.conversation_id == input.conversation_id@
            && turn.operation_version == input.operation_version@ && turn.turn_id
            == input.through_turn_id@
}

/// Where a job for a new turn starts from.
pub struct Base {
    pub from_turn_id: Option<Seq<char>>,
    pub revision: i64,
}

/// Where the jobs of a conversation start from: behind the running job, or else
/// behind what is remembered.
pub open spec fn queue_base(
    running: Option<Job>,
    memory: Option<ConversationMemoryRow<Seq<char>>>,
) -> Base {
    match running {
        Some(job) => Base {
            from_turn_id: Some(job.through_turn_id),
            revision: job.expected_revision,
        },
        None => match memory {
            Some(row) => Base { from_turn_id: Some(row.through_turn_id), revision: row.revision },
            None => Base { from_turn_id: None, revision: 0 },
        },
    }
}

/// Where a failed job starts from: where it did, or else as the others do.
pub open spec fn failed_base(failed: Job, others: Base) -> Base {
    Base {
        from_turn_id: match failed.from_turn_id {
            Some(id) => Some(id),
            None => others.from_turn_id,
        },
        revision: failed.expected_revision,
    }
}

/// The turn to be queued, as a row of a job.
pub open spec fn new_turn(
    job_id: Seq<char>,
    position: i64,
    hash: Seq<char>,
    input: EnqueueMemoryTurnRow,
) -> Turn {
    StoredJobTurnRow {
        job_id,
        user_id: input.user_id@,
        conversation_id: input.conversation_id@,
        operation_version: input.operation_version@,
        position,
        turn_id: input.through_turn_id@,
        turn_hash: hash,
    }
}

/// The input hash of a job that ends with the new turn.
pub open spec fn enqueued_hash(
    input: EnqueueMemoryTurnRow,
    gate: CaptureGate,
    base: Base,
    count: i64,
    digest: int,
) -> Seq<char> {
    input_hash_of(
        input.operation_version@,
        gate.global_epoch,
        gate.conversation_epoch,
        base.from_turn_id,
        count,
        digest,
    )
}

/// A job that took the new turn in. A failed job stays failed.
pub open spec fn grown(
    target: Job,
    input: EnqueueMemoryTurnRow,
    gate: CaptureGate,
    base: Base,
    digest: int,
) -> spec_fn(Job) -> Job {
    |job: Job|
        MemoryJobRow {
            from_turn_id: base.from_turn_id,
            through_turn_id: input.through_turn_id@,
            operation_version: input.operation_version@,
            global_epoch: gate.global_epoch,
            conversation_epoch: gate.conversation_epoch,
            turn_count: (target.turn_count + 1) as i64,
            queue_digest: hex_fixed(digest as nat, 32),
            input_hash: enqueued_hash(
                input,
                gate,
                base,
                (target.turn_count + 1) as i64,
                digest,
            ),
            expected_revision: base.revision,
            state: if target.state == "failed"@ {
                "failed"@
            } else {
                "pending"@
            },
            next_attempt_at: None,
            last_error_code: if target.state == "failed"@ {
                target.last_error_code
            } else {
                None
            },
            updated_at: input.now,
            ..job
        }
}

/// The queue after a job took the new turn in.
pub open spec fn grow(
    queue: QueueModel,
    target: Job,
    hash: Seq<char>,
    input: EnqueueMemoryTurnRow,
    gate: CaptureGate,
    base: Base,
) -> Result<QueueStep, DbError<Seq<char>>> {
    match hex_parsed(target.queue_digest) {
        None => Err(bad_digest()),
        Some(current) => if target.turn_count == i64::MAX {
            Err(length_overflow())
        } else {
            let digest = appended_digest(current, input.through_turn_id@, hash);
            let change = grown(target, input, gate, base, digest);
            Ok(
                QueueStep {
                    queue: QueueModel {
                        jobs: updated(queue.jobs, owned(target.id, input.user_id@), change),
                        turns: queue.turns.push(
                            new_turn(target.id, target.turn_count, hash, input),
                        ),
                    },
                    job: change(target),
                },
            )
        },
    }
}

/// A new job for the new turn alone.
pub open spec fn first_job(
    hash: Seq<char>,
    input: EnqueueMemoryTurnRow,
    gate: CaptureGate,
    base: Base,
) -> Job {
    let digest = appended_digest(0, input.through_turn_id@, hash);
    MemoryJobRow {
        id: input.id@,
        user_id: input.user_id@,
        conversation_id: input.conversation_id@,
        from_turn_id: base.from_turn_id,
        through_turn_id: input.through_turn_id@,
        operation_version: input.operation_version@,
        global_epoch: gate.global_epoch,
        conversation_epoch: gate.conversation_epoch,
        turn_count: 1,
        queue_digest: hex_fixed(digest as nat, 32),
        input_hash: enqueued_hash(input, gate, base, 1, digest),
        expected_revision: base.revision,
        state: "pending"@,
        attempt_count: 0,
        invalid_output_count: 0,
        next_attempt_at: None,
        last_error_code: None,
        lease_owner: None,
        lease_token: None,
        lease_expires_at: None,
        reconciliation_snapshot_json: None,
        created_at: input.now,
        updated_at: input.now,
    }
}

/// The queue after the new turn is queued: behind the oldest failed job of the
/// conversation, which takes every other open job in first; or else behind the
/// queued job; or else in a new job.
pub open spec fn enqueue_turn(
    queue: QueueModel,
    memory: Option<ConversationMemoryRow<Seq<char>>>,
    hash: Seq<char>,
    input: EnqueueMemoryTurnRow,
    gate: CaptureGate,
) -> Result<QueueStep, DbError<Seq<char>>> {
    let user = input.user_id@;
    let conversation = input.conversation_id@;
    let base = queue_base(lookup(queue.jobs, in_state(user, conversation, "running"@)), memory);
    match least(queue.jobs, in_state(user, conversation, "failed"@), older_job()) {
        Some(failed) => match absorb(queue, failed, input.now) {
            Err(error) => Err(error),
            Ok(step) => grow(
                step.queue,
                step.job,
                hash,
                input,
                gate,
                failed_base(step.job, base),
            ),
        },
        None => match lookup(queue.jobs, queued_in(user, conversation)) {
            Some(queued) => grow(queue, queued, hash, input, gate, base),
            None => if exists_in(queue.jobs, with_id(input.id@)) {
                Err(job_id_taken())
            } else {
                let job = first_job(hash, input, gate, base);
                Ok(
                    QueueStep {
                        queue: QueueModel {
                            jobs: queue.jobs.push(job),
                            turns: queue.turns.push(new_turn(input.id@, 0, hash, input)),
                        },
                        job,
                    },
                )
            },
        },
    }
}

/// What queuing a completed turn comes to: a step, or nothing where the turn is
/// not captured or covered already.
pub open spec fn enqueue_step(store: StoreModel, input: EnqueueMemoryTurnRow) -> Result<
    Option<QueueStep>,
    DbError<Seq<char>>,
> {
    let user = input.user_id@;
    let conversation_id = input.conversation_id@;
    match lookup(store.conversations, conversation_of(user, conversation_id)) {
        None => Err(conversation_missing(conversation_id)),
        Some(conversation) => match lookup(store.settings, settings_of(user)) {
            None => Err(row_missing()),
            Some(settings) => match snapshot_of(
                store.messages,
                conversation_id,
                input.through_turn_id@,
            ) {
                Err(error) => Err(error),
                Ok(snapshot) => {
                    let gate = gate_of(
                        settings,
                        lookup(store.policies, policy_of(user, conversation_id)),
                    );
                    if !captures(conversation, gate, snapshot, input) || exists_in(
                        store.queue.turns,
                        same_turn(input),
                    ) {
                        Ok(None)
                    } else {
                        match enqueue_turn(
                            store.queue,
                            lookup(store.memories, memory_of(user, conversation_id)),
                            snapshot.hash,
                            input,
                            gate,
                        ) {
                            Err(error) => Err(error),
                            Ok(step) => Ok(Some(step)),
                        }
                    }
                },
            },
        },
    }
}

/// Whether a queue operation of the store was carried out as `expected` says,
/// and nothing but the queue changed.
pub open spec fn queue_changed(
    expected: Result<Option<QueueStep>, DbError<Seq<char>>>,
    result: Result<Option<MemoryJobRow>, DbError>,
    before: StoreModel,
    after: StoreModel,
) -> bool {
    match (expected, result) {
        (Ok(None), Ok(None)) => after == before,
        (Ok(Some(step)), Ok(Some(job))) => job@ == step.job && after == (StoreModel {
            queue: step.queue,
            ..before
        }),
        (Err(wanted), Err(error)) => error@ == wanted && after == before,
        _ => false,
    }
}

/// The start of a job, in running code.
struct Start {
    from_turn_id: Option<String>,
    revision: i64,
}

impl Start {
    spec fn base(&self) -> Base {
        Base { from_turn_id: opt_text(self.from_turn_id), revision: self.revision }
    }
}

fn find_start(
    jobs: &Vec<MemoryJobRow>,
    memories: &Vec<ConversationMemoryRow>,
    user_id: &str,
    conversation_id: &str,
) -> (start: Start)
    ensures
        start.base() == queue_base(
            lookup(model(jobs@), in_state(user_id@, conversation_id@, "running"@)),
            lookup(model(memories@), memory_of(user_id@, conversation_id@)),
        ),
{
    match find_in_state(jobs, user_id, conversation_id, "running") {
        Some(at) => Start {
            from_turn_id: Some(jobs[at].through_turn_id.clone()),
            revision: jobs[at].expected_revision,
        },
        None => match find_memory(memories, user_id, conversation_id) {
            Some(at) => Start {
                from_turn_id: Some(memories[at].through_turn_id.clone()),
                revision: memories[at].revision,
            },
            None => Start { from_turn_id: None, revision: 0 },
        },
    }
}

fn apply_grown(
    job: &MemoryJobRow,
    target: &MemoryJobRow,
    input: &EnqueueMemoryTurnRow,
    gate: &CaptureGate,
    start: &Start,
    digest: u128,
) -> (next: MemoryJobRow)
    requires
        target.turn_count < i64::MAX,
    ensures
        next@ == grown(target@, *input, *gate, start.base(), digest as int)(job@),
{
    let failed = same(target.state.as_str(), "failed");
    MemoryJobRow {
        from_turn_id: copy_opt(&start.from_turn_id),
        through_turn_id: input.through_turn_id.clone(),
        operation_version: input.operation_version.clone(),
        global_epoch: gate.global_epoch,
        conversation_epoch: gate.conversation_epoch,
        turn_count: target.turn_count + 1,
        queue_digest: queue_digest(digest),
        input_hash: input_hash(
            input.operation_version.as_str(),
            gate.global_epoch,
            gate.conversation_epoch,
            borrow_opt(&start.from_turn_id),
            target.turn_count + 1,
            digest,
        ),
        expected_revision: start.revision,
        state: if failed {
            "failed".to_owned()
        } else {
            "pending".to_owned()
        },
        next_attempt_at: None,
        last_error_code: if failed {
            copy_opt(&target.last_error_code)
        } else {
            None
        },
        updated_at: input.now,
        ..job.duplicate()
    }
}

fn make_turn(job_id: &str, position: i64, hash: &str, input: &EnqueueMemoryTurnRow) -> (turn:
    StoredJobTurnRow)
    ensures
        turn@ == new_turn(job_id@, position, hash@, *input),
{
    StoredJobTurnRow {
        job_id: job_id.to_owned(),
        user_id: input.user_id.clone(),
        conversation_id: input.conversation_id.clone(),
        operation_version: input.operation_version.clone(),
        position,
        turn_id: input.through_turn_id.clone(),
        turn_hash: hash.to_owned(),
    }
}

impl MemoryQueue {
    /// Puts a new turn behind a job's own.
    fn grow_job(
        &mut self,
        target: &MemoryJobRow,
        hash: &str,
        input: &EnqueueMemoryTurnRow,
        gate: &CaptureGate,
        start: &Start,
    ) -> (result: Result<MemoryJobRow, DbError>)
        ensures
            step_taken(
                grow(old(self)@, target@, hash@, *input, *gate, start.base()),
                result,
                old(self)@,
                final(self)@,
            ),
    {
        let current: u128 = match parse_queue_digest(target.queue_digest.as_str()) {
            Ok(number) => number,
            Err(error) => {
                return Err(error);
            },
        };
        if target.turn_count == i64::MAX {
            return Err(conflict("Memory queue length overflow"));
        }
        let digest: u128 = append_queue_digest(current, input.through_turn_id.as_str(), hash);
        let ghost hit = owned(target@.id, input.user_id@);
        let ghost change = grown(target@, *input, *gate, start.base(), digest as int);
        let _grown: u64 = update_where(
            &mut self.jobs,
            |job: &MemoryJobRow| -> (yes: bool)
                ensures yes == hit(job@)
                {
                    same(job.id.as_str(), target.id.as_str()) && same(
                        job.user_id.as_str(),
                        input.user_id.as_str(),
                    )
                },
            |job: &MemoryJobRow| -> (next: MemoryJobRow)
                requires target.turn_count < i64::MAX
                ensures next@ == change(job@)
                { apply_grown(job, target, input, gate, start, digest) },
            Ghost(hit),
            Ghost(change),
        );
        let ghost turns = self.turns@;
        let turn = make_turn(target.id.as_str(), target.turn_count, hash, input);
        self.turns.push(turn);
        assert(model(self.turns@) =~= model(turns).push(turn@));
        Ok(apply_grown(target, target, input, gate, start, digest))
    }

    /// Queues a new turn of a conversation.
    fn enqueue_turn(
        &mut self,
        memories: &Vec<ConversationMemoryRow>,
        hash: &str,
        input: &EnqueueMemoryTurnRow,
        gate: &CaptureGate,
    ) -> (result: Result<MemoryJobRow, DbError>)
        ensures
            step_taken(
                enqueue_turn(
                    old(self)@,
                    lookup(model(memories@), memory_of(input.user_id@, input.conversation_id@)),
                    hash@,
                    *input,
                    *gate,
                ),
                result,
                old(self)@,
                final(self)@,
            ),
    {
        let user_id = input.user_id.as_str();
        let conversation_id = input.conversation_id.as_str();
        let start = find_start(&self.jobs, memories, user_id, conversation_id);
        let failed = least_where(
            &self.jobs,
            |job: &MemoryJobRow| -> (yes: bool)
                ensures yes == in_state(user_id@, conversation_id@, "failed"@)(job@)
                {
                    same(job.user_id.as_str(), user_id) && same(
                        job.conversation_id.as_str(),
                        conversation_id,
                    ) && same(job.state.as_str(), "failed")
                },
            |a: &MemoryJobRow, b: &MemoryJobRow| -> (yes: bool)
                ensures yes == older_job()(a@, b@)
                {
                    a.created_at < b.created_at || (a.created_at == b.created_at && before(
                        a.id.as_str(),
                        b.id.as_str(),
                    ))
                },
            Ghost(in_state(user_id@, conversation_id@, "failed"@)),
            Ghost(older_job()),
        );
        match failed {
            Some(at) => {
                let failed = self.jobs[at].duplicate();
                let mut queue = self.duplicate();
                match queue.absorb_queued_successors(&failed, input.now) {
                    Err(error) => Err(error),
                    Ok(barrier) => {
                        let own = Start {
                            from_turn_id: match &barrier.from_turn_id {
                                Some(id) => Some(id.clone()),
                                None => copy_opt(&start.from_turn_id),
                            },
                            revision: barrier.expected_revision,
                        };
                        assert(own.base() == failed_base(barrier@, start.base()));
                        match queue.grow_job(&barrier, hash, input, gate, &own) {
                            Err(error) => Err(error),
                            Ok(job) => {
                                *self = queue;
                                Ok(job)
                            },
                        }
                    },
                }
            },
            None => match find_queued(&self.jobs, user_id, conversation_id) {
                Some(at) => {
                    let queued = self.jobs[at].duplicate();
                    self.grow_job(&queued, hash, input, gate, &start)
                },
                None => {
                    if has_job(&self.jobs, input.id.as_str()) {
                        return Err(
                            DbError::Query("UNIQUE constraint failed: memory_jobs.id".to_owned()),
                        );
                    }
                    let digest: u128 = append_queue_digest(
                        0,
                        input.through_turn_id.as_str(),
                        hash,
                    );
                    let job = MemoryJobRow {
                        id: input.id.clone(),
                        user_id: input.user_id.clone(),
                        conversation_id: input.conversation_id.clone(),
                        from_turn_id: copy_opt(&start.from_turn_id),
                        through_turn_id: input.through_turn_id.clone(),
                        operation_version: input.operation_version.clone(),
                        global_epoch: gate.global_epoch,
                        conversation_epoch: gate.conversation_epoch,
                        turn_count: 1,
                        queue_digest: queue_digest(digest),
                        input_hash: input_hash(
                            input.operation_version.as_str(),
                            gate.global_epoch,
                            gate.conversation_epoch,
                            borrow_opt(&start.from_turn_id),
                            1,
                            digest,
                        ),
                        expected_revision: start.revision,
                        state: "pending".to_owned(),
                        attempt_count: 0,
                        invalid_output_count: 0,
                        next_attempt_at: None,
                        last_error_code: None,
                        lease_owner: None,
                        lease_token: None,
                        lease_expires_at: None,
                        reconciliation_snapshot_json: None,
                        created_at: input.now,
                        updated_at: input.now,
                    };
                    assert(job@ == first_job(hash@, *input, *gate, start.base()));
                    let turn = make_turn(input.id.as_str(), 0, hash, input);
                    let copy = job.duplicate();
                    let ghost jobs = self.jobs@;
                    let ghost turns = self.turns@;
                    self.jobs.push(job);
                    self.turns.push(turn);
                    assert(model(self.jobs@) =~= model(jobs).push(job@));
                    assert(model(self.turns@) =~= model(turns).push(turn@));
                    Ok(copy)
                },
            },
        }
    }
}

impl MemoryStore {
    /// Queues a completed turn, where it is to be captured and is not yet. The
    /// job that covers the turn is returned.
    pub fn enqueue_completed_turn(&mut self, input: &EnqueueMemoryTurnRow) -> (result: Result<
        Option<MemoryJobRow>,
        DbError,
    >)
        ensures
            queue_changed(enqueue_step(old(self)@, *input), result, old(self)@, final(self)@),
    {
        let user_id = input.user_id.as_str();
        let conversation_id = input.conversation_id.as_str();
        let at: usize = match find_conversation(&self.conversations, user_id, conversation_id) {
            Some(at) => at,
            None => {
                return Err(
                    not_found(
                        "Conversation '",
                        conversation_id,
                        "' not found for user",
                    ),
                );
            },
        };
        let settings_at: usize = match find_settings(&self.settings, user_id) {
            Some(at) => at,
            None => {
                return Err(missing_row());
            },
        };
        let policy = match find_policy(&self.policies, user_id, conversation_id) {
            Some(at) => Some(&self.policies[at]),
            None => None,
        };
        let gate = read_gate(&self.settings[settings_at], policy);
        let snapshot = match canonical_turn_snapshot(
            &self.messages,
            conversation_id,
            input.through_turn_id.as_str(),
        ) {
            Ok(snapshot) => snapshot,
            Err(error) => {
                return Err(error);
            },
        };
        let conversation = &self.conversations[at];
        let consented = match gate.consent_version {
            Some(version) => version == input.required_consent_version,
            None => false,
        };
        let captured = gate.enabled && gate.capture && consented && gate.global_epoch
            == input.expected_global_epoch && gate.conversation_epoch
            == input.expected_conversation_epoch && is_some_text(&conversation.status, "finished")
            && !conversation_is_excluded(
            conversation.conversation_type.as_str(),
            borrow_opt(&conversation.source),
            conversation.extra.as_str(),
        ) && snapshot.has_user_work && snapshot.has_assistant_outcome && is_after_reset(
            snapshot.earliest_all_at,
            gate.reset_at,
        );
        assert(captured == captures(conversation@, gate, snapshot@, *input));
        if !captured {
            return Ok(None);
        }
        let covered = any_where(
            &self.queue.turns,
            |turn: &StoredJobTurnRow| -> (yes: bool)
                ensures yes == same_turn(*input)(turn@)
                {
                    same(turn.user_id.as_str(), input.user_id.as_str()) && same(
                        turn.conversation_id.as_str(),
                        input.conversation_id.as_str(),
                    ) && same(
                        turn.operation_version.as_str(),
                        input.operation_version.as_str(),
                    ) && same(turn.turn_id.as_str(), input.through_turn_id.as_str())
                },
            Ghost(same_turn(*input)),
        );
        if covered {
            return Ok(None);
        }
        match self.queue.enqueue_turn(&self.memories, snapshot.hash.as_str(), input, &gate) {
            Ok(job) => Ok(Some(job)),
            Err(error) => Err(error),
        }
    }
}

// ----------------------------------------------------------------------------
// Handing jobs to workers
// ----------------------------------------------------------------------------

/// A conversation's running jobs whose lease runs on.
pub open spec fn worked_on(user_id: Seq<char>, conversation_id: Seq<char>, now: i64) -> spec_fn(
    Job,
) -> bool {
    |job: Job|
        job.user_id == user_id && job.conversation_id == conversation_id && job.state
            == "running"@ && lease_runs(job, now)
}

/// Whether a waiting job's time has come.
pub open spec fn is_due(job: Job, now: i64) -> bool {
    match job.next_attempt_at {
        Some(time) => time <= now,
        None => 0 <= now,
    }
}

/// A user's jobs that a worker may have: none of a conversation with a failed
/// job; a running one whose lease has run out; a waiting one that is due and
/// whose conversation nobody works on.
pub open spec fn claimable(jobs: Seq<Job>, user_id: Seq<char>, now: i64) -> spec_fn(Job) -> bool {
    |job: Job|
        {
            &&& job.user_id == user_id
            &&& !exists_in(jobs, in_state(job.user_id, job.conversation_id, "failed"@))
            &&& (job.state == "running"@ && lease_over(job, now)) || ((job.state == "pending"@
                || job.state == "retry_wait"@) && is_due(job, now) && !exists_in(
                jobs,
                worked_on(job.user_id, job.conversation_id, now),
            ))
        }
}

/// The time by which jobs are handed out.
pub open spec fn claim_time(job: Job) -> i64 {
    match job.next_attempt_at {
        Some(time) => time,
        None => job.created_at,
    }
}

/// Jobs in the order in which they are handed out: abandoned ones first, then by
/// time, creation and id.
pub open spec fn claimed_before() -> spec_fn(Job, Job) -> bool {
    |a: Job, b: Job|
        {
            let a_runs = a.state == "running"@;
            let b_runs = b.state == "running"@;
            if a_runs != b_runs {
                a_runs
            } else if claim_time(a) != claim_time(b) {
                claim_time(a) < claim_time(b)
            } else if a.created_at != b.created_at {
                a.created_at < b.created_at
            } else {
                text_before(a.id, b.id)
            }
        }
}

/// A job handed to a worker.
pub open spec fn handed_to(
    input: ClaimMemoryJobRow,
    revision: i64,
    end: i64,
) -> spec_fn(Job) -> Job {
    |job: Job|
        MemoryJobRow {
            state: "running"@,
            expected_revision: revision,
            lease_owner: Some(input.worker_id@),
            lease_token: Some(input.lease_token@),
            lease_expires_at: Some(end),
            next_attempt_at: None,
            updated_at: input.now,
            ..job
        }
}

/// The revision of what is remembered of a conversation; zero where nothing is.
pub open spec fn revision_of(
    memories: Seq<ConversationMemoryRow<Seq<char>>>,
    user_id: Seq<char>,
    conversation_id: Seq<char>,
) -> i64 {
    match lookup(memories, memory_of(user_id, conversation_id)) {
        Some(row) => row.revision,
        None => 0,
    }
}

/// What handing out the next job comes to.
pub open spec fn claim_step(store: StoreModel, input: ClaimMemoryJobRow) -> Result<
    Option<QueueStep>,
    DbError<Seq<char>>,
> {
    if user_check(store.users, input.user_id@) is Err {
        Err(user_check(store.users, input.user_id@)->Err_0)
    } else {
        match least(
            store.queue.jobs,
            claimable(store.queue.jobs, input.user_id@, input.now),
            claimed_before(),
        ) {
            None => Ok(None),
            Some(job) => {
                let end = input.now + input.lease_duration_ms;
                if !(i64::MIN <= end <= i64::MAX) {
                    Err(lease_overflow())
                } else {
                    let change = handed_to(
                        input,
                        revision_of(store.memories, job.user_id, job.conversation_id),
                        end as i64,
                    );
                    Ok(
                        Some(
                            QueueStep {
                                queue: QueueModel {
                                    jobs: updated(
                                        store.queue.jobs,
                                        owned(job.id, input.user_id@),
                                        change,
                                    ),
                                    turns: store.queue.turns,
                                },
                                job: change(job),
                            },
                        ),
                    )
                }
            },
        }
    }
}

fn has_failed(jobs: &Vec<MemoryJobRow>, user_id: &str, conversation_id: &str) -> (yes: bool)
    ensures
        yes == exists_in(model(jobs@), in_state(user_id@, conversation_id@, "failed"@)),
{
    any_where(
        jobs,
        |job: &MemoryJobRow| -> (yes: bool)
            ensures yes == in_state(user_id@, conversation_id@, "failed"@)(job@)
            {
                same(job.user_id.as_str(), user_id) && same(
                    job.conversation_id.as_str(),
                    conversation_id,
                ) && same(job.state.as_str(), "failed")
            },
        Ghost(in_state(user_id@, conversation_id@, "failed"@)),
    )
}

fn is_worked_on(
    jobs: &Vec<MemoryJobRow>,
    user_id: &str,
    conversation_id: &str,
    now: i64,
) -> (yes: bool)
    ensures
        yes == exists_in(model(jobs@), worked_on(user_id@, conversation_id@, now)),
{
    any_where(
        jobs,
        |job: &MemoryJobRow| -> (yes: bool)
            ensures yes == worked_on(user_id@, conversation_id@, now)(job@)
            {
                same(job.user_id.as_str(), user_id) && same(
                    job.conversation_id.as_str(),
                    conversation_id,
                ) && same(job.state.as_str(), "running") && match job.lease_expires_at {
                    Some(end) => end > now,
                    None => false,
                }
            },
        Ghost(worked_on(user_id@, conversation_id@, now)),
    )
}

fn is_claimable(
    jobs: &Vec<MemoryJobRow>,
    job: &MemoryJobRow,
    user_id: &str,
    now: i64,
) -> (yes: bool)
    ensures
        yes == claimable(model(jobs@), user_id@, now)(job@),
{
    let over = match job.lease_expires_at {
        Some(end) => end <= now,
        None => false,
    };
    let due = match job.next_attempt_at {
        Some(time) => time <= now,
        None => 0 <= now,
    };
    same(job.user_id.as_str(), user_id) && !has_failed(
        jobs,
        job.user_id.as_str(),
        job.conversation_id.as_str(),
    ) && ((same(job.state.as_str(), "running") && over) || ((same(job.state.as_str(), "pending")
        || same(job.state.as_str(), "retry_wait")) && due && !is_worked_on(
        jobs,
        job.user_id.as_str(),
        job.conversation_id.as_str(),
        now,
    )))
}

fn comes_first(a: &MemoryJobRow, b: &MemoryJobRow) -> (yes: bool)
    ensures
        yes == claimed_before()(a@, b@),
{
    let a_runs = same(a.state.as_str(), "running");
    let b_runs = same(b.state.as_str(), "running");
    let a_time: i64 = match a.next_attempt_at {
        Some(time) => time,
        None => a.created_at,
    };
    let b_time: i64 = match b.next_attempt_at {
        Some(time) => time,
        None => b.created_at,
    };
    if a_runs != b_runs {
        a_runs
    } else if a_time != b_time {
        a_time < b_time
    } else if a.created_at != b.created_at {
        a.created_at < b.created_at
    } else {
        before(a.id.as_str(), b.id.as_str())
    }
}

fn apply_handed(job: &MemoryJobRow, input: &ClaimMemoryJobRow, revision: i64, end: i64) -> (next:
    MemoryJobRow)
    ensures
        next@ == handed_to(*input, revision, end)(job@),
{
    MemoryJobRow {
        state: "running".to_owned(),
        expected_revision: revision,
        lease_owner: Some(input.worker_id.clone()),
        lease_token: Some(input.lease_token.clone()),
        lease_expires_at: Some(end),
        next_attempt_at: None,
        updated_at: input.now,
        ..job.duplicate()
    }
}

impl MemoryStore {
    /// Hands a user's next job to a worker, under a lease.
    pub fn claim_next_job(&mut self, input: &ClaimMemoryJobRow) -> (result: Result<
        Option<MemoryJobRow>,
        DbError,
    >)
        ensures
            queue_changed(claim_step(old(self)@, *input), result, old(self)@, final(self)@),
    {
        match ensure_user(&self.users, input.user_id.as_str()) {
            Ok(()) => {},
            Err(error) => {
                return Err(error);
            },
        }
        let jobs = &self.queue.jobs;
        let found = least_where(
            jobs,
            |job: &MemoryJobRow| -> (yes: bool)
                ensures yes == claimable(model(jobs@), input.user_id@, input.now)(job@)
                { is_claimable(jobs, job, input.user_id.as_str(), input.now) },
            |a: &MemoryJobRow, b: &MemoryJobRow| -> (yes: bool)
                ensures yes == claimed_before()(a@, b@)
                { comes_first(a, b) },
            Ghost(claimable(model(jobs@), input.user_id@, input.now)),
            Ghost(claimed_before()),
        );
        let job = match found {
            Some(at) => self.queue.jobs[at].duplicate(),
            None => {
                return Ok(None);
            },
        };
        let end: i64 = match input.now.checked_add(input.lease_duration_ms) {
            Some(end) => end,
            None => {
                return Err(conflict("Memory lease expiry overflow"));
            },
        };
        let revision: i64 = match find_memory(
            &self.memories,
            job.user_id.as_str(),
            job.conversation_id.as_str(),
        ) {
            Some(at) => self.memories[at].revision,
            None => 0,
        };
        let ghost hit = owned(job@.id, input.user_id@);
        let _handed: u64 = update_where(
            &mut self.queue.jobs,
            |row: &MemoryJobRow| -> (yes: bool)
                ensures yes == hit(row@)
                {
                    same(row.id.as_str(), job.id.as_str()) && same(
                        row.user_id.as_str(),
                        input.user_id.as_str(),
                    )
                },
            |row: &MemoryJobRow| -> (next: MemoryJobRow)
                ensures next@ == handed_to(*input, revision, end)(row@)
                { apply_handed(row, input, revision, end) },
            Ghost(hit),
            Ghost(handed_to(*input, revision, end)),
        );
        Ok(Some(apply_handed(&job, input, revision, end)))
    }
}

} // verus!

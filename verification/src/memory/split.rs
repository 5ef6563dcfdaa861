//! Splitting a claimed job: its first turns stay with the worker, the rest goes
//! back to the queue, before what is queued already.
use crate::error::{conflict, DbError};
use crate::memory::commands::SplitMemoryJobRow;
use crate::memory::digest::{
    append_queue_digest, appended_digest, bad_digest, bad_length, concat_queue_digest, input_hash,
    input_hash_of, joined_digest, parse_queue_digest, queue_digest, remove_prefix_digest,
    rest_digest,
};
use crate::memory::leases::{earlier_turn, find_leased, is_leased, leased};
use crate::memory::queue::{
    change_job, find_queued, has_job, length_overflow, queued_in, rebase, rebase_turns, with_id,
    Job, MemoryQueue, QueueModel, Turn,
};
use crate::memory::rows::{MemoryJobRow, StoredJobTurnRow};
use crate::table::{
    exists_in, lookup, model, ordered, select_where, selected, sort_rows, update_where, updated,
    Record,
};
use crate::text::{borrow_opt, hex_fixed, hex_parsed, same};
use vstd::prelude::*;

verus! {

/// A job's turns before a position.
pub open spec fn turns_until(job_id: Seq<char>, end: int) -> spec_fn(Turn) -> bool {
    |turn: Turn| turn.job_id == job_id && turn.position < end
}

/// A job's turns before a position, in order.
pub open spec fn prefix_turns(turns: Seq<Turn>, job_id: Seq<char>, end: int) -> Seq<Turn> {
    ordered(selected(turns, turns_until(job_id, end)), earlier_turn())
}

/// The ids and hashes of turns.
pub open spec fn turn_keys(turns: Seq<Turn>) -> Seq<(Seq<char>, Seq<char>)> {
    Seq::new(turns.len(), |i: int| (turns[i].turn_id, turns[i].turn_hash))
}

/// The digest of turns taken one by one.
pub open spec fn folded_digest(turns: Seq<Turn>) -> int
    decreases turns.len(),
{
    if turns.len() == 0 {
        0
    } else {
        appended_digest(
            folded_digest(turns.drop_last()),
            turns.last().turn_id,
            turns.last().turn_hash,
        )
    }
}

/// Computes the digest of turns.
pub fn fold_digest(turns: &Vec<StoredJobTurnRow>) -> (digest: u128)
    ensures
        digest == folded_digest(model(turns@)),
{
    let mut digest: u128 = 0;
    let mut i: usize = 0;
    while i < turns.len()
        invariant
            i <= turns.len(),
            digest == folded_digest(model(turns@).take(i as int)),
        decreases turns.len() - i,
    {
        proof {
            let next = model(turns@).take(i as int + 1);
            assert(next.drop_last() =~= model(turns@).take(i as int));
            assert(next.last() == turns[i as int]@);
        }
        digest = append_queue_digest(
            digest,
            turns[i].turn_id.as_str(),
            turns[i].turn_hash.as_str(),
        );
        i = i + 1;
    }
    assert(model(turns@).take(i as int) =~= model(turns@));
    digest
}

/// How a claimed job is split.
pub struct Split {
    /// The last turn that stays.
    pub through: Seq<char>,
    /// How many turns stay.
    pub kept: i64,
    /// The digest of those that stay.
    pub kept_digest: int,
    /// How many turns go back.
    pub rest: i64,
    /// The digest of those that go back.
    pub rest_digest: int,
}

/// The claimed job with its first turns.
pub open spec fn shortened(running: Job, split: Split, now: i64) -> spec_fn(Job) -> Job {
    |job: Job|
        MemoryJobRow {
            through_turn_id: split.through,
            turn_count: split.kept,
            queue_digest: hex_fixed(split.kept_digest as nat, 32),
            input_hash: input_hash_of(
                running.operation_version,
                running.global_epoch,
                running.conversation_epoch,
                running.from_turn_id,
                split.kept,
                split.kept_digest,
            ),
            updated_at: now,
            ..job
        }
}

/// The input hash of a job that starts behind the turns that stay.
pub open spec fn rest_hash(running: Job, split: Split, count: i64, digest: int) -> Seq<char> {
    input_hash_of(
        running.operation_version,
        running.global_epoch,
        running.conversation_epoch,
        Some(split.through),
        count,
        digest,
    )
}

/// A queued job that took the rest in before its own turns.
pub open spec fn preceded_by_rest(
    running: Job,
    split: Split,
    count: i64,
    digest: int,
    now: i64,
) -> spec_fn(Job) -> Job {
    |job: Job|
        MemoryJobRow {
            from_turn_id: Some(split.through),
            global_epoch: running.global_epoch,
            conversation_epoch: running.conversation_epoch,
            turn_count: count,
            queue_digest: hex_fixed(digest as nat, 32),
            input_hash: rest_hash(running, split, count, digest),
            expected_revision: running.expected_revision,
            state: "pending"@,
            next_attempt_at: None,
            updated_at: now,
            ..job
        }
}

/// A new queued job for the rest.
pub open spec fn rest_job(running: Job, split: Split, input: SplitMemoryJobRow) -> Job {
    MemoryJobRow {
        id: input.pending_job_id@,
        user_id: input.user_id@,
        conversation_id: running.conversation_id,
        from_turn_id: Some(split.through),
        through_turn_id: running.through_turn_id,
        operation_version: running.operation_version,
        global_epoch: running.global_epoch,
        conversation_epoch: running.conversation_epoch,
        turn_count: split.rest,
        queue_digest: hex_fixed(split.rest_digest as nat, 32),
        input_hash: rest_hash(running, split, split.rest, split.rest_digest),
        expected_revision: running.expected_revision,
        state: "pending"@,
        attempt_count: 0,
        invalid_output_count: 0,
        next_attempt_at: None,
        last_error_code: None,
        lease_owner: None,
        lease_token: None,
        lease_expires_at: None,
        reconciliation_snapshot_json: None,
        created_at: input.now,
        updated_at: input.now,
    }
}

/// The error for a job id that is taken.
pub open spec fn job_id_taken() -> DbError<Seq<char>> {
    DbError::Query("UNIQUE constraint failed: memory_jobs.id"@)
}

/// How a claimed job is split behind its first turns, or why it cannot be.
pub open spec fn split_at(turns: Seq<Turn>, running: Job, prefix_count: i64) -> Result<
    Split,
    DbError<Seq<char>>,
> {
    let prefix = prefix_turns(turns, running.id, prefix_count as int);
    if prefix_count <= 0 || prefix_count >= running.turn_count {
        Err(DbError::Conflict("Invalid Memory batch split"@))
    } else if prefix.len() == 0 {
        Err(DbError::Conflict("Empty Memory prefix"@))
    } else {
        match hex_parsed(running.queue_digest) {
            None => Err(bad_digest()),
            Some(whole) => {
                let rest = (running.turn_count - prefix_count) as i64;
                Ok(
                    Split {
                        through: prefix.last().turn_id,
                        kept: prefix_count,
                        kept_digest: folded_digest(prefix),
                        rest,
                        rest_digest: rest_digest(whole, folded_digest(prefix), rest as nat),
                    },
                )
            },
        }
    }
}

/// The turns after the rest went before those of a queued job, whose turns are
/// first parked behind every position in use.
pub open spec fn turns_before_queued(
    turns: Seq<Turn>,
    running_id: Seq<char>,
    queued_id: Seq<char>,
    split: Split,
    parking: int,
) -> Option<Seq<Turn>> {
    match rebase(turns, queued_id, i64::MIN as int, queued_id, 0, parking) {
        None => None,
        Some(parked) => match rebase(
            parked,
            running_id,
            split.kept as int,
            queued_id,
            split.kept as int,
            0,
        ) {
            None => None,
            Some(given) => rebase(given, queued_id, parking, queued_id, parking, split.rest as int),
        },
    }
}

/// The queue after a claimed job is split.
pub open spec fn split_queue(
    queue: QueueModel,
    running: Job,
    split: Split,
    input: SplitMemoryJobRow,
) -> Result<QueueModel, DbError<Seq<char>>> {
    let jobs = updated(
        queue.jobs,
        leased(input.job_id@, input.user_id@, input.lease_token@, input.now),
        shortened(running, split, input.now),
    );
    match lookup(jobs, queued_in(input.user_id@, running.conversation_id)) {
        Some(queued) => if !(i64::MIN <= split.rest + queued.turn_count <= i64::MAX) {
            Err(length_overflow())
        } else {
            let count = (split.rest + queued.turn_count) as i64;
            match turns_before_queued(queue.turns, running.id, queued.id, split, count as int) {
                None => Err(length_overflow()),
                Some(turns) => match hex_parsed(queued.queue_digest) {
                    None => Err(bad_digest()),
                    Some(digest) => if queued.turn_count < 0 {
                        Err(bad_length())
                    } else {
                        let both = joined_digest(
                            split.rest_digest,
                            digest,
                            queued.turn_count as nat,
                        );
                        Ok(
                            QueueModel {
                                jobs: updated(
                                    jobs,
                                    with_id(queued.id),
                                    preceded_by_rest(running, split, count, both, input.now),
                                ),
                                turns,
                            },
                        )
                    },
                },
            }
        },
        None => if exists_in(jobs, with_id(input.pending_job_id@)) {
            Err(job_id_taken())
        } else {
            match rebase(
                queue.turns,
                running.id,
                split.kept as int,
                input.pending_job_id@,
                split.kept as int,
                0,
            ) {
                None => Err(length_overflow()),
                Some(turns) => Ok(
                    QueueModel { jobs: jobs.push(rest_job(running, split, input)), turns },
                ),
            }
        },
    }
}

/// What splitting a claimed job comes to; nothing where the lease does not hold.
pub open spec fn split_step(queue: QueueModel, input: SplitMemoryJobRow) -> Option<
    Result<QueueModel, DbError<Seq<char>>>,
> {
    match lookup(
        queue.jobs,
        leased(input.job_id@, input.user_id@, input.lease_token@, input.now),
    ) {
        None => None,
        Some(running) => match split_at(queue.turns, running, input.prefix_count) {
            Err(error) => Some(Err(error)),
            Ok(split) => Some(split_queue(queue, running, split, input)),
        },
    }
}

fn collect_prefix(turns: &Vec<StoredJobTurnRow>, job_id: &str, end: i64) -> (list: Vec<
    StoredJobTurnRow,
>)
    ensures
        model(list@) == prefix_turns(model(turns@), job_id@, end as int),
{
    let hits = select_where(
        turns,
        |turn: &StoredJobTurnRow| -> (yes: bool)
            ensures yes == turns_until(job_id@, end as int)(turn@)
            { same(turn.job_id.as_str(), job_id) && turn.position < end },
        Ghost(turns_until(job_id@, end as int)),
    );
    sort_rows(
        hits,
        |a: &StoredJobTurnRow, b: &StoredJobTurnRow| -> (yes: bool)
            ensures yes == earlier_turn()(a@, b@)
            { a.position < b.position },
        Ghost(earlier_turn()),
    )
}

fn apply_shortened(
    job: &MemoryJobRow,
    running: &MemoryJobRow,
    through: &str,
    kept: i64,
    kept_digest: u128,
    now: i64,
    Ghost(split): Ghost<Split>,
) -> (next: MemoryJobRow)
    requires
        split.through == through@,
        split.kept == kept,
        split.kept_digest == kept_digest,
    ensures
        next@ == shortened(running@, split, now)(job@),
{
    MemoryJobRow {
        through_turn_id: through.to_owned(),
        turn_count: kept,
        queue_digest: queue_digest(kept_digest),
        input_hash: input_hash(
            running.operation_version.as_str(),
            running.global_epoch,
            running.conversation_epoch,
            borrow_opt(&running.from_turn_id),
            kept,
            kept_digest,
        ),
        updated_at: now,
        ..job.duplicate()
    }
}

fn apply_preceded(
    job: &MemoryJobRow,
    running: &MemoryJobRow,
    through: &str,
    count: i64,
    digest: u128,
    now: i64,
    Ghost(split): Ghost<Split>,
) -> (next: MemoryJobRow)
    requires
        split.through == through@,
    ensures
        next@ == preceded_by_rest(running@, split, count, digest as int, now)(job@),
{
    MemoryJobRow {
        from_turn_id: Some(through.to_owned()),
        global_epoch: running.global_epoch,
        conversation_epoch: running.conversation_epoch,
        turn_count: count,
        queue_digest: queue_digest(digest),
        input_hash: input_hash(
            running.operation_version.as_str(),
            running.global_epoch,
            running.conversation_epoch,
            Some(through),
            count,
            digest,
        ),
        expected_revision: running.expected_revision,
        state: "pending".to_owned(),
        next_attempt_at: None,
        updated_at: now,
        ..job.duplicate()
    }
}

impl MemoryQueue {
    /// Keeps the first turns of a claimed job with its worker and puts the rest
    /// back into the queue, before what is queued already. `false` where the
    /// lease does not hold.
    pub fn split_claimed_job(
        &mut self,
        input: &SplitMemoryJobRow,
    ) -> (result: Result<bool, DbError>)
        ensures
            match split_step(old(self)@, *input) {
                None => result == Ok::<bool, DbError>(false) && final(self)@ == old(self)@,
                Some(Ok(queue)) => result == Ok::<bool, DbError>(true) && final(self)@ == queue,
                Some(Err(wanted)) => {
                    &&& result matches Err(error) && error@ == wanted
                    &&& final(self)@ == old(self)@
                },
            },
    {
        let found = find_leased(
            &self.jobs,
            input.job_id.as_str(),
            input.user_id.as_str(),
            input.lease_token.as_str(),
            input.now,
        );
        let running = match found {
            Some(at) => self.jobs[at].duplicate(),
            None => {
                return Ok(false);
            },
        };
        if input.prefix_count <= 0 || input.prefix_count >= running.turn_count {
            return Err(conflict("Invalid Memory batch split"));
        }
        let prefix = collect_prefix(&self.turns, running.id.as_str(), input.prefix_count);
        if prefix.len() == 0 {
            return Err(conflict("Empty Memory prefix"));
        }
        let kept: i64 = input.prefix_count;
        let kept_digest: u128 = fold_digest(&prefix);
        let through = prefix[prefix.len() - 1].turn_id.clone();
        let rest: i64 = running.turn_count - kept;
        let whole: u128 = match parse_queue_digest(running.queue_digest.as_str()) {
            Ok(number) => number,
            Err(error) => {
                return Err(error);
            },
        };
        let rest_number: u128 = match remove_prefix_digest(whole, kept_digest, rest) {
            Ok(number) => number,
            Err(error) => {
                return Err(error);
            },
        };
        let ghost split = Split {
            through: through@,
            kept,
            kept_digest: kept_digest as int,
            rest,
            rest_digest: rest_number as int,
        };
        proof {
            let model_prefix = prefix_turns(self@.turns, running@.id, kept as int);
            assert(model_prefix.last() == prefix[prefix.len() - 1]@);
            assert(split_at(self@.turns, running@, kept) == Ok::<Split, DbError<Seq<char>>>(split));
        }
        let mut queue = self.duplicate();
        let ghost hit = leased(input.job_id@, input.user_id@, input.lease_token@, input.now);
        let _shortened: u64 = update_where(
            &mut queue.jobs,
            |job: &MemoryJobRow| -> (yes: bool)
                ensures yes == hit(job@)
                {
                    is_leased(
                        job,
                        input.job_id.as_str(),
                        input.user_id.as_str(),
                        input.lease_token.as_str(),
                        input.now,
                    )
                },
            |job: &MemoryJobRow| -> (next: MemoryJobRow)
                requires
                    split.through == through@,
                    split.kept == kept,
                    split.kept_digest == kept_digest
                ensures next@ == shortened(running@, split, input.now)(job@)
                {
                    apply_shortened(
                        job,
                        &running,
                        through.as_str(),
                        kept,
                        kept_digest,
                        input.now,
                        Ghost(split),
                    )
                },
            Ghost(hit),
            Ghost(shortened(running@, split, input.now)),
        );
        let queued = find_queued(
            &queue.jobs,
            input.user_id.as_str(),
            running.conversation_id.as_str(),
        );
        match queued {
            Some(at) => {
                let existing = queue.jobs[at].duplicate();
                let count: i64 = match rest.checked_add(existing.turn_count) {
                    Some(sum) => sum,
                    None => {
                        return Err(conflict("Memory queue length overflow"));
                    },
                };
                let parked = match rebase_turns(
                    &queue.turns,
                    existing.id.as_str(),
                    i64::MIN,
                    existing.id.as_str(),
                    0,
                    count,
                ) {
                    Some(turns) => turns,
                    None => {
                        return Err(conflict("Memory queue length overflow"));
                    },
                };
                let given = match rebase_turns(
                    &parked,
                    running.id.as_str(),
                    kept,
                    existing.id.as_str(),
                    kept,
                    0,
                ) {
                    Some(turns) => turns,
                    None => {
                        return Err(conflict("Memory queue length overflow"));
                    },
                };
                let turns = match rebase_turns(
                    &given,
                    existing.id.as_str(),
                    count,
                    existing.id.as_str(),
                    count,
                    rest,
                ) {
                    Some(turns) => turns,
                    None => {
                        return Err(conflict("Memory queue length overflow"));
                    },
                };
                let number: u128 = match parse_queue_digest(existing.queue_digest.as_str()) {
                    Ok(number) => number,
                    Err(error) => {
                        return Err(error);
                    },
                };
                let both: u128 = match concat_queue_digest(
                    rest_number,
                    number,
                    existing.turn_count,
                ) {
                    Ok(number) => number,
                    Err(error) => {
                        return Err(error);
                    },
                };
                queue.turns = turns;
                change_job(
                    &mut queue.jobs,
                    existing.id.as_str(),
                    |job: &MemoryJobRow| -> (next: MemoryJobRow)
                        requires split.through == through@
                        ensures next@ == preceded_by_rest(
                            running@,
                            split,
                            count,
                            both as int,
                            input.now,
                        )(job@)
                        {
                            apply_preceded(
                                job,
                                &running,
                                through.as_str(),
                                count,
                                both,
                                input.now,
                                Ghost(split),
                            )
                        },
                    Ghost(preceded_by_rest(running@, split, count, both as int, input.now)),
                );
            },
            None => {
                if has_job(&queue.jobs, input.pending_job_id.as_str()) {
                    return Err(
                        DbError::Query("UNIQUE constraint failed: memory_jobs.id".to_owned()),
                    );
                }
                let turns = match rebase_turns(
                    &queue.turns,
                    running.id.as_str(),
                    kept,
                    input.pending_job_id.as_str(),
                    kept,
                    0,
                ) {
                    Some(turns) => turns,
                    None => {
                        return Err(conflict("Memory queue length overflow"));
                    },
                };
                let job = MemoryJobRow {
                    id: input.pending_job_id.clone(),
                    user_id: input.user_id.clone(),
                    conversation_id: running.conversation_id.clone(),
                    from_turn_id: Some(through.clone()),
                    through_turn_id: running.through_turn_id.clone(),
                    operation_version: running.operation_version.clone(),
                    global_epoch: running.global_epoch,
                    conversation_epoch: running.conversation_epoch,
                    turn_count: rest,
                    queue_digest: queue_digest(rest_number),
                    input_hash: input_hash(
                        running.operation_version.as_str(),
                        running.global_epoch,
                        running.conversation_epoch,
                        Some(through.as_str()),
                        rest,
                        rest_number,
                    ),
                    expected_revision: running.expected_revision,
                    state: "pending".to_owned(),
                    attempt_count: 0,
                    invalid_output_count: 0,
                    next_attempt_at: None,
                    last_error_code: None,
                    lease_owner: None,
                    lease_token: None,
                    lease_expires_at: None,
                    reconciliation_snapshot_json: None,
                    created_at: input.now,
                    updated_at: input.now,
                };
                assert(job@ == rest_job(running@, split, *input));
                let ghost jobs = queue.jobs@;
                queue.turns = turns;
                queue.jobs.push(job);
                assert(model(queue.jobs@) =~= model(jobs).push(job@));
            },
        }
        *self = queue;
        Ok(true)
    }
}

} // verus!

//! What workers and users do with jobs: leases, verdicts, retries, and blocking
//! and canceling in bulk.
use crate::error::{conflict, missing, not_found, DbError};
use crate::memory::commands::{ReleaseMemoryLeaseRow, RenewMemoryLeaseRow, TransitionMemoryJobRow};
use crate::memory::queue::{
    absorb, change_job, counters_fit, find_owned, is_open, older_job, owned, requeue,
    requeue_transition, settle, state_is_open, with_id, Job, MemoryQueue, QueueModel, QueueStep,
    QueueTransition, Turn,
};
use crate::memory::rows::{MemoryJobRow, MemoryJobTurnRow, StoredJobTurnRow};
use crate::table::{
    any_where, exists_in, find_where, lookup, model, ordered, page, select_where, selected,
    sort_rows, take_page, update_where, updated, Record,
};
use crate::text::{before, copy_opt, is_some_text, opt_str, opt_text, same};
use vstd::prelude::*;

verus! {

/// Whether a lease runs on after `now`.
pub open spec fn lease_runs(job: Job, now: i64) -> bool {
    match job.lease_expires_at {
        Some(end) => end > now,
        None => false,
    }
}

/// Whether a lease has run out by `now`.
pub open spec fn lease_over(job: Job, now: i64) -> bool {
    match job.lease_expires_at {
        Some(end) => end <= now,
        None => false,
    }
}

/// A user's running job under a lease with this token that runs on.
pub open spec fn leased(
    id: Seq<char>,
    user_id: Seq<char>,
    token: Seq<char>,
    now: i64,
) -> spec_fn(Job) -> bool {
    |job: Job|
        job.id == id && job.user_id == user_id && job.state == "running"@ && job.lease_token
            == Some(token) && lease_runs(job, now)
}

/// A user's running job that this worker holds under such a lease.
pub open spec fn held(
    id: Seq<char>,
    user_id: Seq<char>,
    worker_id: Seq<char>,
    token: Seq<char>,
    now: i64,
) -> spec_fn(Job) -> bool {
    |job: Job|
        job.id == id && job.user_id == user_id && job.state == "running"@ && job.lease_owner
            == Some(worker_id) && job.lease_token == Some(token) && lease_runs(job, now)
}

/// Decides whether a job is under such a lease.
pub fn is_leased(job: &MemoryJobRow, id: &str, user_id: &str, token: &str, now: i64) -> (yes: bool)
    ensures
        yes == leased(id@, user_id@, token@, now)(job@),
{
    same(job.id.as_str(), id) && same(job.user_id.as_str(), user_id) && same(
        job.state.as_str(),
        "running",
    ) && is_some_text(&job.lease_token, token) && match job.lease_expires_at {
        Some(end) => end > now,
        None => false,
    }
}

fn is_held(
    job: &MemoryJobRow,
    id: &str,
    user_id: &str,
    worker_id: &str,
    token: &str,
    now: i64,
) -> (yes: bool)
    ensures
        yes == held(id@, user_id@, worker_id@, token@, now)(job@),
{
    is_leased(job, id, user_id, token, now) && is_some_text(&job.lease_owner, worker_id)
}

/// Finds a user's job under a lease with this token that runs on.
pub fn find_leased(
    jobs: &Vec<MemoryJobRow>,
    id: &str,
    user_id: &str,
    token: &str,
    now: i64,
) -> (found: Option<usize>)
    ensures
        match found {
            Some(at) => at < jobs.len() && leased(id@, user_id@, token@, now)(jobs[at as int]@)
                && lookup(model(jobs@), leased(id@, user_id@, token@, now)) == Some(
                jobs[at as int]@,
            ),
            None => lookup(model(jobs@), leased(id@, user_id@, token@, now)) is None,
        },
{
    find_where(
        jobs,
        |job: &MemoryJobRow| -> (yes: bool)
            ensures yes == leased(id@, user_id@, token@, now)(job@)
            { is_leased(job, id, user_id, token, now) },
        Ghost(leased(id@, user_id@, token@, now)),
    )
}

fn find_held(
    jobs: &Vec<MemoryJobRow>,
    id: &str,
    user_id: &str,
    worker_id: &str,
    token: &str,
    now: i64,
) -> (found: Option<usize>)
    ensures
        match found {
            Some(at) => at < jobs.len() && held(id@, user_id@, worker_id@, token@, now)(
                jobs[at as int]@,
            ) && lookup(model(jobs@), held(id@, user_id@, worker_id@, token@, now)) == Some(
                jobs[at as int]@,
            ),
            None => lookup(model(jobs@), held(id@, user_id@, worker_id@, token@, now)) is None,
        },
{
    find_where(
        jobs,
        |job: &MemoryJobRow| -> (yes: bool)
            ensures yes == held(id@, user_id@, worker_id@, token@, now)(job@)
            { is_held(job, id, user_id, worker_id, token, now) },
        Ghost(held(id@, user_id@, worker_id@, token@, now)),
    )
}

/// A job whose lease ends later.
pub open spec fn renewed(end: i64, now: i64) -> spec_fn(Job) -> Job {
    |job: Job| MemoryJobRow { lease_expires_at: Some(end), updated_at: now, ..job }
}

/// The error for a lease end that is no time.
pub open spec fn lease_overflow() -> DbError<Seq<char>> {
    DbError::Conflict("Memory lease expiry overflow"@)
}

/// A canceled job.
pub open spec fn canceled(now: i64) -> spec_fn(Job) -> Job {
    |job: Job|
        MemoryJobRow {
            state: "canceled"@,
            lease_owner: None,
            lease_token: None,
            lease_expires_at: None,
            reconciliation_snapshot_json: None,
            next_attempt_at: None,
            last_error_code: Some("canceled"@),
            updated_at: now,
            ..job
        }
}

/// A user's open jobs, of one conversation or of all.
pub open spec fn open_jobs(user_id: Seq<char>, conversation_id: Option<Seq<char>>) -> spec_fn(
    Job,
) -> bool {
    |job: Job|
        job.user_id == user_id && is_open(job.state) && (match conversation_id {
            Some(id) => job.conversation_id == id,
            None => true,
        })
}

/// A blocked job.
pub open spec fn blocked(now: i64) -> spec_fn(Job) -> Job {
    |job: Job| MemoryJobRow { state: "blocked"@, next_attempt_at: None, updated_at: now, ..job }
}

/// A user's jobs that wait to be claimed.
pub open spec fn waiting(user_id: Seq<char>) -> spec_fn(Job) -> bool {
    |job: Job| job.user_id == user_id && (job.state == "pending"@ || job.state == "retry_wait"@)
}

/// A job that is unblocked.
pub open spec fn unblocked(now: i64) -> spec_fn(Job) -> Job {
    |job: Job|
        MemoryJobRow {
            state: "pending"@,
            next_attempt_at: None,
            last_error_code: None,
            updated_at: now,
            ..job
        }
}

/// A user's blocked jobs.
pub open spec fn blocked_of(user_id: Seq<char>) -> spec_fn(Job) -> bool {
    |job: Job| job.user_id == user_id && job.state == "blocked"@
}

/// The running jobs whose lease has run out.
pub open spec fn expired(now: i64) -> spec_fn(Job) -> bool {
    |job: Job| job.state == "running"@ && lease_over(job, now)
}

/// The queue after each of `list` went back to the queue, in order.
pub open spec fn recover(queue: QueueModel, list: Seq<Job>, now: i64) -> Result<
    QueueModel,
    DbError<Seq<char>>,
>
    decreases list.len(),
{
    if list.len() == 0 {
        Ok(queue)
    } else {
        match recover(queue, list.drop_last(), now) {
            Err(error) => Err(error),
            Ok(next) => match settle(next, list.last(), requeue(list.last().last_error_code, now)) {
                Err(error) => Err(error),
                Ok(step) => Ok(step.queue),
            },
        }
    }
}

/// A user's failed job.
pub open spec fn failed_job(id: Seq<char>, user_id: Seq<char>) -> spec_fn(Job) -> bool {
    |job: Job| job.id == id && job.user_id == user_id && job.state == "failed"@
}

/// A job that is to be tried again.
pub open spec fn retried(now: i64) -> spec_fn(Job) -> Job {
    |job: Job|
        MemoryJobRow {
            state: "pending"@,
            next_attempt_at: None,
            last_error_code: None,
            lease_owner: None,
            lease_token: None,
            lease_expires_at: None,
            reconciliation_snapshot_json: None,
            updated_at: now,
            ..job
        }
}

/// The queue after a failed job is tried again, with every later job of its
/// conversation taken in.
pub open spec fn retry(queue: QueueModel, failed: Job, now: i64) -> Result<
    QueueStep,
    DbError<Seq<char>>,
> {
    match absorb(queue, failed, now) {
        Err(error) => Err(error),
        Ok(step) => Ok(
            QueueStep {
                queue: QueueModel {
                    jobs: updated(step.queue.jobs, with_id(step.job.id), retried(now)),
                    turns: step.queue.turns,
                },
                job: retried(now)(step.job),
            },
        ),
    }
}

/// The model of an optional job.
pub open spec fn opt_job(job: Option<MemoryJobRow>) -> Option<Job> {
    match job {
        Some(row) => Some(row@),
        None => None,
    }
}

/// Whether a step on a job that may be missing was taken as `expected` says.
pub open spec fn optional_step_taken(
    expected: Option<Result<QueueStep, DbError<Seq<char>>>>,
    result: Result<Option<MemoryJobRow>, DbError>,
    before: QueueModel,
    after: QueueModel,
) -> bool {
    match (expected, result) {
        (None, Ok(None)) => after == before,
        (Some(Ok(step)), Ok(Some(job))) => job@ == step.job && after == step.queue,
        (Some(Err(wanted)), Err(error)) => error@ == wanted && after == before,
        _ => false,
    }
}

/// A verdict on a running job.
pub open spec fn verdict(input: TransitionMemoryJobRow) -> QueueTransition<Seq<char>> {
    QueueTransition {
        state: input.state@,
        next_attempt_at: input.next_attempt_at,
        error_code: opt_text(input.error_code),
        increment_attempt: input.increment_attempt,
        increment_invalid_output: input.increment_invalid_output,
        now: input.now,
    }
}

/// The turns of a job.
pub open spec fn turns_of(job_id: Seq<char>) -> spec_fn(Turn) -> bool {
    |turn: Turn| turn.job_id == job_id
}

/// Turns in the order of their positions.
pub open spec fn earlier_turn() -> spec_fn(Turn, Turn) -> bool {
    |a: Turn, b: Turn| a.position < b.position
}

/// A job's turns in order.
pub open spec fn turns_in_order(turns: Seq<Turn>, job_id: Seq<char>) -> Seq<Turn> {
    ordered(selected(turns, turns_of(job_id)), earlier_turn())
}

/// Collects a job's turns in order.
pub fn collect_turns(turns: &Vec<StoredJobTurnRow>, job_id: &str) -> (list: Vec<StoredJobTurnRow>)
    ensures
        model(list@) == turns_in_order(model(turns@), job_id@),
{
    let hits = select_where(
        turns,
        |turn: &StoredJobTurnRow| -> (yes: bool)
            ensures yes == turns_of(job_id@)(turn@)
            { same(turn.job_id.as_str(), job_id) },
        Ghost(turns_of(job_id@)),
    );
    sort_rows(
        hits,
        |a: &StoredJobTurnRow, b: &StoredJobTurnRow| -> (yes: bool)
            ensures yes == earlier_turn()(a@, b@)
            { a.position < b.position },
        Ghost(earlier_turn()),
    )
}

/// A turn of a job as callers see it.
pub open spec fn plain_turn(turn: Turn) -> MemoryJobTurnRow<Seq<char>> {
    MemoryJobTurnRow {
        job_id: turn.job_id,
        position: turn.position,
        turn_id: turn.turn_id,
        turn_hash: turn.turn_hash,
    }
}

/// Turns of a job as callers see them.
pub open spec fn plain_turns(turns: Seq<Turn>) -> Seq<MemoryJobTurnRow<Seq<char>>> {
    Seq::new(turns.len(), |i: int| plain_turn(turns[i]))
}

/// A job, where it is the user's; an error where it is another's.
pub open spec fn job_for(jobs: Seq<Job>, user_id: Seq<char>, id: Seq<char>) -> Result<
    Option<Job>,
    DbError<Seq<char>>,
> {
    match lookup(jobs, with_id(id)) {
        None => Ok(None),
        Some(job) => if job.user_id != user_id {
            Err(missing("Memory job '"@, id, "' not found"@))
        } else {
            Ok(lookup(jobs, owned(id, user_id)))
        },
    }
}

impl MemoryQueue {
    /// Whether a user's job is under a lease with this token that runs on.
    pub fn validate_lease(
        &self,
        user_id: &str,
        job_id: &str,
        lease_token: &str,
        now: i64,
    ) -> (valid:
        bool)
        ensures
            valid == exists_in(self@.jobs, leased(job_id@, user_id@, lease_token@, now)),
    {
        any_where(
            &self.jobs,
            |job: &MemoryJobRow| -> (yes: bool)
                ensures yes == leased(job_id@, user_id@, lease_token@, now)(job@)
                { is_leased(job, job_id, user_id, lease_token, now) },
            Ghost(leased(job_id@, user_id@, lease_token@, now)),
        )
    }

    /// Gives a worker more time for the job that it holds.
    pub fn renew_lease(&mut self, input: &RenewMemoryLeaseRow) -> (result: Result<bool, DbError>)
        ensures
            ({
                let end = input.now + input.lease_duration_ms;
                let hit = held(
                    input.job_id@,
                    input.user_id@,
                    input.worker_id@,
                    input.lease_token@,
                    input.now,
                );
                match result {
                    Ok(done) => {
                        &&& i64::MIN <= end <= i64::MAX
                        &&& done == (selected(old(self)@.jobs, hit).len() == 1)
                        &&& final(self)@ == (QueueModel {
                            jobs: updated(
                                old(self)@.jobs,
                                hit,
                                renewed(end as i64, input.now),
                            ),
                            turns: old(self)@.turns,
                        })
                    },
                    Err(error) => {
                        &&& !(i64::MIN <= end <= i64::MAX)
                        &&& error@ == lease_overflow()
                        &&& final(self)@ == old(self)@
                    },
                }
            }),
    {
        match input.now.checked_add(input.lease_duration_ms) {
            None => Err(conflict("Memory lease expiry overflow")),
            Some(end) => {
                let ghost hit = held(
                    input.job_id@,
                    input.user_id@,
                    input.worker_id@,
                    input.lease_token@,
                    input.now,
                );
                let count: u64 = update_where(
                    &mut self.jobs,
                    |job: &MemoryJobRow| -> (yes: bool)
                        ensures yes == hit(job@)
                        {
                            is_held(
                                job,
                                input.job_id.as_str(),
                                input.user_id.as_str(),
                                input.worker_id.as_str(),
                                input.lease_token.as_str(),
                                input.now,
                            )
                        },
                    |job: &MemoryJobRow| -> (next: MemoryJobRow)
                        ensures next@ == renewed(end, input.now)(job@)
                        {
                            MemoryJobRow {
                                lease_expires_at: Some(end),
                                updated_at: input.now,
                                ..job.duplicate()
                            }
                        },
                    Ghost(hit),
                    Ghost(renewed(end, input.now)),
                );
                Ok(count == 1)
            },
        }
    }

    /// Puts a job that a worker holds back into the queue.
    pub fn release_lease(
        &mut self,
        input: &ReleaseMemoryLeaseRow,
    ) -> (result: Result<bool, DbError>)
        ensures
            match lookup(
                old(self)@.jobs,
                held(
                    input.job_id@,
                    input.user_id@,
                    input.worker_id@,
                    input.lease_token@,
                    input.now,
                ),
            ) {
                None => result == Ok::<bool, DbError>(false) && final(self)@ == old(self)@,
                Some(running) => match settle(old(self)@, running, requeue(None, input.now)) {
                    Ok(step) => result == Ok::<bool, DbError>(true) && final(self)@ == step.queue,
                    Err(wanted) => (result matches Err(error) && error@ == wanted) && final(self)@
                        == old(self)@,
                },
            },
    {
        let found = find_held(
            &self.jobs,
            input.job_id.as_str(),
            input.user_id.as_str(),
            input.worker_id.as_str(),
            input.lease_token.as_str(),
            input.now,
        );
        match found {
            None => Ok(false),
            Some(at) => {
                let running = self.jobs[at].duplicate();
                match self.transition_running(&running, &requeue_transition(None, input.now)) {
                    Ok(_) => Ok(true),
                    Err(error) => Err(error),
                }
            },
        }
    }

    /// Settles a job that a worker holds as the worker says.
    pub fn transition_running_job(&mut self, input: &TransitionMemoryJobRow) -> (result: Result<
        Option<MemoryJobRow>,
        DbError,
    >)
        requires
            lookup(
                old(self)@.jobs,
                held(
                    input.job_id@,
                    input.user_id@,
                    input.worker_id@,
                    input.lease_token@,
                    input.now,
                ),
            ) matches Some(running) ==> counters_fit(running, verdict(*input)),
        ensures
            optional_step_taken(
                match lookup(
                    old(self)@.jobs,
                    held(
                        input.job_id@,
                        input.user_id@,
                        input.worker_id@,
                        input.lease_token@,
                        input.now,
                    ),
                ) {
                    None => None,
                    Some(running) => Some(settle(old(self)@, running, verdict(*input))),
                },
                result,
                old(self)@,
                final(self)@,
            ),
    {
        let found = find_held(
            &self.jobs,
            input.job_id.as_str(),
            input.user_id.as_str(),
            input.worker_id.as_str(),
            input.lease_token.as_str(),
            input.now,
        );
        match found {
            None => Ok(None),
            Some(at) => {
                let running = self.jobs[at].duplicate();
                let transition = QueueTransition {
                    state: input.state.clone(),
                    next_attempt_at: input.next_attempt_at,
                    error_code: copy_opt(&input.error_code),
                    increment_attempt: input.increment_attempt,
                    increment_invalid_output: input.increment_invalid_output,
                    now: input.now,
                };
                assert(transition@ == verdict(*input));
                match self.transition_running(&running, &transition) {
                    Ok(job) => Ok(Some(job)),
                    Err(error) => Err(error),
                }
            },
        }
    }

    /// Cancels a user's open jobs, of one conversation or of all.
    pub fn cancel_jobs(&mut self, user_id: &str, conversation_id: Option<&str>, now: i64) -> (count:
        u64)
        ensures
            final(self)@ == (QueueModel {
                jobs: updated(
                    old(self)@.jobs,
                    open_jobs(user_id@, opt_str(conversation_id)),
                    canceled(now),
                ),
                turns: old(self)@.turns,
            }),
            count == selected(
                old(self)@.jobs,
                open_jobs(user_id@, opt_str(conversation_id)),
            ).len(),
    {
        let ghost hit = open_jobs(user_id@, opt_str(conversation_id));
        update_where(
            &mut self.jobs,
            |job: &MemoryJobRow| -> (yes: bool)
                ensures yes == hit(job@)
                {
                    same(job.user_id.as_str(), user_id) && state_is_open(job.state.as_str())
                        && match conversation_id {
                        Some(id) => same(job.conversation_id.as_str(), id),
                        None => true,
                    }
                },
            |job: &MemoryJobRow| -> (next: MemoryJobRow)
                ensures next@ == canceled(now)(job@)
                { apply_canceled(job, now) },
            Ghost(hit),
            Ghost(canceled(now)),
        )
    }

    /// Blocks a user's jobs that wait to be claimed.
    pub fn block_jobs(&mut self, user_id: &str, now: i64) -> (count: u64)
        ensures
            final(self)@ == (QueueModel {
                jobs: updated(old(self)@.jobs, waiting(user_id@), blocked(now)),
                turns: old(self)@.turns,
            }),
            count == selected(old(self)@.jobs, waiting(user_id@)).len(),
    {
        update_where(
            &mut self.jobs,
            |job: &MemoryJobRow| -> (yes: bool)
                ensures yes == waiting(user_id@)(job@)
                {
                    same(job.user_id.as_str(), user_id) && (same(job.state.as_str(), "pending")
                        || same(job.state.as_str(), "retry_wait"))
                },
            |job: &MemoryJobRow| -> (next: MemoryJobRow)
                ensures next@ == blocked(now)(job@)
                {
                    MemoryJobRow {
                        state: "blocked".to_owned(),
                        next_attempt_at: None,
                        updated_at: now,
                        ..job.duplicate()
                    }
                },
            Ghost(waiting(user_id@)),
            Ghost(blocked(now)),
        )
    }

    /// Unblocks a user's blocked jobs.
    pub fn unblock_jobs(&mut self, user_id: &str, now: i64) -> (count: u64)
        ensures
            final(self)@ == (QueueModel {
                jobs: updated(old(self)@.jobs, blocked_of(user_id@), unblocked(now)),
                turns: old(self)@.turns,
            }),
            count == selected(old(self)@.jobs, blocked_of(user_id@)).len(),
    {
        update_where(
            &mut self.jobs,
            |job: &MemoryJobRow| -> (yes: bool)
                ensures yes == blocked_of(user_id@)(job@)
                { same(job.user_id.as_str(), user_id) && same(job.state.as_str(), "blocked") },
            |job: &MemoryJobRow| -> (next: MemoryJobRow)
                ensures next@ == unblocked(now)(job@)
                {
                    MemoryJobRow {
                        state: "pending".to_owned(),
                        next_attempt_at: None,
                        last_error_code: None,
                        updated_at: now,
                        ..job.duplicate()
                    }
                },
            Ghost(blocked_of(user_id@)),
            Ghost(unblocked(now)),
        )
    }

    /// Puts every running job whose lease has run out back into the queue.
    pub fn recover_expired_jobs(&mut self, now: i64) -> (result: Result<u64, DbError>)
        ensures
            ({
                let list = ordered(selected(old(self)@.jobs, expired(now)), older_job());
                match recover(old(self)@, list, now) {
                    Ok(queue) => result == Ok::<u64, DbError>(list.len() as u64) && final(self)@
                        == queue,
                    Err(wanted) => (result matches Err(error) && error@ == wanted) && final(self)@
                        == old(self)@,
                }
            }),
    {
        let hits = select_where(
            &self.jobs,
            |job: &MemoryJobRow| -> (yes: bool)
                ensures yes == expired(now)(job@)
                {
                    same(job.state.as_str(), "running") && match job.lease_expires_at {
                        Some(end) => end <= now,
                        None => false,
                    }
                },
            Ghost(expired(now)),
        );
        let list = sort_rows(
            hits,
            |a: &MemoryJobRow, b: &MemoryJobRow| -> (yes: bool)
                ensures yes == older_job()(a@, b@)
                {
                    a.created_at < b.created_at || (a.created_at == b.created_at && before(
                        a.id.as_str(),
                        b.id.as_str(),
                    ))
                },
            Ghost(older_job()),
        );
        let ghost all = model(list@);
        let mut queue = self.duplicate();
        let mut i: usize = 0;
        while i < list.len()
            invariant
                i <= list.len(),
                all == model(list@),
                self@ == old(self)@,
                all == ordered(selected(old(self)@.jobs, expired(now)), older_job()),
                recover(
                    old(self)@,
                    all.take(i as int),
                    now,
                ) == Ok::<QueueModel, DbError<Seq<char>>>(
                    queue@,
                ),
            decreases list.len() - i,
        {
            let ghost next = all.take(i as int + 1);
            proof {
                assert(next.drop_last() =~= all.take(i as int));
                assert(next.last() == list[i as int]@);
            }
            let transition = requeue_transition(copy_opt(&list[i].last_error_code), now);
            match queue.transition_running(&list[i], &transition) {
                Ok(_) => {},
                Err(error) => {
                    proof {
                        lemma_recover_fails(old(self)@, all, i as int + 1, now);
                    }
                    return Err(error);
                },
            }
            i = i + 1;
        }
        assert(all.take(i as int) =~= all);
        *self = queue;
        Ok(list.len() as u64)
    }

    /// Tries a user's failed job again, with every later job of its conversation
    /// taken in.
    pub fn retry_failed_job(&mut self, user_id: &str, job_id: &str, now: i64) -> (result: Result<
        Option<MemoryJobRow>,
        DbError,
    >)
        ensures
            optional_step_taken(
                match lookup(old(self)@.jobs, failed_job(job_id@, user_id@)) {
                    None => None,
                    Some(failed) => Some(retry(old(self)@, failed, now)),
                },
                result,
                old(self)@,
                final(self)@,
            ),
    {
        let found = find_where(
            &self.jobs,
            |job: &MemoryJobRow| -> (yes: bool)
                ensures yes == failed_job(job_id@, user_id@)(job@)
                {
                    same(job.id.as_str(), job_id) && same(job.user_id.as_str(), user_id) && same(
                        job.state.as_str(),
                        "failed",
                    )
                },
            Ghost(failed_job(job_id@, user_id@)),
        );
        match found {
            None => Ok(None),
            Some(at) => {
                let failed = self.jobs[at].duplicate();
                match self.absorb_queued_successors(&failed, now) {
                    Err(error) => Err(error),
                    Ok(barrier) => {
                        change_job(
                            &mut self.jobs,
                            barrier.id.as_str(),
                            |job: &MemoryJobRow| -> (next: MemoryJobRow)
                                ensures next@ == retried(now)(job@)
                                { apply_retried(job, now) },
                            Ghost(retried(now)),
                        );
                        Ok(Some(apply_retried(&barrier, now)))
                    },
                }
            },
        }
    }

    /// A user's job by its id; another user's job is an error.
    pub fn get_job(&self, user_id: &str, job_id: &str) -> (result: Result<
        Option<MemoryJobRow>,
        DbError,
    >)
        ensures
            match (result, job_for(self@.jobs, user_id@, job_id@)) {
                (Ok(job), Ok(wanted)) => opt_job(job) == wanted,
                (Err(error), Err(wanted)) => error@ == wanted,
                _ => false,
            },
    {
        let found = find_where(
            &self.jobs,
            |job: &MemoryJobRow| -> (yes: bool)
                ensures yes == with_id(job_id@)(job@)
                { same(job.id.as_str(), job_id) },
            Ghost(with_id(job_id@)),
        );
        match found {
            None => Ok(None),
            Some(at) => {
                if !same(self.jobs[at].user_id.as_str(), user_id) {
                    return Err(not_found("Memory job '", job_id, "' not found"));
                }
                match find_owned(&self.jobs, job_id, user_id) {
                    Some(at) => Ok(Some(self.jobs[at].duplicate())),
                    None => Ok(None),
                }
            },
        }
    }

    /// The first turns of a user's job, in order; at least one where there is one.
    pub fn list_job_turns(&self, user_id: &str, job_id: &str, limit: u32) -> (result: Result<
        Vec<MemoryJobTurnRow>,
        DbError,
    >)
        ensures
            match job_for(self@.jobs, user_id@, job_id@) {
                Ok(Some(_)) => result matches Ok(list) && model(list@) == plain_turns(
                    page(
                        turns_in_order(self@.turns, job_id@),
                        0,
                        if limit == 0 {
                            1
                        } else {
                            limit as nat
                        },
                    ),
                ),
                _ => result matches Err(error) && error@ == missing(
                    "Memory job '"@,
                    job_id@,
                    "' not found"@,
                ),
            },
    {
        match self.get_job(user_id, job_id) {
            Err(error) => Err(error),
            Ok(None) => Err(not_found("Memory job '", job_id, "' not found")),
            Ok(Some(_)) => {
                let all = collect_turns(&self.turns, job_id);
                let some = take_page(&all, 0, if limit == 0 { 1 } else { limit as usize });
                Ok(strip_turns(&some))
            },
        }
    }
}

fn strip_turns(turns: &Vec<StoredJobTurnRow>) -> (list: Vec<MemoryJobTurnRow>)
    ensures
        model(list@) == plain_turns(model(turns@)),
{
    let mut list: Vec<MemoryJobTurnRow> = Vec::new();
    let mut i: usize = 0;
    while i < turns.len()
        invariant
            i <= turns.len(),
            list.len() == i,
            forall|k: int| 0 <= k < i ==> (#[trigger] list[k])@ == plain_turn(turns[k]@),
        decreases turns.len() - i,
    {
        let turn = &turns[i];
        let plain = MemoryJobTurnRow {
            job_id: turn.job_id.clone(),
            position: turn.position,
            turn_id: turn.turn_id.clone(),
            turn_hash: turn.turn_hash.clone(),
        };
        assert(plain@ == plain_turn(turn@));
        list.push(plain);
        i = i + 1;
    }
    assert(model(list@) =~= plain_turns(model(turns@)));
    list
}

/// Cancels a job.
pub fn apply_canceled(job: &MemoryJobRow, now: i64) -> (next: MemoryJobRow)
    ensures
        next@ == canceled(now)(job@),
{
    MemoryJobRow {
        state: "canceled".to_owned(),
        lease_owner: None,
        lease_token: None,
        lease_expires_at: None,
        reconciliation_snapshot_json: None,
        next_attempt_at: None,
        last_error_code: Some("canceled".to_owned()),
        updated_at: now,
        ..job.duplicate()
    }
}

fn apply_retried(job: &MemoryJobRow, now: i64) -> (next: MemoryJobRow)
    ensures
        next@ == retried(now)(job@),
{
    MemoryJobRow {
        state: "pending".to_owned(),
        next_attempt_at: None,
        last_error_code: None,
        lease_owner: None,
        lease_token: None,
        lease_expires_at: None,
        reconciliation_snapshot_json: None,
        updated_at: now,
        ..job.duplicate()
    }
}

proof fn lemma_recover_fails(queue: QueueModel, list: Seq<Job>, size: int, now: i64)
    requires
        0 <= size <= list.len(),
        recover(queue, list.take(size), now) is Err,
    ensures
        recover(queue, list, now) == recover(queue, list.take(size), now),
    decreases list.len() - size,
{
    if size == list.len() {
        assert(list.take(size) =~= list);
    } else {
        let next = list.take(size + 1);
        assert(next.drop_last() =~= list.take(size));
        lemma_recover_fails(queue, list, size + 1, now);
    }
}

} // verus!

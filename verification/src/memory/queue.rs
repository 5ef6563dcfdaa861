//! The queue of memory updates: jobs, and the turns that each job covers in
//! order.
use crate::error::{conflict, DbError};
use crate::memory::digest::{
    bad_digest, bad_length, concat_queue_digest, input_hash, input_hash_of, joined_digest,
    parse_queue_digest, queue_digest,
};
use crate::memory::rows::{MemoryJobRow, StoredJobTurnRow};
use crate::table::{
    copy_rows, delete_where, exists_in, find_where, least, least_where, lemma_least_selected,
    lemma_removed_shrinks, lookup, model, removed, update_where, updated, Record,
};
use crate::text::{before, borrow_opt, copy_opt, hex_fixed, hex_parsed, opt_text, same, text_before};
use vstd::prelude::*;

verus! {

/// The model of a job.
pub type Job = MemoryJobRow<Seq<char>>;

/// The model of a turn of a job.
pub type Turn = StoredJobTurnRow<Seq<char>>;

/// The jobs and their turns.
#[derive(Debug, Clone, PartialEq, Eq)]
pub struct MemoryQueue {
    pub jobs: Vec<MemoryJobRow>,
    pub turns: Vec<StoredJobTurnRow>,
}

/// The model of the queue.
#[verifier::ext_equal]
pub struct QueueModel {
    pub jobs: Seq<Job>,
    pub turns: Seq<Turn>,
}

impl View for MemoryQueue {
    type V = QueueModel;

    open spec fn view(&self) -> QueueModel {
        QueueModel { jobs: model(self.jobs@), turns: model(self.turns@) }
    }
}

impl Record for MemoryQueue {
    fn duplicate(&self) -> (copy: Self) {
        MemoryQueue { jobs: copy_rows(&self.jobs), turns: copy_rows(&self.turns) }
    }
}

/// A queue after a step, and the job that the step was about.
#[verifier::ext_equal]
pub struct QueueStep {
    pub queue: QueueModel,
    pub job: Job,
}

/// Whether a step was taken as `expected` says: on success the queue is the new
/// one, on failure it is as before.
pub open spec fn step_taken(
    expected: Result<QueueStep, DbError<Seq<char>>>,
    result: Result<MemoryJobRow, DbError>,
    before: QueueModel,
    after: QueueModel,
) -> bool {
    match (expected, result) {
        (Ok(step), Ok(job)) => job@ == step.job && after == step.queue,
        (Err(wanted), Err(error)) => error@ == wanted && after == before,
        _ => false,
    }
}

// ----------------------------------------------------------------------------
// Selecting jobs and turns
// ----------------------------------------------------------------------------

/// Whether a job in this state waits to be claimed or unblocked.
pub open spec fn is_queued(state: Seq<char>) -> bool {
    state == "pending"@ || state == "retry_wait"@ || state == "blocked"@
}

/// Whether a job in this state is neither done nor canceled.
pub open spec fn is_open(state: Seq<char>) -> bool {
    is_queued(state) || state == "running"@ || state == "failed"@
}

/// The jobs with an id.
pub open spec fn with_id(id: Seq<char>) -> spec_fn(Job) -> bool {
    |job: Job| job.id == id
}

/// The jobs with an id that belong to a user.
pub open spec fn owned(id: Seq<char>, user_id: Seq<char>) -> spec_fn(Job) -> bool {
    |job: Job| job.id == id && job.user_id == user_id
}

/// A conversation's jobs in a state.
pub open spec fn in_state(
    user_id: Seq<char>,
    conversation_id: Seq<char>,
    state: Seq<char>,
) -> spec_fn(Job) -> bool {
    |job: Job|
        job.user_id == user_id && job.conversation_id == conversation_id && job.state == state
}

/// A conversation's queued jobs.
pub open spec fn queued_in(user_id: Seq<char>, conversation_id: Seq<char>) -> spec_fn(Job) -> bool {
    |job: Job|
        job.user_id == user_id && job.conversation_id == conversation_id && is_queued(job.state)
}

/// The jobs of the same conversation that a barrier takes in.
pub open spec fn absorbed_by(barrier: Job) -> spec_fn(Job) -> bool {
    |job: Job|
        job.user_id == barrier.user_id && job.conversation_id == barrier.conversation_id && job.id
            != barrier.id && (is_queued(job.state) || job.state == "running"@)
}

/// Jobs in the order of their creation, then of their ids.
pub open spec fn older_job() -> spec_fn(Job, Job) -> bool {
    |a: Job, b: Job|
        a.created_at < b.created_at || (a.created_at == b.created_at && text_before(a.id, b.id))
}

/// The turns of a job from a position on.
pub open spec fn turns_from(job_id: Seq<char>, from: int) -> spec_fn(Turn) -> bool {
    |turn: Turn| turn.job_id == job_id && turn.position >= from
}

/// Decides whether a job in this state is queued.
pub fn state_is_queued(state: &str) -> (yes: bool)
    ensures
        yes == is_queued(state@),
{
    same(state, "pending") || same(state, "retry_wait") || same(state, "blocked")
}

/// Decides whether a job in this state is open.
pub fn state_is_open(state: &str) -> (yes: bool)
    ensures
        yes == is_open(state@),
{
    state_is_queued(state) || same(state, "running") || same(state, "failed")
}

/// Finds a conversation's first queued job.
pub fn find_queued(
    jobs: &Vec<MemoryJobRow>,
    user_id: &str,
    conversation_id: &str,
) -> (found: Option<
    usize,
>)
    ensures
        match found {
            Some(at) => at < jobs.len() && queued_in(user_id@, conversation_id@)(
                jobs[at as int]@,
            ) && lookup(model(jobs@), queued_in(user_id@, conversation_id@)) == Some(
                jobs[at as int]@,
            ),
            None => lookup(model(jobs@), queued_in(user_id@, conversation_id@)) is None,
        },
{
    find_where(
        jobs,
        |job: &MemoryJobRow| -> (yes: bool)
            ensures yes == queued_in(user_id@, conversation_id@)(job@)
            {
                same(job.user_id.as_str(), user_id) && same(
                    job.conversation_id.as_str(),
                    conversation_id,
                ) && state_is_queued(job.state.as_str())
            },
        Ghost(queued_in(user_id@, conversation_id@)),
    )
}

/// Finds a conversation's first job in a state.
pub fn find_in_state(
    jobs: &Vec<MemoryJobRow>,
    user_id: &str,
    conversation_id: &str,
    state: &str,
) -> (found: Option<usize>)
    ensures
        match found {
            Some(at) => at < jobs.len() && lookup(
                model(jobs@),
                in_state(user_id@, conversation_id@, state@),
            ) == Some(jobs[at as int]@),
            None => lookup(model(jobs@), in_state(user_id@, conversation_id@, state@)) is None,
        },
{
    find_where(
        jobs,
        |job: &MemoryJobRow| -> (yes: bool)
            ensures yes == in_state(user_id@, conversation_id@, state@)(job@)
            {
                same(job.user_id.as_str(), user_id) && same(
                    job.conversation_id.as_str(),
                    conversation_id,
                ) && same(job.state.as_str(), state)
            },
        Ghost(in_state(user_id@, conversation_id@, state@)),
    )
}

/// Finds a user's job by its id.
pub fn find_owned(jobs: &Vec<MemoryJobRow>, id: &str, user_id: &str) -> (found: Option<usize>)
    ensures
        match found {
            Some(at) => at < jobs.len() && owned(id@, user_id@)(jobs[at as int]@) && lookup(
                model(jobs@),
                owned(id@, user_id@),
            ) == Some(jobs[at as int]@),
            None => lookup(model(jobs@), owned(id@, user_id@)) is None,
        },
{
    find_where(
        jobs,
        |job: &MemoryJobRow| -> (yes: bool)
            ensures yes == owned(id@, user_id@)(job@)
            { same(job.id.as_str(), id) && same(job.user_id.as_str(), user_id) },
        Ghost(owned(id@, user_id@)),
    )
}

/// Decides whether there is a job with an id.
pub fn has_job(jobs: &Vec<MemoryJobRow>, id: &str) -> (yes: bool)
    ensures
        yes == exists_in(model(jobs@), with_id(id@)),
{
    find_where(
        jobs,
        |job: &MemoryJobRow| -> (yes: bool)
            ensures yes == with_id(id@)(job@)
            { same(job.id.as_str(), id) },
        Ghost(with_id(id@)),
    ).is_some()
}

/// Changes the jobs with an id.
pub fn change_job<C: Fn(&MemoryJobRow) -> MemoryJobRow>(
    jobs: &mut Vec<MemoryJobRow>,
    id: &str,
    change: C,
    Ghost(change_spec): Ghost<spec_fn(Job) -> Job>,
)
    requires
        forall|r: MemoryJobRow| change.requires((&r,)),
        forall|r: MemoryJobRow, n: MemoryJobRow|
            change.ensures((&r,), n) ==> n@ == change_spec(r@),
    ensures
        model(final(jobs)@) == updated(model(old(jobs)@), with_id(id@), change_spec),
{
    let _changed: u64 = update_where(
        jobs,
        |job: &MemoryJobRow| -> (yes: bool)
            ensures yes == with_id(id@)(job@)
            { same(job.id.as_str(), id) },
        change,
        Ghost(with_id(id@)),
        Ghost(change_spec),
    );
}

/// Deletes the jobs with an id.
pub fn drop_job(jobs: &mut Vec<MemoryJobRow>, id: &str)
    ensures
        model(final(jobs)@) == removed(model(old(jobs)@), with_id(id@)),
{
    let _gone: u64 = delete_where(
        jobs,
        |job: &MemoryJobRow| -> (yes: bool)
            ensures yes == with_id(id@)(job@)
            { same(job.id.as_str(), id) },
        Ghost(with_id(id@)),
    );
}

// ----------------------------------------------------------------------------
// Moving turns
// ----------------------------------------------------------------------------

/// The turns of one job from a position on, given to another job at other
/// positions.
pub open spec fn rebased(to_job: Seq<char>, less: int, more: int) -> spec_fn(Turn) -> Turn {
    |turn: Turn|
        StoredJobTurnRow {
            job_id: to_job,
            position: (turn.position - less + more) as i64,
            ..turn
        }
}

/// Whether new positions stay within their range.
pub open spec fn rebase_fits(
    turns: Seq<Turn>,
    job_id: Seq<char>,
    from: int,
    less: int,
    more: int,
) -> bool {
    forall|i: int|
        0 <= i < turns.len() && turns_from(job_id, from)(#[trigger] turns[i]) ==> i64::MIN
            <= turns[i].position - less <= i64::MAX && i64::MIN <= turns[i].position - less + more
            <= i64::MAX
}

/// The turns after those of `job_id` from position `from` on went to `to_job`,
/// their positions `less` lower and `more` higher.
pub open spec fn rebase(
    turns: Seq<Turn>,
    job_id: Seq<char>,
    from: int,
    to_job: Seq<char>,
    less: int,
    more: int,
) -> Option<Seq<Turn>> {
    if rebase_fits(turns, job_id, from, less, more) {
        Some(updated(turns, turns_from(job_id, from), rebased(to_job, less, more)))
    } else {
        None
    }
}

/// Gives turns to another job at other positions.
pub fn rebase_turns(
    turns: &Vec<StoredJobTurnRow>,
    job_id: &str,
    from: i64,
    to_job: &str,
    less: i64,
    more: i64,
) -> (list: Option<Vec<StoredJobTurnRow>>)
    ensures
        match list {
            Some(moved) => rebase(
                model(turns@),
                job_id@,
                from as int,
                to_job@,
                less as int,
                more as int,
            ) == Some(model(moved@)),
            None => rebase(
                model(turns@),
                job_id@,
                from as int,
                to_job@,
                less as int,
                more as int,
            ) is None,
        },
{
    let ghost hit = turns_from(job_id@, from as int);
    let ghost change = rebased(to_job@, less as int, more as int);
    let mut list: Vec<StoredJobTurnRow> = Vec::new();
    let mut i: usize = 0;
    while i < turns.len()
        invariant
            i <= turns.len(),
            list.len() == i,
            hit == turns_from(job_id@, from as int),
            change == rebased(to_job@, less as int, more as int),
            forall|k: int|
                0 <= k < i ==> (#[trigger] list[k])@ == (if hit(turns[k]@) {
                    change(turns[k]@)
                } else {
                    turns[k]@
                }),
            forall|k: int|
                0 <= k < i && hit((#[trigger] turns[k])@) ==> i64::MIN <= turns[k].position - less
                    <= i64::MAX && i64::MIN <= turns[k].position - less + more <= i64::MAX,
        decreases turns.len() - i,
    {
        let turn = &turns[i];
        assert(model(turns@)[i as int] == turn@);
        if same(turn.job_id.as_str(), job_id) && turn.position >= from {
            match turn.position.checked_sub(less) {
                None => {
                    return None;
                },
                Some(lowered) => match lowered.checked_add(more) {
                    None => {
                        return None;
                    },
                    Some(position) => {
                        let next = StoredJobTurnRow {
                            job_id: to_job.to_owned(),
                            position,
                            ..turn.duplicate()
                        };
                        assert(next@ == change(turn@));
                        list.push(next);
                    },
                },
            }
        } else {
            list.push(turn.duplicate());
        }
        i = i + 1;
    }
    proof {
        assert(rebase_fits(model(turns@), job_id@, from as int, less as int, more as int)) by {
            assert forall|k: int|
                0 <= k < model(turns@).len() && turns_from(job_id@, from as int)(
                    #[trigger] model(turns@)[k],
                ) implies i64::MIN <= model(turns@)[k].position - less <= i64::MAX && i64::MIN
                <= model(turns@)[k].position - less + more <= i64::MAX by {
                assert(model(turns@)[k] == turns[k]@);
            }
        }
        assert(model(list@) =~= updated(model(turns@), hit, change));
    }
    Some(list)
}

// ----------------------------------------------------------------------------
// Settling a running job
// ----------------------------------------------------------------------------

/// What becomes of a running job.
#[derive(Debug, Clone, PartialEq, Eq)]
pub struct QueueTransition<T = String> {
    pub state: T,
    pub next_attempt_at: Option<i64>,
    pub error_code: Option<T>,
    pub increment_attempt: bool,
    pub increment_invalid_output: bool,
    pub now: i64,
}

impl View for QueueTransition<String> {
    type V = QueueTransition<Seq<char>>;

    open spec fn view(&self) -> QueueTransition<Seq<char>> {
        QueueTransition {
            state: self.state@,
            next_attempt_at: self.next_attempt_at,
            error_code: opt_text(self.error_code),
            increment_attempt: self.increment_attempt,
            increment_invalid_output: self.increment_invalid_output,
            now: self.now,
        }
    }
}

/// The transition back to the queue, for a reason or for none.
pub open spec fn requeue(error_code: Option<Seq<char>>, now: i64) -> QueueTransition<Seq<char>> {
    QueueTransition {
        state: "pending"@,
        next_attempt_at: None,
        error_code,
        increment_attempt: false,
        increment_invalid_output: false,
        now,
    }
}

/// Makes the transition back to the queue.
pub fn requeue_transition(error_code: Option<String>, now: i64) -> (transition: QueueTransition)
    ensures
        transition@ == requeue(opt_text(error_code), now),
{
    QueueTransition {
        state: "pending".to_owned(),
        next_attempt_at: None,
        error_code,
        increment_attempt: false,
        increment_invalid_output: false,
        now,
    }
}

/// Whether a job that goes to this state is joined with the queued job behind it.
pub open spec fn joins_successor(state: Seq<char>) -> bool {
    is_queued(state) || state == "failed"@
}

/// The attempts counted after a transition.
pub open spec fn attempts_after(running: Job, transition: QueueTransition<Seq<char>>) -> int {
    running.attempt_count + if transition.increment_attempt {
        1int
    } else {
        0int
    }
}

/// The invalid outputs counted after a transition.
pub open spec fn invalid_outputs_after(
    running: Job,
    transition: QueueTransition<Seq<char>>,
) -> int {
    running.invalid_output_count + if transition.increment_invalid_output {
        1int
    } else {
        0int
    }
}

/// Whether the counters can be raised.
pub open spec fn counters_fit(running: Job, transition: QueueTransition<Seq<char>>) -> bool {
    attempts_after(running, transition) <= i64::MAX && invalid_outputs_after(running, transition)
        <= i64::MAX
}

/// A job that covers `front`'s turns and then `back`'s: how many, and their digest.
pub struct JoinedTurns {
    pub count: i64,
    pub digest: int,
}

/// The error for more turns than can be counted.
pub open spec fn length_overflow() -> DbError<Seq<char>> {
    DbError::Conflict("Memory queue length overflow"@)
}

/// The turns of `front` and then those of `back`, or why they cannot be joined.
pub open spec fn join_turns(front: Job, back: Job) -> Result<JoinedTurns, DbError<Seq<char>>> {
    if !(i64::MIN <= front.turn_count + back.turn_count <= i64::MAX) {
        Err(length_overflow())
    } else {
        match (hex_parsed(front.queue_digest), hex_parsed(back.queue_digest)) {
            (Some(left), Some(right)) => if back.turn_count < 0 {
                Err(bad_length())
            } else {
                Ok(
                    JoinedTurns {
                        count: (front.turn_count + back.turn_count) as i64,
                        digest: joined_digest(left, right, back.turn_count as nat),
                    },
                )
            },
            _ => Err(bad_digest()),
        }
    }
}

/// Joins two jobs' turn counts and digests.
fn join_counts(front: &MemoryJobRow, back: &MemoryJobRow) -> (joined: Result<(i64, u128), DbError>)
    ensures
        match (joined, join_turns(front@, back@)) {
            (Ok((count, digest)), Ok(both)) => count == both.count && digest == both.digest,
            (Err(error), Err(wanted)) => error@ == wanted,
            _ => false,
        },
{
    match front.turn_count.checked_add(back.turn_count) {
        None => Err(conflict("Memory queue length overflow")),
        Some(count) => match parse_queue_digest(front.queue_digest.as_str()) {
            Err(error) => Err(error),
            Ok(left) => match parse_queue_digest(back.queue_digest.as_str()) {
                Err(error) => Err(error),
                Ok(right) => match concat_queue_digest(left, right, back.turn_count) {
                    Err(error) => Err(error),
                    Ok(digest) => Ok((count, digest)),
                },
            },
        },
    }
}

/// The input hash of a job that starts where `base` does.
pub open spec fn rehashed(base: Job, count: i64, digest: int) -> Seq<char> {
    input_hash_of(
        base.operation_version,
        base.global_epoch,
        base.conversation_epoch,
        base.from_turn_id,
        count,
        digest,
    )
}

fn rehash(base: &MemoryJobRow, count: i64, digest: u128) -> (hash: String)
    ensures
        hash@ == rehashed(base@, count, digest as int),
{
    input_hash(
        base.operation_version.as_str(),
        base.global_epoch,
        base.conversation_epoch,
        borrow_opt(&base.from_turn_id),
        count,
        digest,
    )
}

/// A running job that failed and took the job behind it in.
pub open spec fn failed_with(
    running: Job,
    successor: Job,
    both: JoinedTurns,
    transition: QueueTransition<Seq<char>>,
) -> spec_fn(Job) -> Job {
    |job: Job|
        MemoryJobRow {
            through_turn_id: successor.through_turn_id,
            turn_count: both.count,
            queue_digest: hex_fixed(both.digest as nat, 32),
            input_hash: rehashed(running, both.count, both.digest),
            state: "failed"@,
            attempt_count: attempts_after(running, transition) as i64,
            invalid_output_count: invalid_outputs_after(running, transition) as i64,
            next_attempt_at: None,
            last_error_code: transition.error_code,
            lease_owner: None,
            lease_token: None,
            lease_expires_at: None,
            reconciliation_snapshot_json: None,
            updated_at: transition.now,
            ..job
        }
}

/// A queued job that took the running job before it in.
pub open spec fn requeued_before(
    running: Job,
    both: JoinedTurns,
    transition: QueueTransition<Seq<char>>,
) -> spec_fn(Job) -> Job {
    |job: Job|
        MemoryJobRow {
            from_turn_id: running.from_turn_id,
            operation_version: running.operation_version,
            global_epoch: running.global_epoch,
            conversation_epoch: running.conversation_epoch,
            turn_count: both.count,
            queue_digest: hex_fixed(both.digest as nat, 32),
            input_hash: rehashed(running, both.count, both.digest),
            expected_revision: running.expected_revision,
            state: transition.state,
            attempt_count: attempts_after(running, transition) as i64,
            invalid_output_count: invalid_outputs_after(running, transition) as i64,
            next_attempt_at: transition.next_attempt_at,
            last_error_code: transition.error_code,
            lease_owner: None,
            lease_token: None,
            lease_expires_at: None,
            reconciliation_snapshot_json: None,
            updated_at: transition.now,
            ..job
        }
}

/// A running job that is settled with no other job involved.
pub open spec fn settled_alone(
    running: Job,
    transition: QueueTransition<Seq<char>>,
) -> spec_fn(Job) -> Job {
    |job: Job|
        MemoryJobRow {
            state: transition.state,
            next_attempt_at: transition.next_attempt_at,
            last_error_code: transition.error_code,
            attempt_count: attempts_after(running, transition) as i64,
            invalid_output_count: invalid_outputs_after(running, transition) as i64,
            lease_owner: None,
            lease_token: None,
            lease_expires_at: None,
            reconciliation_snapshot_json: None,
            updated_at: transition.now,
            ..job
        }
}

/// The successor's turns, moved behind the running job's in the running job.
pub open spec fn turns_behind(turns: Seq<Turn>, running: Job, successor: Job) -> Option<Seq<Turn>> {
    rebase(
        turns,
        successor.id,
        i64::MIN as int,
        running.id,
        0,
        running.turn_count as int,
    )
}

/// The running job's turns, moved before the successor's in the successor. The
/// successor's turns are first parked behind every position in use.
pub open spec fn turns_before(
    turns: Seq<Turn>,
    running: Job,
    successor: Job,
    parking: int,
) -> Option<Seq<Turn>> {
    match rebase(turns, successor.id, i64::MIN as int, successor.id, 0, parking) {
        None => None,
        Some(parked) => match rebase(parked, running.id, i64::MIN as int, successor.id, 0, 0) {
            None => None,
            Some(given) => rebase(
                given,
                successor.id,
                parking,
                successor.id,
                parking,
                running.turn_count as int,
            ),
        },
    }
}

/// The queue after a running job is settled, and the job that stands for it.
/// Where another job of the conversation is queued behind it, the two become
/// one that covers the running job's turns and then the other's.
pub open spec fn settle(
    queue: QueueModel,
    running: Job,
    transition: QueueTransition<Seq<char>>,
) -> Result<QueueStep, DbError<Seq<char>>> {
    let successor = if joins_successor(transition.state) {
        lookup(queue.jobs, queued_in(running.user_id, running.conversation_id))
    } else {
        None
    };
    match successor {
        None => {
            let change = settled_alone(running, transition);
            Ok(
                QueueStep {
                    queue: QueueModel {
                        jobs: updated(queue.jobs, with_id(running.id), change),
                        turns: queue.turns,
                    },
                    job: change(running),
                },
            )
        },
        Some(next) => match join_turns(running, next) {
            Err(error) => Err(error),
            Ok(both) => if transition.state == "failed"@ {
                let change = failed_with(running, next, both, transition);
                match turns_behind(queue.turns, running, next) {
                    None => Err(length_overflow()),
                    Some(turns) => Ok(
                        QueueStep {
                            queue: QueueModel {
                                jobs: updated(
                                    removed(queue.jobs, with_id(next.id)),
                                    with_id(running.id),
                                    change,
                                ),
                                turns,
                            },
                            job: change(running),
                        },
                    ),
                }
            } else {
                let change = requeued_before(running, both, transition);
                match turns_before(queue.turns, running, next, both.count as int) {
                    None => Err(length_overflow()),
                    Some(turns) => Ok(
                        QueueStep {
                            queue: QueueModel {
                                jobs: removed(
                                    updated(queue.jobs, with_id(next.id), change),
                                    with_id(running.id),
                                ),
                                turns,
                            },
                            job: change(next),
                        },
                    ),
                }
            },
        },
    }
}

fn apply_failed_with(
    job: &MemoryJobRow,
    running: &MemoryJobRow,
    successor: &MemoryJobRow,
    count: i64,
    digest: u128,
    transition: &QueueTransition,
) -> (next: MemoryJobRow)
    requires
        counters_fit(running@, transition@),
    ensures
        next@ == failed_with(
            running@,
            successor@,
            JoinedTurns { count, digest: digest as int },
            transition@,
        )(job@),
{
    MemoryJobRow {
        through_turn_id: successor.through_turn_id.clone(),
        turn_count: count,
        queue_digest: queue_digest(digest),
        input_hash: rehash(running, count, digest),
        state: "failed".to_owned(),
        attempt_count: raised(running.attempt_count, transition.increment_attempt),
        invalid_output_count: raised(
            running.invalid_output_count,
            transition.increment_invalid_output,
        ),
        next_attempt_at: None,
        last_error_code: copy_opt(&transition.error_code),
        lease_owner: None,
        lease_token: None,
        lease_expires_at: None,
        reconciliation_snapshot_json: None,
        updated_at: transition.now,
        ..job.duplicate()
    }
}

fn raised(count: i64, more: bool) -> (sum: i64)
    requires
        more ==> count < i64::MAX,
    ensures
        sum == count + if more {
            1int
        } else {
            0int
        },
{
    if more {
        count + 1
    } else {
        count
    }
}

fn apply_requeued_before(
    job: &MemoryJobRow,
    running: &MemoryJobRow,
    count: i64,
    digest: u128,
    transition: &QueueTransition,
) -> (next: MemoryJobRow)
    requires
        counters_fit(running@, transition@),
    ensures
        next@ == requeued_before(
            running@,
            JoinedTurns { count, digest: digest as int },
            transition@,
        )(job@),
{
    MemoryJobRow {
        from_turn_id: copy_opt(&running.from_turn_id),
        operation_version: running.operation_version.clone(),
        global_epoch: running.global_epoch,
        conversation_epoch: running.conversation_epoch,
        turn_count: count,
        queue_digest: queue_digest(digest),
        input_hash: rehash(running, count, digest),
        expected_revision: running.expected_revision,
        state: transition.state.clone(),
        attempt_count: raised(running.attempt_count, transition.increment_attempt),
        invalid_output_count: raised(
            running.invalid_output_count,
            transition.increment_invalid_output,
        ),
        next_attempt_at: transition.next_attempt_at,
        last_error_code: copy_opt(&transition.error_code),
        lease_owner: None,
        lease_token: None,
        lease_expires_at: None,
        reconciliation_snapshot_json: None,
        updated_at: transition.now,
        ..job.duplicate()
    }
}

fn apply_settled_alone(
    job: &MemoryJobRow,
    running: &MemoryJobRow,
    transition: &QueueTransition,
) -> (next: MemoryJobRow)
    requires
        counters_fit(running@, transition@),
    ensures
        next@ == settled_alone(running@, transition@)(job@),
{
    MemoryJobRow {
        state: transition.state.clone(),
        next_attempt_at: transition.next_attempt_at,
        last_error_code: copy_opt(&transition.error_code),
        attempt_count: raised(running.attempt_count, transition.increment_attempt),
        invalid_output_count: raised(
            running.invalid_output_count,
            transition.increment_invalid_output,
        ),
        lease_owner: None,
        lease_token: None,
        lease_expires_at: None,
        reconciliation_snapshot_json: None,
        updated_at: transition.now,
        ..job.duplicate()
    }
}

impl MemoryQueue {
    /// Settles a running job.
    pub fn transition_running(
        &mut self,
        running: &MemoryJobRow,
        transition: &QueueTransition,
    ) -> (result: Result<MemoryJobRow, DbError>)
        requires
            counters_fit(running@, transition@),
        ensures
            step_taken(
                settle(old(self)@, running@, transition@),
                result,
                old(self)@,
                final(self)@,
            ),
    {
        let state: &str = transition.state.as_str();
        let successor: Option<usize> = if state_is_queued(state) || same(state, "failed") {
            find_queued(&self.jobs, running.user_id.as_str(), running.conversation_id.as_str())
        } else {
            None
        };
        match successor {
            None => {
                change_job(
                    &mut self.jobs,
                    running.id.as_str(),
                    |job: &MemoryJobRow| -> (next: MemoryJobRow)
                        requires counters_fit(running@, transition@)
                        ensures next@ == settled_alone(running@, transition@)(job@)
                        { apply_settled_alone(job, running, transition) },
                    Ghost(settled_alone(running@, transition@)),
                );
                Ok(apply_settled_alone(running, running, transition))
            },
            Some(at) => {
                let next = self.jobs[at].duplicate();
                let (count, digest) = match join_counts(running, &next) {
                    Ok(both) => both,
                    Err(error) => {
                        return Err(error);
                    },
                };
                let ghost both = JoinedTurns { count, digest: digest as int };
                if same(state, "failed") {
                    let turns = match rebase_turns(
                        &self.turns,
                        next.id.as_str(),
                        i64::MIN,
                        running.id.as_str(),
                        0,
                        running.turn_count,
                    ) {
                        Some(turns) => turns,
                        None => {
                            return Err(conflict("Memory queue length overflow"));
                        },
                    };
                    self.turns = turns;
                    drop_job(&mut self.jobs, next.id.as_str());
                    change_job(
                        &mut self.jobs,
                        running.id.as_str(),
                        |job: &MemoryJobRow| -> (changed: MemoryJobRow)
                            requires counters_fit(running@, transition@)
                            ensures changed@ == failed_with(running@, next@, both, transition@)(
                                job@,
                            )
                            { apply_failed_with(job, running, &next, count, digest, transition) },
                        Ghost(failed_with(running@, next@, both, transition@)),
                    );
                    return Ok(
                        apply_failed_with(running, running, &next, count, digest, transition),
                    );
                }
                let parked = match rebase_turns(
                    &self.turns,
                    next.id.as_str(),
                    i64::MIN,
                    next.id.as_str(),
                    0,
                    count,
                ) {
                    Some(turns) => turns,
                    None => {
                        return Err(conflict("Memory queue length overflow"));
                    },
                };
                let given = match rebase_turns(
                    &parked,
                    running.id.as_str(),
                    i64::MIN,
                    next.id.as_str(),
                    0,
                    0,
                ) {
                    Some(turns) => turns,
                    None => {
                        return Err(conflict("Memory queue length overflow"));
                    },
                };
                let turns = match rebase_turns(
                    &given,
                    next.id.as_str(),
                    count,
                    next.id.as_str(),
                    count,
                    running.turn_count,
                ) {
                    Some(turns) => turns,
                    None => {
                        return Err(conflict("Memory queue length overflow"));
                    },
                };
                self.turns = turns;
                change_job(
                    &mut self.jobs,
                    next.id.as_str(),
                    |job: &MemoryJobRow| -> (changed: MemoryJobRow)
                        requires counters_fit(running@, transition@)
                        ensures changed@ == requeued_before(running@, both, transition@)(job@)
                        { apply_requeued_before(job, running, count, digest, transition) },
                    Ghost(requeued_before(running@, both, transition@)),
                );
                drop_job(&mut self.jobs, running.id.as_str());
                Ok(apply_requeued_before(&next, running, count, digest, transition))
            },
        }
    }
}

// ----------------------------------------------------------------------------
// Taking later jobs into a failed one
// ----------------------------------------------------------------------------

/// A barrier that took a later job in.
pub open spec fn extended_with(barrier: Job, next: Job, both: JoinedTurns, now: i64) -> spec_fn(
    Job,
) -> Job {
    |job: Job|
        MemoryJobRow {
            through_turn_id: next.through_turn_id,
            turn_count: both.count,
            queue_digest: hex_fixed(both.digest as nat, 32),
            input_hash: rehashed(barrier, both.count, both.digest),
            updated_at: now,
            ..job
        }
}

fn apply_extended_with(
    job: &MemoryJobRow,
    barrier: &MemoryJobRow,
    next: &MemoryJobRow,
    count: i64,
    digest: u128,
    now: i64,
) -> (changed: MemoryJobRow)
    ensures
        changed@ == extended_with(
            barrier@,
            next@,
            JoinedTurns { count, digest: digest as int },
            now,
        )(job@),
{
    MemoryJobRow {
        through_turn_id: next.through_turn_id.clone(),
        turn_count: count,
        queue_digest: queue_digest(digest),
        input_hash: rehash(barrier, count, digest),
        updated_at: now,
        ..job.duplicate()
    }
}

/// The queue after the barrier took in, oldest first, every other job of its
/// conversation that is queued or running.
pub open spec fn absorb(queue: QueueModel, barrier: Job, now: i64) -> Result<
    QueueStep,
    DbError<Seq<char>>,
>
    decreases queue.jobs.len(),
{
    match least(queue.jobs, absorbed_by(barrier), older_job()) {
        None => Ok(QueueStep { queue, job: barrier }),
        Some(next) => {
            proof {
                lemma_absorb_shrinks(queue, barrier, next);
            }
            match join_turns(barrier, next) {
                Err(error) => Err(error),
                Ok(both) => match turns_behind(queue.turns, barrier, next) {
                    None => Err(length_overflow()),
                    Some(turns) => {
                        let change = extended_with(barrier, next, both, now);
                        absorb(
                            QueueModel {
                                jobs: updated(
                                    removed(queue.jobs, with_id(next.id)),
                                    with_id(barrier.id),
                                    change,
                                ),
                                turns,
                            },
                            change(barrier),
                            now,
                        )
                    },
                },
            }
        },
    }
}

/// Taking a job in leaves fewer jobs.
pub proof fn lemma_absorb_shrinks(queue: QueueModel, barrier: Job, next: Job)
    requires
        least(queue.jobs, absorbed_by(barrier), older_job()) == Some(next),
    ensures
        removed(queue.jobs, with_id(next.id)).len() < queue.jobs.len(),
{
    lemma_least_selected(queue.jobs, absorbed_by(barrier), older_job());
    let k = choose|k: int| 0 <= k < queue.jobs.len() && queue.jobs[k] == next;
    assert(with_id(next.id)(queue.jobs[k]));
    lemma_removed_shrinks(queue.jobs, with_id(next.id));
}

impl MemoryQueue {
    /// Takes every other queued or running job of the conversation into the
    /// barrier, oldest first.
    pub fn absorb_queued_successors(&mut self, barrier: &MemoryJobRow, now: i64) -> (result: Result<
        MemoryJobRow,
        DbError,
    >)
        ensures
            step_taken(absorb(old(self)@, barrier@, now), result, old(self)@, final(self)@),
    {
        let mut queue = self.duplicate();
        let mut combined = barrier.duplicate();
        loop
            invariant
                absorb(queue@, combined@, now) == absorb(old(self)@, barrier@, now),
                self@ == old(self)@,
            decreases queue.jobs.len(),
        {
            let found = least_where(
                &queue.jobs,
                |job: &MemoryJobRow| -> (yes: bool)
                    ensures yes == absorbed_by(combined@)(job@)
                    {
                        same(job.user_id.as_str(), combined.user_id.as_str()) && same(
                            job.conversation_id.as_str(),
                            combined.conversation_id.as_str(),
                        ) && !same(job.id.as_str(), combined.id.as_str()) && (state_is_queued(
                            job.state.as_str(),
                        ) || same(job.state.as_str(), "running"))
                    },
                |a: &MemoryJobRow, b: &MemoryJobRow| -> (yes: bool)
                    ensures yes == older_job()(a@, b@)
                    {
                        a.created_at < b.created_at || (a.created_at == b.created_at && before(
                            a.id.as_str(),
                            b.id.as_str(),
                        ))
                    },
                Ghost(absorbed_by(combined@)),
                Ghost(older_job()),
            );
            let at: usize = match found {
                Some(at) => at,
                None => {
                    *self = queue;
                    return Ok(combined);
                },
            };
            let next = queue.jobs[at].duplicate();
            proof {
                lemma_absorb_shrinks(queue@, combined@, next@);
            }
            let (count, digest) = match join_counts(&combined, &next) {
                Ok(both) => both,
                Err(error) => {
                    return Err(error);
                },
            };
            let turns = match rebase_turns(
                &queue.turns,
                next.id.as_str(),
                i64::MIN,
                combined.id.as_str(),
                0,
                combined.turn_count,
            ) {
                Some(turns) => turns,
                None => {
                    return Err(conflict("Memory queue length overflow"));
                },
            };
            queue.turns = turns;
            drop_job(&mut queue.jobs, next.id.as_str());
            let ghost both = JoinedTurns { count, digest: digest as int };
            change_job(
                &mut queue.jobs,
                combined.id.as_str(),
                |job: &MemoryJobRow| -> (changed: MemoryJobRow)
                    ensures changed@ == extended_with(combined@, next@, both, now)(job@)
                    { apply_extended_with(job, &combined, &next, count, digest, now) },
                Ghost(extended_with(combined@, next@, both, now)),
            );
            combined = apply_extended_with(&combined, &combined, &next, count, digest, now);
        }
    }
}

} // verus!

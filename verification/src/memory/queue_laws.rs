//! What every queue operation keeps: each job's turns in their exact order, and
//! the digest that stands for them.
use crate::memory::commands::SplitMemoryJobRow;
use crate::memory::digest::{
    joined_digest, law_digest_of_joined_queues, law_digest_of_rest, law_stored_digest_reads_back,
    rest_digest, turns_digest,
};
use crate::memory::leases::{earlier_turn, leased, turns_in_order, turns_of};
use crate::memory::queue::{
    absorb, absorbed_by, extended_with, failed_with, is_queued, join_turns, joins_successor,
    lemma_absorb_shrinks, older_job, queued_in, rebase, rebase_fits, rebased, requeued_before,
    settle, settled_alone, turns_before, turns_behind, turns_from, with_id, Job, QueueModel,
    QueueTransition, Turn,
};
use crate::memory::rows::StoredJobTurnRow;
use crate::memory::split::{
    folded_digest, preceded_by_rest, prefix_turns, rest_job, shortened, split_at, split_step,
    turn_keys, turns_before_queued, turns_until, Split,
};
use crate::table::{
    first_at, least, lemma_least_selected, lemma_lookup, lemma_lookup_first, lookup, ordered,
    placed, removed, selected, updated,
};
use crate::text::{hex_fixed, hex_parsed};
use vstd::prelude::*;

verus! {

/// Whether the turns of a job stand at the positions from zero to its count,
/// one at each.
pub open spec fn covers(turns: Seq<Turn>, id: Seq<char>, count: int) -> bool {
    &&& count >= 0
    &&& forall|i: int|
        0 <= i < turns.len() && (#[trigger] turns[i]).job_id == id ==> 0 <= turns[i].position
            < count
    &&& forall|i: int, j: int|
        0 <= i < turns.len() && 0 <= j < turns.len() && i != j && (#[trigger] turns[i]).job_id == id
            && (#[trigger] turns[j]).job_id == id ==> turns[i].position != turns[j].position
    &&& forall|p: int| 0 <= p < count ==> #[trigger] has_turn(turns, id, p)
}

/// Whether a job has a turn at a position.
pub open spec fn has_turn(turns: Seq<Turn>, id: Seq<char>, position: int) -> bool {
    exists|i: int| #[trigger] is_turn(turns, id, position, i)
}

/// Whether row `i` is the job's turn at a position.
pub open spec fn is_turn(turns: Seq<Turn>, id: Seq<char>, position: int, i: int) -> bool {
    0 <= i < turns.len() && turns[i].job_id == id && turns[i].position == position
}

/// The id and hash of the job's turn at a position.
pub open spec fn turn_key(turns: Seq<Turn>, id: Seq<char>, position: int) -> (
    Seq<char>,
    Seq<char>,
) {
    let i = choose|i: int| #[trigger] is_turn(turns, id, position, i);
    (turns[i].turn_id, turns[i].turn_hash)
}

/// A job's turns in order, each by its id and hash.
pub open spec fn turn_list(turns: Seq<Turn>, id: Seq<char>, count: int) -> Seq<
    (Seq<char>, Seq<char>),
> {
    Seq::new(count as nat, |p: int| turn_key(turns, id, p))
}

/// Whether a job's turns are all there and its digest is theirs.
pub open spec fn job_sound(turns: Seq<Turn>, job: Job) -> bool {
    &&& covers(turns, job.id, job.turn_count as int)
    &&& hex_parsed(job.queue_digest) == Some(
        turns_digest(turn_list(turns, job.id, job.turn_count as int)),
    )
}

/// Whether no two jobs share an id.
pub open spec fn distinct_ids(jobs: Seq<Job>) -> bool {
    forall|i: int, j: int|
        0 <= i < jobs.len() && 0 <= j < jobs.len() && i != j ==> (#[trigger] jobs[i]).id != (
        #[trigger] jobs[j]).id
}

/// Whether no two jobs share an id and every job's turns and digest agree.
pub open spec fn sound(queue: QueueModel) -> bool {
    &&& distinct_ids(queue.jobs)
    &&& forall|i: int|
        0 <= i < queue.jobs.len() ==> job_sound(queue.turns, #[trigger] queue.jobs[i])
}

/// The turns that a job covers.
pub open spec fn turns_of_job(queue: QueueModel, job: Job) -> Seq<(Seq<char>, Seq<char>)> {
    turn_list(queue.turns, job.id, job.turn_count as int)
}

pub proof fn lemma_turn_key(turns: Seq<Turn>, id: Seq<char>, count: int, i: int)
    requires
        covers(turns, id, count),
        0 <= i < turns.len(),
        turns[i].job_id == id,
    ensures
        turn_key(turns, id, turns[i].position as int) == (turns[i].turn_id, turns[i].turn_hash),
{
    assert(is_turn(turns, id, turns[i].position as int, i));
    let k = choose|k: int| #[trigger] is_turn(turns, id, turns[i].position as int, k);
    assert(is_turn(turns, id, turns[i].position as int, k));
    if k != i {
        assert(turns[k].job_id == id && turns[i].job_id == id);
    }
}

/// Whether `after` holds the rows of `turns` with only jobs and positions
/// changed, and those only for two jobs.
spec fn rearranged(turns: Seq<Turn>, after: Seq<Turn>, a: Seq<char>, b: Seq<char>) -> bool {
    &&& after.len() == turns.len()
    &&& forall|i: int|
        0 <= i < turns.len() ==> (#[trigger] after[i]).turn_id == turns[i].turn_id
            && after[i].turn_hash == turns[i].turn_hash
    &&& forall|i: int|
        0 <= i < turns.len() && turns[i].job_id != a && turns[i].job_id != b ==> #[trigger] after[i]
            == turns[i]
    &&& forall|i: int|
        0 <= i < turns.len() && (turns[i].job_id == a || turns[i].job_id == b) ==> (
        #[trigger] after[i]).job_id == a || after[i].job_id == b
}

/// Jobs other than the two keep their turns.
proof fn lemma_others_keep(
    turns: Seq<Turn>,
    after: Seq<Turn>,
    a: Seq<char>,
    b: Seq<char>,
    id: Seq<char>,
    count: int,
)
    requires
        rearranged(turns, after, a, b),
        id != a,
        id != b,
        covers(turns, id, count),
    ensures
        covers(after, id, count),
        turn_list(after, id, count) == turn_list(turns, id, count),
{
    assert forall|i: int| 0 <= i < after.len() && (#[trigger] after[i]).job_id == id implies 0
        <= after[i].position < count && after[i] == turns[i] by {
        assert(turns[i].job_id == id);
    }
    assert forall|p: int| 0 <= p < count implies #[trigger] has_turn(after, id, p) by {
        assert(has_turn(turns, id, p));
        let i = choose|i: int| #[trigger] is_turn(turns, id, p, i);
        assert(after[i] == turns[i]);
        assert(is_turn(after, id, p, i));
    }
    assert(covers(after, id, count));
    assert forall|p: int|
        0 <= p < count implies turn_key(after, id, p) == turn_key(turns, id, p) by {
        assert(has_turn(turns, id, p));
        let i = choose|i: int| #[trigger] is_turn(turns, id, p, i);
        assert(after[i] == turns[i]);
        lemma_turn_key(turns, id, count, i);
        lemma_turn_key(after, id, count, i);
    }
    assert(turn_list(after, id, count) =~= turn_list(turns, id, count));
}

/// Two jobs' turns put one after the other under one of the two jobs.
proof fn lemma_joined_turns(
    turns: Seq<Turn>,
    after: Seq<Turn>,
    a: Seq<char>,
    a_count: int,
    b: Seq<char>,
    b_count: int,
    to: Seq<char>,
)
    requires
        a != b,
        to == a || to == b,
        covers(turns, a, a_count),
        covers(turns, b, b_count),
        rearranged(turns, after, a, b),
        forall|i: int|
            0 <= i < turns.len() && turns[i].job_id == a ==> (#[trigger] after[i]).job_id == to
                && after[i].position == turns[i].position,
        forall|i: int|
            0 <= i < turns.len() && turns[i].job_id == b ==> (#[trigger] after[i]).job_id == to
                && after[i].position == turns[i].position + a_count,
    ensures
        covers(after, to, a_count + b_count),
        turn_list(after, to, a_count + b_count) == turn_list(turns, a, a_count) + turn_list(
            turns,
            b,
            b_count,
        ),
{
    let count = a_count + b_count;
    assert forall|i: int| 0 <= i < after.len() && (#[trigger] after[i]).job_id == to implies 0
        <= after[i].position < count && (turns[i].job_id == a || turns[i].job_id == b) by {
        assert(turns[i].job_id == turns[i].job_id);
    }
    assert forall|p: int| 0 <= p < count implies #[trigger] has_turn(after, to, p) by {
        if p < a_count {
            assert(has_turn(turns, a, p));
            let i = choose|i: int| #[trigger] is_turn(turns, a, p, i);
            assert(is_turn(after, to, p, i));
        } else {
            assert(has_turn(turns, b, p - a_count));
            let i = choose|i: int| #[trigger] is_turn(turns, b, p - a_count, i);
            assert(is_turn(after, to, p, i));
        }
    }
    assert forall|i: int, j: int|
        0 <= i < after.len() && 0 <= j < after.len() && i != j && (#[trigger] after[i]).job_id == to
            && (#[trigger] after[j]).job_id == to implies after[i].position
        != after[j].position by {
        assert(turns[i].job_id == a || turns[i].job_id == b);
        assert(turns[j].job_id == a || turns[j].job_id == b);
    }
    assert(covers(after, to, count));
    let left = turn_list(turns, a, a_count);
    let right = turn_list(turns, b, b_count);
    assert forall|p: int| 0 <= p < count implies turn_key(after, to, p) == #[trigger] (left
        + right)[p] by {
        if p < a_count {
            assert(has_turn(turns, a, p));
            let i = choose|i: int| #[trigger] is_turn(turns, a, p, i);
            lemma_turn_key(turns, a, a_count, i);
            lemma_turn_key(after, to, count, i);
            assert((left + right)[p] == left[p]);
        } else {
            assert(has_turn(turns, b, p - a_count));
            let i = choose|i: int| #[trigger] is_turn(turns, b, p - a_count, i);
            lemma_turn_key(turns, b, b_count, i);
            lemma_turn_key(after, to, count, i);
            assert((left + right)[p] == right[p - a_count]);
        }
    }
    assert(turn_list(after, to, count) =~= left + right);
}

/// One job's turns from a position on put before another job's.
proof fn lemma_divided_turns(
    turns: Seq<Turn>,
    after: Seq<Turn>,
    a: Seq<char>,
    a_count: int,
    kept: int,
    b: Seq<char>,
    b_count: int,
)
    requires
        a != b,
        0 <= kept <= a_count,
        covers(turns, a, a_count),
        covers(turns, b, b_count),
        rearranged(turns, after, a, b),
        forall|i: int|
            0 <= i < turns.len() && turns[i].job_id == a && turns[i].position < kept ==> (
            #[trigger] after[i]).job_id == a && after[i].position == turns[i].position,
        forall|i: int|
            0 <= i < turns.len() && turns[i].job_id == a && turns[i].position >= kept ==> (
            #[trigger] after[i]).job_id == b && after[i].position == turns[i].position - kept,
        forall|i: int|
            0 <= i < turns.len() && turns[i].job_id == b ==> (#[trigger] after[i]).job_id == b
                && after[i].position == turns[i].position + (a_count - kept),
    ensures
        covers(after, a, kept),
        covers(after, b, a_count - kept + b_count),
        turn_list(after, a, kept) == turn_list(turns, a, a_count).take(kept),
        turn_list(after, b, a_count - kept + b_count) == turn_list(turns, a, a_count).skip(kept)
            + turn_list(turns, b, b_count),
{
    let rest = a_count - kept;
    let count = rest + b_count;
    assert forall|i: int| 0 <= i < after.len() && (#[trigger] after[i]).job_id == a implies 0
        <= after[i].position < kept && turns[i].job_id == a && after[i].position
        == turns[i].position by {
        assert(turns[i].job_id == a || turns[i].job_id == b);
    }
    assert forall|p: int| 0 <= p < kept implies #[trigger] has_turn(after, a, p) by {
        assert(has_turn(turns, a, p));
        let i = choose|i: int| #[trigger] is_turn(turns, a, p, i);
        assert(is_turn(after, a, p, i));
    }
    assert(covers(after, a, kept));
    assert forall|p: int| 0 <= p < kept implies turn_key(after, a, p) == turn_key(turns, a, p) by {
        assert(has_turn(turns, a, p));
        let i = choose|i: int| #[trigger] is_turn(turns, a, p, i);
        lemma_turn_key(turns, a, a_count, i);
        lemma_turn_key(after, a, kept, i);
    }
    assert(turn_list(after, a, kept) =~= turn_list(turns, a, a_count).take(kept));
    assert forall|i: int| 0 <= i < after.len() && (#[trigger] after[i]).job_id == b implies 0
        <= after[i].position < count && ((turns[i].job_id == a && turns[i].position >= kept)
        || turns[i].job_id == b) by {
        assert(turns[i].job_id == a || turns[i].job_id == b);
    }
    assert forall|p: int| 0 <= p < count implies #[trigger] has_turn(after, b, p) by {
        if p < rest {
            assert(has_turn(turns, a, p + kept));
            let i = choose|i: int| #[trigger] is_turn(turns, a, p + kept, i);
            assert(is_turn(after, b, p, i));
        } else {
            assert(has_turn(turns, b, p - rest));
            let i = choose|i: int| #[trigger] is_turn(turns, b, p - rest, i);
            assert(is_turn(after, b, p, i));
        }
    }
    assert(covers(after, b, count));
    let left = turn_list(turns, a, a_count).skip(kept);
    let right = turn_list(turns, b, b_count);
    assert forall|p: int| 0 <= p < count implies turn_key(after, b, p) == #[trigger] (left
        + right)[p] by {
        if p < rest {
            assert(has_turn(turns, a, p + kept));
            let i = choose|i: int| #[trigger] is_turn(turns, a, p + kept, i);
            lemma_turn_key(turns, a, a_count, i);
            lemma_turn_key(after, b, count, i);
            assert((left + right)[p] == left[p]);
            assert(left[p] == turn_list(turns, a, a_count)[p + kept]);
        } else {
            assert(has_turn(turns, b, p - rest));
            let i = choose|i: int| #[trigger] is_turn(turns, b, p - rest, i);
            lemma_turn_key(turns, b, b_count, i);
            lemma_turn_key(after, b, count, i);
            assert((left + right)[p] == right[p - rest]);
        }
    }
    assert(turn_list(after, b, count) =~= left + right);
}

/// The rows that deletion leaves are rows that were there and not selected.
pub proof fn lemma_removed_rows(jobs: Seq<Job>, hit: spec_fn(Job) -> bool)
    ensures
        forall|k: int|
            0 <= k < removed(jobs, hit).len() ==> !hit(#[trigger] removed(jobs, hit)[k])
                && jobs.contains(removed(jobs, hit)[k]),
        distinct_ids(jobs) ==> distinct_ids(removed(jobs, hit)),
        forall|i: int|
            0 <= i < jobs.len() && !hit(#[trigger] jobs[i]) ==> removed(jobs, hit).contains(
                jobs[i],
            ),
    decreases jobs.len(),
{
    if jobs.len() > 0 {
        let head = jobs.drop_last();
        let last = jobs.last();
        let left = removed(head, hit);
        let all = removed(jobs, hit);
        lemma_removed_rows(head, hit);
        assert(jobs[jobs.len() - 1] == last);
        assert forall|k: int| 0 <= k < all.len() implies !hit(#[trigger] all[k]) && jobs.contains(
            all[k],
        ) by {
            if k < left.len() {
                assert(all[k] == left[k]);
                let i = choose|i: int| 0 <= i < head.len() && head[i] == left[k];
                assert(jobs[i] == left[k]);
            }
        }
        if distinct_ids(jobs) {
            assert(distinct_ids(head)) by {
                assert forall|i: int, j: int|
                    0 <= i < head.len() && 0 <= j < head.len() && i != j implies (
                #[trigger] head[i]).id != (#[trigger] head[j]).id by {
                    assert(jobs[i] == head[i] && jobs[j] == head[j]);
                }
            }
            assert forall|i: int, j: int|
                0 <= i < all.len() && 0 <= j < all.len() && i != j implies (#[trigger] all[i]).id
                != (#[trigger] all[j]).id by {
                if i < left.len() && j < left.len() {
                    assert(all[i] == left[i] && all[j] == left[j]);
                } else {
                    let (k, other) = if i < left.len() {
                        (i, j)
                    } else {
                        (j, i)
                    };
                    assert(all[k] == left[k] && all[other] == last);
                    let m = choose|m: int| 0 <= m < head.len() && head[m] == left[k];
                    assert(jobs[m] == left[k]);
                    assert(jobs[m].id != jobs[jobs.len() - 1].id);
                }
            }
        }
        assert forall|i: int| 0 <= i < jobs.len() && !hit(#[trigger] jobs[i]) implies all.contains(
            jobs[i],
        ) by {
            if i < head.len() {
                assert(head[i] == jobs[i]);
                let k = choose|k: int| 0 <= k < left.len() && left[k] == head[i];
                assert(all[k] == jobs[i]);
            } else {
                assert(all[all.len() - 1] == last);
            }
        }
    }
}

/// A job found among sound ones is sound.
pub proof fn lemma_member_sound(queue: QueueModel, job: Job)
    requires
        sound(queue),
        queue.jobs.contains(job),
    ensures
        job_sound(queue.turns, job),
{
    let i = choose|i: int| 0 <= i < queue.jobs.len() && queue.jobs[i] == job;
    assert(job_sound(queue.turns, queue.jobs[i]));
}

/// Two jobs of a sound queue with one id are one job.
pub proof fn lemma_same_id(jobs: Seq<Job>, a: Job, b: Job)
    requires
        distinct_ids(jobs),
        jobs.contains(a),
        jobs.contains(b),
        a.id == b.id,
    ensures
        a == b,
{
    let i = choose|i: int| 0 <= i < jobs.len() && jobs[i] == a;
    let j = choose|j: int| 0 <= j < jobs.len() && jobs[j] == b;
    if i != j {
        assert(jobs[i].id != jobs[j].id);
    }
}

/// Moving a successor's turns behind a job's own joins the two lists.
proof fn lemma_turns_behind(turns: Seq<Turn>, front: Job, back: Job)
    requires
        front.id != back.id,
        job_sound(turns, front),
        job_sound(turns, back),
        front.turn_count + back.turn_count <= i64::MAX,
    ensures
        turns_behind(turns, front, back) is Some,
        rearranged(turns, turns_behind(turns, front, back)->0, front.id, back.id),
        covers(
            turns_behind(turns, front, back)->0,
            front.id,
            front.turn_count + back.turn_count,
        ),
        turn_list(
            turns_behind(turns, front, back)->0,
            front.id,
            front.turn_count + back.turn_count,
        ) == turn_list(turns, front.id, front.turn_count as int) + turn_list(
            turns,
            back.id,
            back.turn_count as int,
        ),
{
    let more = front.turn_count as int;
    let after = updated(turns, turns_from(back.id, i64::MIN as int), rebased(front.id, 0, more));
    assert(rebase_fits(turns, back.id, i64::MIN as int, 0, more)) by {
        assert forall|i: int|
            0 <= i < turns.len() && turns_from(back.id, i64::MIN as int)(
                #[trigger] turns[i],
            ) implies i64::MIN <= turns[i].position - 0 <= i64::MAX && i64::MIN <= turns[i].position
            - 0 + more <= i64::MAX by {
            assert(turns[i].job_id == back.id);
        }
    }
    assert(turns_behind(turns, front, back) == Some(after));
    assert forall|i: int|
        0 <= i < turns.len() && turns[i].job_id == back.id implies (#[trigger] after[i]).job_id
        == front.id && after[i].position == turns[i].position + more by {
        assert(0 <= turns[i].position < back.turn_count);
    }
    lemma_joined_turns(
        turns,
        after,
        front.id,
        front.turn_count as int,
        back.id,
        back.turn_count as int,
        front.id,
    );
}

/// Moving a running job's turns before its successor's joins the two lists.
proof fn lemma_turns_before(turns: Seq<Turn>, front: Job, back: Job)
    requires
        front.id != back.id,
        job_sound(turns, front),
        job_sound(turns, back),
        front.turn_count + 2 * back.turn_count <= i64::MAX + 1,
    ensures
        ({
            let parking = front.turn_count + back.turn_count;
            let after = turns_before(turns, front, back, parking);
            &&& after is Some
            &&& rearranged(turns, after->0, front.id, back.id)
            &&& covers(after->0, back.id, parking)
            &&& turn_list(after->0, back.id, parking) == turn_list(
                turns,
                front.id,
                front.turn_count as int,
            ) + turn_list(turns, back.id, back.turn_count as int)
        }),
{
    let low = i64::MIN as int;
    let parking = front.turn_count + back.turn_count;
    let more = front.turn_count as int;
    let parked = updated(turns, turns_from(back.id, low), rebased(back.id, 0, parking));
    assert(rebase_fits(turns, back.id, low, 0, parking)) by {
        assert forall|i: int|
            0 <= i < turns.len() && turns_from(back.id, low)(#[trigger] turns[i]) implies i64::MIN
            <= turns[i].position - 0 <= i64::MAX && i64::MIN <= turns[i].position - 0 + parking
            <= i64::MAX by {
            assert(turns[i].job_id == back.id);
        }
    }
    assert(rebase(turns, back.id, low, back.id, 0, parking) == Some(parked));
    let given = updated(parked, turns_from(front.id, low), rebased(back.id, 0, 0));
    assert(rebase_fits(parked, front.id, low, 0, 0));
    assert(rebase(parked, front.id, low, back.id, 0, 0) == Some(given));
    assert forall|i: int| 0 <= i < turns.len() implies (#[trigger] given[i]) == (if turns[i].job_id
        == back.id {
        rebased(back.id, 0, parking)(turns[i])
    } else if turns[i].job_id == front.id {
        rebased(back.id, 0, 0)(turns[i])
    } else {
        turns[i]
    }) by {
        assert(parked[i] == if turns_from(back.id, low)(turns[i]) {
            rebased(back.id, 0, parking)(turns[i])
        } else {
            turns[i]
        });
    }
    let after = updated(given, turns_from(back.id, parking), rebased(back.id, parking, more));
    assert(rebase_fits(given, back.id, parking, parking, more)) by {
        assert forall|i: int|
            0 <= i < given.len() && turns_from(back.id, parking)(
                #[trigger] given[i],
            ) implies i64::MIN <= given[i].position - parking <= i64::MAX && i64::MIN
            <= given[i].position - parking + more <= i64::MAX by {
            if turns[i].job_id == back.id {
                assert(0 <= turns[i].position < back.turn_count);
            } else if turns[i].job_id == front.id {
                assert(0 <= turns[i].position < front.turn_count);
            }
        }
    }
    assert(turns_before(turns, front, back, parking) == Some(after));
    assert forall|i: int| 0 <= i < turns.len() && turns[i].job_id == front.id implies (
    #[trigger] after[i]).job_id == back.id && after[i].position == turns[i].position by {
        assert(0 <= turns[i].position < front.turn_count);
        assert(given[i].position == turns[i].position);
    }
    assert forall|i: int| 0 <= i < turns.len() && turns[i].job_id == back.id implies (
    #[trigger] after[i]).job_id == back.id && after[i].position == turns[i].position
        + front.turn_count by {
        assert(0 <= turns[i].position < back.turn_count);
        assert(given[i].position == turns[i].position + parking);
    }
    lemma_joined_turns(
        turns,
        after,
        front.id,
        front.turn_count as int,
        back.id,
        back.turn_count as int,
        back.id,
    );
}

/// Joining two sound jobs gives the digest of their turns one after the other.
proof fn lemma_joined_digest(turns: Seq<Turn>, front: Job, back: Job)
    requires
        job_sound(turns, front),
        job_sound(turns, back),
        front.turn_count + back.turn_count <= i64::MAX,
    ensures
        join_turns(front, back) matches Ok(both) && both.count == front.turn_count
            + back.turn_count && both.digest == turns_digest(
            turn_list(turns, front.id, front.turn_count as int) + turn_list(
                turns,
                back.id,
                back.turn_count as int,
            ),
        ) && hex_parsed(hex_fixed(both.digest as nat, 32)) == Some(both.digest),
{
    let left = turn_list(turns, front.id, front.turn_count as int);
    let right = turn_list(turns, back.id, back.turn_count as int);
    law_digest_of_joined_queues(left, right);
    law_stored_digest_reads_back(left + right);
}

/// Settling a running job behind which nothing is queued keeps every job's
/// turns and digest.
pub proof fn law_settle_alone_keeps_turns(
    queue: QueueModel,
    running: Job,
    transition: QueueTransition<Seq<char>>,
)
    requires
        sound(queue),
        queue.jobs.contains(running),
        !joins_successor(transition.state) || lookup(
            queue.jobs,
            queued_in(running.user_id, running.conversation_id),
        ) is None,
    ensures
        settle(queue, running, transition) matches Ok(step) && sound(step.queue)
            && step.queue.jobs.contains(step.job) && step.queue.turns == queue.turns
            && turns_of_job(step.queue, step.job) == turns_of_job(queue, running),
{
    let change = settled_alone(running, transition);
    let jobs = updated(queue.jobs, with_id(running.id), change);
    let k = choose|k: int| 0 <= k < queue.jobs.len() && queue.jobs[k] == running;
    assert(jobs[k] == change(running));
    assert forall|i: int| 0 <= i < jobs.len() implies job_sound(
        queue.turns,
        #[trigger] jobs[i],
    ) by {
        assert(job_sound(queue.turns, queue.jobs[i]));
    }
    assert(distinct_ids(jobs)) by {
        assert forall|i: int, j: int|
            0 <= i < jobs.len() && 0 <= j < jobs.len() && i != j implies (#[trigger] jobs[i]).id
            != (#[trigger] jobs[j]).id by {
            assert(queue.jobs[i].id != queue.jobs[j].id);
        }
    }
}

/// Settling a running job behind which another is queued makes the two one job
/// that covers the running job's turns and then the other's, in their exact
/// order, and every job keeps its turns and digest. A job that fails keeps its
/// own place and takes the other in; any other joins the queued one.
pub proof fn law_settle_joins_in_order(
    queue: QueueModel,
    running: Job,
    next: Job,
    transition: QueueTransition<Seq<char>>,
)
    requires
        sound(queue),
        queue.jobs.contains(running),
        !is_queued(running.state),
        joins_successor(transition.state),
        lookup(queue.jobs, queued_in(running.user_id, running.conversation_id)) == Some(next),
        running.turn_count + 2 * next.turn_count <= i64::MAX + 1,
    ensures
        settle(queue, running, transition) matches Ok(step) && sound(step.queue)
            && step.queue.jobs.contains(step.job) && turns_of_job(step.queue, step.job)
            == turns_of_job(queue, running) + turns_of_job(queue, next) && step.job.id == (
        if transition.state == "failed"@ {
            running.id
        } else {
            next.id
        }),
{
    lemma_lookup(queue.jobs, queued_in(running.user_id, running.conversation_id));
    lemma_member_sound(queue, running);
    lemma_member_sound(queue, next);
    if running.id == next.id {
        lemma_same_id(queue.jobs, running, next);
    }
    lemma_joined_digest(queue.turns, running, next);
    let both = join_turns(running, next)->Ok_0;
    if transition.state == "failed"@ {
        lemma_turns_behind(queue.turns, running, next);
        let turns = turns_behind(queue.turns, running, next)->0;
        let change = failed_with(running, next, both, transition);
        lemma_joined_jobs(queue, turns, running, next, change, both.count as int);
        let left = removed(queue.jobs, with_id(next.id));
        lemma_removed_rows(queue.jobs, with_id(next.id));
        let r = choose|r: int| 0 <= r < queue.jobs.len() && queue.jobs[r] == running;
        assert(!with_id(next.id)(queue.jobs[r]));
        let k = choose|k: int| 0 <= k < left.len() && left[k] == running;
        assert(updated(left, with_id(running.id), change)[k] == change(running));
    } else {
        lemma_turns_before(queue.turns, running, next);
        let turns = turns_before(queue.turns, running, next, both.count as int)->0;
        let change = requeued_before(running, both, transition);
        let kept = updated(queue.jobs, with_id(next.id), change);
        let jobs = removed(kept, with_id(running.id));
        lemma_removed_rows(kept, with_id(running.id));
        let n = choose|n: int| 0 <= n < queue.jobs.len() && queue.jobs[n] == next;
        assert(kept[n] == change(next) && !with_id(running.id)(kept[n]));
        assert(distinct_ids(kept)) by {
            assert forall|i: int, j: int|
                0 <= i < kept.len() && 0 <= j < kept.len() && i != j implies (#[trigger] kept[i]).id
                != (#[trigger] kept[j]).id by {
                assert(queue.jobs[i].id != queue.jobs[j].id);
            }
        }
        assert forall|k: int| 0 <= k < jobs.len() implies job_sound(turns, #[trigger] jobs[k]) by {
            let i = choose|i: int| 0 <= i < kept.len() && kept[i] == jobs[k];
            assert(job_sound(queue.turns, queue.jobs[i]));
            if queue.jobs[i].id != next.id {
                lemma_others_keep(
                    queue.turns,
                    turns,
                    running.id,
                    next.id,
                    queue.jobs[i].id,
                    queue.jobs[i].turn_count as int,
                );
            }
        }
    }
}

/// The jobs after one took another in are sound.
proof fn lemma_joined_jobs(
    queue: QueueModel,
    turns: Seq<Turn>,
    front: Job,
    back: Job,
    change: spec_fn(Job) -> Job,
    count: int,
)
    requires
        sound(queue),
        rearranged(queue.turns, turns, front.id, back.id),
        covers(turns, front.id, count),
        forall|job: Job|
            job.id == front.id ==> (#[trigger] change(job)).id == front.id && change(job).turn_count
                == count && hex_parsed(change(job).queue_digest) == Some(
                turns_digest(turn_list(turns, front.id, count)),
            ),
    ensures
        sound(
            QueueModel {
                jobs: updated(removed(queue.jobs, with_id(back.id)), with_id(front.id), change),
                turns,
            },
        ),
{
    let left = removed(queue.jobs, with_id(back.id));
    let jobs = updated(left, with_id(front.id), change);
    lemma_removed_rows(queue.jobs, with_id(back.id));
    assert forall|k: int| 0 <= k < jobs.len() implies job_sound(turns, #[trigger] jobs[k]) by {
        assert(left.contains(left[k]));
        assert(queue.jobs.contains(left[k]));
        lemma_member_sound(queue, left[k]);
        if left[k].id != front.id {
            assert(!with_id(back.id)(left[k]));
            lemma_others_keep(
                queue.turns,
                turns,
                front.id,
                back.id,
                left[k].id,
                left[k].turn_count as int,
            );
        } else {
            assert(jobs[k] == change(left[k]));
        }
    }
    assert(distinct_ids(jobs)) by {
        assert forall|i: int, j: int|
            0 <= i < jobs.len() && 0 <= j < jobs.len() && i != j implies (#[trigger] jobs[i]).id
            != (#[trigger] jobs[j]).id by {
            assert(left[i].id != left[j].id);
            if left[i].id == front.id {
                assert(jobs[i] == change(left[i]));
            }
            if left[j].id == front.id {
                assert(jobs[j] == change(left[j]));
            }
        }
    }
}

/// Taking later jobs into a failed one keeps every job's turns and digest, and
/// the failed job's own turns stay at its front. Where it succeeds, no other
/// job of the conversation is left queued or running.
pub proof fn law_absorb_keeps_turns(queue: QueueModel, barrier: Job, now: i64)
    requires
        sound(queue),
        queue.jobs.contains(barrier),
    ensures
        absorb(queue, barrier, now) matches Ok(step) ==> sound(step.queue)
            && step.queue.jobs.contains(step.job) && step.job.id == barrier.id && turns_of_job(
            queue,
            barrier,
        ).is_prefix_of(turns_of_job(step.queue, step.job)) && least(
            step.queue.jobs,
            absorbed_by(step.job),
            older_job(),
        ) is None,
    decreases queue.jobs.len(),
{
    match least(queue.jobs, absorbed_by(barrier), older_job()) {
        None => {},
        Some(next) => {
            lemma_absorb_shrinks(queue, barrier, next);
            lemma_least_selected(queue.jobs, absorbed_by(barrier), older_job());
            lemma_member_sound(queue, barrier);
            lemma_member_sound(queue, next);
            if join_turns(barrier, next) is Ok {
                lemma_joined_digest(queue.turns, barrier, next);
                lemma_turns_behind(queue.turns, barrier, next);
                let both = join_turns(barrier, next)->Ok_0;
                let turns = turns_behind(queue.turns, barrier, next)->0;
                let change = extended_with(barrier, next, both, now);
                lemma_joined_jobs(queue, turns, barrier, next, change, both.count as int);
                let left = removed(queue.jobs, with_id(next.id));
                let after = QueueModel {
                    jobs: updated(left, with_id(barrier.id), change),
                    turns,
                };
                lemma_removed_rows(queue.jobs, with_id(next.id));
                let b = choose|b: int| 0 <= b < queue.jobs.len() && queue.jobs[b] == barrier;
                assert(!with_id(next.id)(queue.jobs[b]));
                let k = choose|k: int| 0 <= k < left.len() && left[k] == barrier;
                assert(after.jobs[k] == change(barrier));
                law_absorb_keeps_turns(after, change(barrier), now);
                let own = turns_of_job(queue, barrier);
                assert(own.is_prefix_of(turns_of_job(after, change(barrier)))) by {
                    assert(turns_of_job(after, change(barrier)) == own + turns_of_job(queue, next));
                    assert((own + turns_of_job(queue, next)).subrange(0, own.len() as int) =~= own);
                }
            }
        },
    }
}

// ----------------------------------------------------------------------------
// Listing and splitting
// ----------------------------------------------------------------------------

/// Whether turns stand in the order of their positions, no two at one.
spec fn climbing(turns: Seq<Turn>) -> bool {
    forall|i: int, j: int|
        0 <= i < j < turns.len() ==> (#[trigger] turns[i]).position < (#[trigger] turns[j]).position
}

proof fn lemma_selected_positions(turns: Seq<Turn>, hit: spec_fn(Turn) -> bool)
    requires
        forall|i: int, j: int|
            0 <= i < turns.len() && 0 <= j < turns.len() && i != j && hit(#[trigger] turns[i])
                && hit(#[trigger] turns[j]) ==> turns[i].position != turns[j].position,
    ensures
        forall|k: int|
            0 <= k < selected(turns, hit).len() ==> hit(#[trigger] selected(turns, hit)[k])
                && turns.contains(selected(turns, hit)[k]),
        forall|i: int|
            0 <= i < turns.len() && hit(#[trigger] turns[i]) ==> selected(turns, hit).contains(
                turns[i],
            ),
        forall|i: int, j: int|
            0 <= i < selected(turns, hit).len() && 0 <= j < selected(turns, hit).len() && i != j
                ==> (#[trigger] selected(turns, hit)[i]).position != (#[trigger] selected(
                turns,
                hit,
            )[j]).position,
    decreases turns.len(),
{
    if turns.len() > 0 {
        let head = turns.drop_last();
        let last = turns.last();
        let front = selected(head, hit);
        let all = selected(turns, hit);
        assert forall|i: int, j: int|
            0 <= i < head.len() && 0 <= j < head.len() && i != j && hit(#[trigger] head[i]) && hit(
                #[trigger] head[j],
            ) implies head[i].position != head[j].position by {
            assert(turns[i] == head[i] && turns[j] == head[j]);
        }
        lemma_selected_positions(head, hit);
        assert(turns[turns.len() - 1] == last);
        assert forall|k: int| 0 <= k < all.len() implies hit(#[trigger] all[k]) && turns.contains(
            all[k],
        ) by {
            if k < front.len() {
                assert(all[k] == front[k]);
                let i = choose|i: int| 0 <= i < head.len() && head[i] == front[k];
                assert(turns[i] == front[k]);
            }
        }
        assert forall|i: int| 0 <= i < turns.len() && hit(#[trigger] turns[i]) implies all.contains(
            turns[i],
        ) by {
            if i < head.len() {
                assert(head[i] == turns[i]);
                let k = choose|k: int| 0 <= k < front.len() && front[k] == head[i];
                assert(all[k] == turns[i]);
            } else {
                assert(all[all.len() - 1] == last);
            }
        }
        assert forall|i: int, j: int|
            0 <= i < all.len() && 0 <= j < all.len() && i != j implies (#[trigger] all[i]).position
            != (#[trigger] all[j]).position by {
            if i < front.len() && j < front.len() {
                assert(all[i] == front[i] && all[j] == front[j]);
            } else {
                let k = if i < front.len() {
                    i
                } else {
                    j
                };
                assert(all[k] == front[k]);
                let m = choose|m: int| 0 <= m < head.len() && head[m] == front[k];
                assert(turns[m] == front[k]);
                assert(hit(turns[m]) && hit(turns[turns.len() - 1]));
            }
        }
    }
}

proof fn lemma_placed_climbs(rows: Seq<Turn>, row: Turn)
    requires
        climbing(rows),
        forall|i: int| 0 <= i < rows.len() ==> (#[trigger] rows[i]).position != row.position,
    ensures
        climbing(placed(rows, row, earlier_turn())),
        forall|k: int|
            0 <= k < placed(rows, row, earlier_turn()).len() ==> (
            #[trigger] placed(rows, row, earlier_turn())[k]) == row || rows.contains(
                placed(rows, row, earlier_turn())[k],
            ),
        forall|i: int|
            0 <= i < rows.len() ==> placed(rows, row, earlier_turn()).contains(
                #[trigger] rows[i],
            ),
        placed(rows, row, earlier_turn()).contains(row),
    decreases rows.len(),
{
    let whole = placed(rows, row, earlier_turn());
    if rows.len() == 0 {
        assert(whole[0] == row);
    } else if earlier_turn()(row, rows.last()) {
        let head = rows.drop_last();
        let inner = placed(head, row, earlier_turn());
        assert(climbing(head)) by {
            assert forall|i: int, j: int| 0 <= i < j < head.len() implies (
            #[trigger] head[i]).position < (#[trigger] head[j]).position by {
                assert(rows[i] == head[i] && rows[j] == head[j]);
            }
        }
        assert forall|i: int| 0 <= i < head.len() implies (#[trigger] head[i]).position
            != row.position by {
            assert(rows[i] == head[i]);
        }
        lemma_placed_climbs(head, row);
        assert(rows[rows.len() - 1] == rows.last());
        assert forall|i: int, j: int| 0 <= i < j < whole.len() implies (
        #[trigger] whole[i]).position < (#[trigger] whole[j]).position by {
            if j < inner.len() {
                assert(whole[i] == inner[i] && whole[j] == inner[j]);
            } else {
                assert(whole[i] == inner[i]);
                if inner[i] != row {
                    let k = choose|k: int| 0 <= k < head.len() && head[k] == inner[i];
                    assert(rows[k] == inner[i]);
                }
            }
        }
        assert forall|k: int| 0 <= k < whole.len() implies (#[trigger] whole[k]) == row
            || rows.contains(whole[k]) by {
            if k < inner.len() {
                assert(whole[k] == inner[k]);
                if inner[k] != row {
                    let m = choose|m: int| 0 <= m < head.len() && head[m] == inner[k];
                    assert(rows[m] == inner[k]);
                }
            }
        }
        assert forall|i: int| 0 <= i < rows.len() implies whole.contains(#[trigger] rows[i]) by {
            if i < head.len() {
                assert(head[i] == rows[i]);
                let k = choose|k: int| 0 <= k < inner.len() && inner[k] == head[i];
                assert(whole[k] == rows[i]);
            } else {
                assert(whole[whole.len() - 1] == rows[i]);
            }
        }
        let k = choose|k: int| 0 <= k < inner.len() && inner[k] == row;
        assert(whole[k] == row);
    } else {
        assert(rows[rows.len() - 1] == rows.last());
        assert forall|i: int, j: int| 0 <= i < j < whole.len() implies (
        #[trigger] whole[i]).position < (#[trigger] whole[j]).position by {
            if j < rows.len() {
                assert(whole[i] == rows[i] && whole[j] == rows[j]);
            } else if i < rows.len() - 1 {
                assert(whole[i] == rows[i]);
                assert(rows[i].position < rows[rows.len() - 1].position);
            }
        }
        assert forall|i: int| 0 <= i < rows.len() implies whole.contains(#[trigger] rows[i]) by {
            assert(whole[i] == rows[i]);
        }
        assert(whole[whole.len() - 1] == row);
    }
}

proof fn lemma_ordered_climbs(rows: Seq<Turn>)
    requires
        forall|i: int, j: int|
            0 <= i < rows.len() && 0 <= j < rows.len() && i != j ==> (#[trigger] rows[i]).position
                != (#[trigger] rows[j]).position,
    ensures
        climbing(ordered(rows, earlier_turn())),
        forall|k: int|
            0 <= k < ordered(rows, earlier_turn()).len() ==> rows.contains(
                #[trigger] ordered(rows, earlier_turn())[k],
            ),
        forall|i: int|
            0 <= i < rows.len() ==> ordered(rows, earlier_turn()).contains(#[trigger] rows[i]),
    decreases rows.len(),
{
    if rows.len() > 0 {
        let head = rows.drop_last();
        let last = rows.last();
        assert forall|i: int, j: int|
            0 <= i < head.len() && 0 <= j < head.len() && i != j implies (
        #[trigger] head[i]).position != (#[trigger] head[j]).position by {
            assert(rows[i] == head[i] && rows[j] == head[j]);
        }
        lemma_ordered_climbs(head);
        let front = ordered(head, earlier_turn());
        assert(rows[rows.len() - 1] == last);
        assert forall|i: int| 0 <= i < front.len() implies (#[trigger] front[i]).position
            != last.position by {
            let k = choose|k: int| 0 <= k < head.len() && head[k] == front[i];
            assert(rows[k] == front[i]);
        }
        lemma_placed_climbs(front, last);
        let whole = ordered(rows, earlier_turn());
        assert forall|k: int| 0 <= k < whole.len() implies rows.contains(#[trigger] whole[k]) by {
            if whole[k] != last {
                let m = choose|m: int| 0 <= m < front.len() && front[m] == whole[k];
                let n = choose|n: int| 0 <= n < head.len() && head[n] == front[m];
                assert(rows[n] == whole[k]);
            }
        }
        assert forall|i: int| 0 <= i < rows.len() implies whole.contains(#[trigger] rows[i]) by {
            if i < head.len() {
                assert(head[i] == rows[i]);
                let m = choose|m: int| 0 <= m < front.len() && front[m] == head[i];
                assert(whole.contains(front[m]));
            }
        }
    }
}

/// Whether some turn stands at a position.
spec fn reaches(rows: Seq<Turn>, position: int) -> bool {
    exists|k: int| 0 <= k < rows.len() && (#[trigger] rows[k]).position == position
}

/// Turns that climb through every position from zero to `end` stand each at its
/// own position.
proof fn lemma_climb_is_identity(rows: Seq<Turn>, end: int, at: int)
    requires
        climbing(rows),
        end >= 0,
        forall|k: int| 0 <= k < rows.len() ==> 0 <= (#[trigger] rows[k]).position < end,
        forall|p: int| 0 <= p < end ==> #[trigger] reaches(rows, p),
        0 <= at < end,
    ensures
        at < rows.len(),
        rows[at].position == at,
    decreases at,
{
    if at > 0 {
        lemma_climb_is_identity(rows, end, at - 1);
    }
    assert(reaches(rows, at));
    let k = choose|k: int| 0 <= k < rows.len() && (#[trigger] rows[k]).position == at;
    if k < at {
        lemma_climb_is_identity(rows, end, k);
    } else if k > at {
        assert(rows[at].position < rows[k].position);
        if at > 0 {
            assert(rows[at - 1].position < rows[at].position);
        }
    }
}

/// The first turns of a job, sorted by position, are the first of its list.
pub proof fn lemma_prefix_is_list(turns: Seq<Turn>, id: Seq<char>, count: int, end: int)
    requires
        covers(turns, id, count),
        0 <= end <= count,
    ensures
        prefix_turns(turns, id, end).len() == end,
        turn_keys(prefix_turns(turns, id, end)) == turn_list(turns, id, count).take(end),
        forall|p: int| 0 <= p < end ==> (#[trigger] prefix_turns(turns, id, end)[p]).position == p,
{
    let hit = turns_until(id, end);
    lemma_selected_positions(turns, hit);
    let hits = selected(turns, hit);
    lemma_ordered_climbs(hits);
    let rows = prefix_turns(turns, id, end);
    assert forall|k: int| 0 <= k < rows.len() implies 0 <= (#[trigger] rows[k]).position < end
        && rows[k].job_id == id && turns.contains(rows[k]) by {
        let m = choose|m: int| 0 <= m < hits.len() && hits[m] == rows[k];
        assert(hit(hits[m]));
        let n = choose|n: int| 0 <= n < turns.len() && turns[n] == hits[m];
        assert(turns[n].job_id == id);
    }
    assert forall|p: int| 0 <= p < end implies #[trigger] reaches(rows, p) by {
        assert(has_turn(turns, id, p));
        let i = choose|i: int| #[trigger] is_turn(turns, id, p, i);
        assert(hit(turns[i]));
        let m = choose|m: int| 0 <= m < hits.len() && hits[m] == turns[i];
        assert(rows.contains(hits[m]));
        let k = choose|k: int| 0 <= k < rows.len() && rows[k] == hits[m];
        assert(rows[k].position == p);
    }
    if end > 0 {
        lemma_climb_is_identity(rows, end, end - 1);
    }
    if rows.len() > end {
        if end > 0 {
            assert(rows[end - 1].position < rows[end].position);
        }
        assert(0 <= rows[end].position < end);
    }
    assert forall|p: int| 0 <= p < end implies turn_keys(rows)[p] == #[trigger] turn_list(
        turns,
        id,
        count,
    )[p] by {
        lemma_climb_is_identity(rows, end, p);
        let n = choose|n: int| 0 <= n < turns.len() && turns[n] == rows[p];
        lemma_turn_key(turns, id, count, n);
    }
    assert(turn_keys(rows) =~= turn_list(turns, id, count).take(end));
    assert forall|p: int| 0 <= p < end implies (#[trigger] rows[p]).position == p by {
        lemma_climb_is_identity(rows, end, p);
    }
}

/// Listing a sound job's turns gives all of them in their order.
pub proof fn law_listing_gives_turns_in_order(turns: Seq<Turn>, job: Job)
    requires
        job_sound(turns, job),
    ensures
        turn_keys(turns_in_order(turns, job.id)) == turn_list(
            turns,
            job.id,
            job.turn_count as int,
        ),
        forall|p: int|
            0 <= p < job.turn_count ==> (#[trigger] turns_in_order(
                turns,
                job.id,
            )[p]).position == p,
{
    let count = job.turn_count as int;
    lemma_prefix_is_list(turns, job.id, count, count);
    let all = turns_of(job.id);
    let some = turns_until(job.id, count);
    lemma_same_selection(turns, all, some);
    assert(turn_list(turns, job.id, count).take(count) =~= turn_list(turns, job.id, count));
}

proof fn lemma_same_selection(
    turns: Seq<Turn>,
    a: spec_fn(Turn) -> bool,
    b: spec_fn(Turn) -> bool,
)
    requires
        forall|i: int| 0 <= i < turns.len() ==> a(#[trigger] turns[i]) == b(turns[i]),
    ensures
        selected(turns, a) == selected(turns, b),
    decreases turns.len(),
{
    if turns.len() > 0 {
        let head = turns.drop_last();
        assert forall|i: int| 0 <= i < head.len() implies a(#[trigger] head[i]) == b(head[i]) by {
            assert(head[i] == turns[i]);
        }
        lemma_same_selection(head, a, b);
        assert(turns[turns.len() - 1] == turns.last());
    }
}

proof fn lemma_folded_digest(turns: Seq<Turn>)
    ensures
        folded_digest(turns) == turns_digest(turn_keys(turns)),
    decreases turns.len(),
{
    if turns.len() > 0 {
        lemma_folded_digest(turns.drop_last());
        assert(turn_keys(turns).drop_last() =~= turn_keys(turns.drop_last()));
    }
}

/// Splitting a claimed job keeps its first turns in it and puts the rest, in
/// order, before the turns of the job that was queued, or into a new queued job;
/// every job keeps its turns and digest.
pub proof fn law_split_keeps_turns(queue: QueueModel, running: Job, input: SplitMemoryJobRow)
    requires
        sound(queue),
        lookup(
            queue.jobs,
            leased(input.job_id@, input.user_id@, input.lease_token@, input.now),
        ) == Some(running),
        covers(queue.turns, input.pending_job_id@, 0),
        split_step(queue, input) matches Some(Ok(_)),
    ensures
        ({
            let after = split_step(queue, input)->0->Ok_0;
            let all = turns_of_job(queue, running);
            let kept = input.prefix_count as int;
            let queued = lookup(
                queue.jobs,
                queued_in(input.user_id@, running.conversation_id),
            );
            &&& sound(after)
            &&& turn_list(after.turns, running.id, kept) == all.take(kept)
            &&& match queued {
                Some(next) => turn_list(
                    after.turns,
                    next.id,
                    all.len() - kept + next.turn_count,
                ) == all.skip(kept) + turns_of_job(queue, next),
                None => turn_list(after.turns, input.pending_job_id@, all.len() - kept)
                    == all.skip(kept),
            }
        }),
{
    let hit = leased(input.job_id@, input.user_id@, input.lease_token@, input.now);
    lemma_lookup(queue.jobs, hit);
    lemma_member_sound(queue, running);
    let count = running.turn_count as int;
    let kept = input.prefix_count as int;
    let rest = count - kept;
    let split = split_at(queue.turns, running, input.prefix_count)->Ok_0;
    let all = turns_of_job(queue, running);
    let after = split_step(queue, input)->0->Ok_0;
    lemma_prefix_is_list(queue.turns, running.id, count, kept);
    lemma_folded_digest(prefix_turns(queue.turns, running.id, kept));
    assert(all =~= all.take(kept) + all.skip(kept));
    law_digest_of_rest(all.take(kept), all.skip(kept));
    assert(split.kept_digest == turns_digest(all.take(kept)));
    assert(split.rest_digest == turns_digest(all.skip(kept)));
    law_stored_digest_reads_back(all.take(kept));
    law_stored_digest_reads_back(all.skip(kept));
    let short = shortened(running, split, input.now);
    let jobs = updated(queue.jobs, hit, short);
    let is_next = queued_in(input.user_id@, running.conversation_id);
    lemma_running_is_not_queued();
    assert forall|i: int| 0 <= i < jobs.len() implies is_next(#[trigger] jobs[i]) == is_next(
        queue.jobs[i],
    ) && (is_next(jobs[i]) ==> jobs[i] == queue.jobs[i]) by {}
    lemma_same_lookup(queue.jobs, jobs, is_next);
    match lookup(queue.jobs, is_next) {
        Some(next) => {
            lemma_lookup(queue.jobs, is_next);
            lemma_member_sound(queue, next);
            if next.id == running.id {
                lemma_same_id(queue.jobs, running, next);
            }
            let total = (split.rest + next.turn_count) as i64;
            lemma_split_rows(
                queue.turns,
                running,
                next.id,
                next.turn_count as int,
                split,
                total as int,
            );
            let both = joined_digest(
                split.rest_digest,
                hex_parsed(next.queue_digest)->0,
                next.turn_count as nat,
            );
            law_digest_of_joined_queues(all.skip(kept), turns_of_job(queue, next));
            law_stored_digest_reads_back(all.skip(kept) + turns_of_job(queue, next));
            let change = preceded_by_rest(running, split, total, both, input.now);
            assert(after.jobs == updated(jobs, with_id(next.id), change));
            assert forall|i: int| 0 <= i < after.jobs.len() implies job_sound(
                after.turns,
                #[trigger] after.jobs[i],
            ) by {
                assert(job_sound(queue.turns, queue.jobs[i]));
                if queue.jobs[i].id == running.id {
                    lemma_same_id(queue.jobs, queue.jobs[i], running);
                } else if queue.jobs[i].id != next.id {
                    lemma_others_keep(
                        queue.turns,
                        after.turns,
                        running.id,
                        next.id,
                        queue.jobs[i].id,
                        queue.jobs[i].turn_count as int,
                    );
                }
            }
            assert(distinct_ids(after.jobs)) by {
                assert forall|i: int, j: int|
                    0 <= i < after.jobs.len() && 0 <= j < after.jobs.len() && i != j implies (
                #[trigger] after.jobs[i]).id != (#[trigger] after.jobs[j]).id by {
                    assert(queue.jobs[i].id != queue.jobs[j].id);
                }
            }
        },
        None => {
            let id = input.pending_job_id@;
            if id == running.id {
                let r = choose|r: int| 0 <= r < queue.jobs.len() && queue.jobs[r] == running;
                assert(with_id(id)(jobs[r]));
            }
            lemma_split_new_rows(queue.turns, running, id, split);
            assert(turn_list(queue.turns, id, 0) =~= Seq::empty());
            assert(all.skip(kept) + turn_list(queue.turns, id, 0) =~= all.skip(kept));
            let new_job = rest_job(running, split, input);
            assert(after.jobs == jobs.push(new_job));
            assert forall|i: int| 0 <= i < after.jobs.len() implies job_sound(
                after.turns,
                #[trigger] after.jobs[i],
            ) by {
                if i < jobs.len() {
                    assert(after.jobs[i] == jobs[i]);
                    assert(job_sound(queue.turns, queue.jobs[i]));
                    if queue.jobs[i].id == running.id {
                        lemma_same_id(queue.jobs, queue.jobs[i], running);
                    } else {
                        assert(!with_id(id)(jobs[i]));
                        lemma_others_keep(
                            queue.turns,
                            after.turns,
                            running.id,
                            id,
                            queue.jobs[i].id,
                            queue.jobs[i].turn_count as int,
                        );
                    }
                }
            }
            assert(distinct_ids(after.jobs)) by {
                assert forall|i: int, j: int|
                    0 <= i < after.jobs.len() && 0 <= j < after.jobs.len() && i != j implies (
                #[trigger] after.jobs[i]).id != (#[trigger] after.jobs[j]).id by {
                    if i < jobs.len() && j < jobs.len() {
                        assert(queue.jobs[i].id != queue.jobs[j].id);
                    } else {
                        let k = if i < jobs.len() {
                            i
                        } else {
                            j
                        };
                        assert(!with_id(id)(jobs[k]));
                    }
                }
            }
        },
    }
}

/// No running job is queued.
pub proof fn lemma_running_is_not_queued()
    ensures
        !is_queued("running"@),
        !is_queued("failed"@),
        "running"@ != "failed"@,
{
    reveal_strlit("running");
    reveal_strlit("failed");
    reveal_strlit("pending");
    reveal_strlit("retry_wait");
    reveal_strlit("blocked");
    assert("running"@[0] == 'r' && "pending"@[0] == 'p' && "blocked"@[0] == 'b' && "failed"@[0]
        == 'f' && "retry_wait"@[0] == 'r');
    assert("running"@.len() != "retry_wait"@.len());
}

proof fn lemma_same_lookup(before: Seq<Job>, after: Seq<Job>, hit: spec_fn(Job) -> bool)
    requires
        before.len() == after.len(),
        forall|i: int|
            0 <= i < before.len() ==> hit(#[trigger] after[i]) == hit(before[i]) && (hit(after[i])
                ==> after[i] == before[i]),
    ensures
        lookup(after, hit) == lookup(before, hit),
{
    lemma_lookup(before, hit);
    lemma_lookup(after, hit);
    if exists|at: int| #[trigger] first_at(before, hit, at) {
        let at = choose|at: int| #[trigger] first_at(before, hit, at);
        assert(after[at] == before[at]);
        assert(first_at(after, hit, at)) by {
            assert forall|k: int| 0 <= k < at implies !hit(#[trigger] after[k]) by {
                assert(!hit(before[k]));
            }
        }
        lemma_lookup_first(before, hit, at);
        lemma_lookup_first(after, hit, at);
    } else if exists|at: int| #[trigger] first_at(after, hit, at) {
        let at = choose|at: int| #[trigger] first_at(after, hit, at);
        assert(first_at(before, hit, at)) by {
            assert(hit(after[at]));
            assert forall|k: int| 0 <= k < at implies !hit(#[trigger] before[k]) by {
                assert(!hit(after[k]));
            }
        }
    }
}

/// What becomes of the rows when the rest goes before a queued job's turns.
proof fn lemma_split_rows(
    turns: Seq<Turn>,
    running: Job,
    other: Seq<char>,
    other_count: int,
    split: Split,
    parking: int,
)
    requires
        other != running.id,
        covers(turns, running.id, running.turn_count as int),
        covers(turns, other, other_count),
        0 < split.kept < running.turn_count,
        split.rest == running.turn_count - split.kept,
        parking == split.rest + other_count,
        turns_before_queued(turns, running.id, other, split, parking) is Some,
    ensures
        ({
            let after = turns_before_queued(turns, running.id, other, split, parking)->0;
            &&& rearranged(turns, after, running.id, other)
            &&& covers(after, running.id, split.kept as int)
            &&& covers(after, other, parking)
            &&& turn_list(after, running.id, split.kept as int) == turn_list(
                turns,
                running.id,
                running.turn_count as int,
            ).take(split.kept as int)
            &&& turn_list(after, other, parking) == turn_list(
                turns,
                running.id,
                running.turn_count as int,
            ).skip(split.kept as int) + turn_list(turns, other, other_count)
        }),
{
    let low = i64::MIN as int;
    let kept = split.kept as int;
    let rest = split.rest as int;
    let parked = updated(turns, turns_from(other, low), rebased(other, 0, parking));
    assert(rebase(turns, other, low, other, 0, parking) == Some(parked));
    let given = updated(parked, turns_from(running.id, kept), rebased(other, kept, 0));
    assert(rebase(parked, running.id, kept, other, kept, 0) == Some(given));
    let after = updated(given, turns_from(other, parking), rebased(other, parking, rest));
    assert(rebase(given, other, parking, other, parking, rest) == Some(after));
    assert forall|i: int| 0 <= i < turns.len() implies (#[trigger] after[i]) == (if turns[i].job_id
        == other {
        turn_at(turns[i], other, turns[i].position + rest)
    } else if turns[i].job_id == running.id && turns[i].position >= kept {
        turn_at(turns[i], other, turns[i].position - kept)
    } else {
        turns[i]
    }) by {
        if turns[i].job_id == other {
            assert(turns_from(other, low)(turns[i]));
            assert(0 <= turns[i].position < other_count);
            assert(rebase_fits(turns, other, low, 0, parking));
            assert(parked[i].position == turns[i].position + parking);
            assert(given[i] == parked[i]);
            assert(rebase_fits(given, other, parking, parking, rest));
            assert(turns_from(other, parking)(given[i]));
        } else if turns[i].job_id == running.id {
            assert(parked[i] == turns[i]);
            assert(0 <= turns[i].position < running.turn_count);
            if turns[i].position >= kept {
                assert(turns_from(running.id, kept)(parked[i]));
                assert(rebase_fits(parked, running.id, kept, kept, 0));
                assert(given[i].position == turns[i].position - kept);
                assert(given[i].position < rest <= parking);
            }
        } else {
            assert(parked[i] == turns[i]);
            assert(given[i] == turns[i]);
        }
    }
    lemma_divided_turns(
        turns,
        after,
        running.id,
        running.turn_count as int,
        kept,
        other,
        other_count,
    );
}

/// A turn under a job at a position.
spec fn turn_at(turn: Turn, job_id: Seq<char>, position: int) -> Turn {
    StoredJobTurnRow { job_id, position: position as i64, ..turn }
}

/// What becomes of the rows when the rest goes to a new job.
proof fn lemma_split_new_rows(turns: Seq<Turn>, running: Job, new_id: Seq<char>, split: Split)
    requires
        new_id != running.id,
        covers(turns, running.id, running.turn_count as int),
        covers(turns, new_id, 0),
        0 < split.kept < running.turn_count,
        split.rest == running.turn_count - split.kept,
        rebase(turns, running.id, split.kept as int, new_id, split.kept as int, 0) is Some,
    ensures
        ({
            let after = rebase(
                turns,
                running.id,
                split.kept as int,
                new_id,
                split.kept as int,
                0,
            )->0;
            &&& rearranged(turns, after, running.id, new_id)
            &&& covers(after, running.id, split.kept as int)
            &&& covers(after, new_id, split.rest as int)
            &&& turn_list(after, running.id, split.kept as int) == turn_list(
                turns,
                running.id,
                running.turn_count as int,
            ).take(split.kept as int)
            &&& turn_list(after, new_id, split.rest as int) == turn_list(
                turns,
                running.id,
                running.turn_count as int,
            ).skip(split.kept as int) + turn_list(turns, new_id, 0)
        }),
{
    let kept = split.kept as int;
    let after = updated(turns, turns_from(running.id, kept), rebased(new_id, kept, 0));
    assert forall|i: int|
        0 <= i < turns.len() && turns[i].job_id == running.id && turns[i].position >= kept implies (
    #[trigger] after[i]).job_id == new_id && after[i].position == turns[i].position - kept by {
        assert(0 <= turns[i].position < running.turn_count);
    }
    lemma_divided_turns(turns, after, running.id, running.turn_count as int, kept, new_id, 0);
}

} // verus!

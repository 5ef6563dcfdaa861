//! What is kept of retrievals, imports and jobs, told by the rows.
use crate::json::json_text_list;
use crate::memory::entries::{job_in, last_success, later_job};
use crate::memory::forget::import_of;
use crate::memory::ledger::entry_with_id;
use crate::memory::queue::Job;
use crate::memory::retrievals::{
    create_step, expired, import_after, imports_with, owns_entries, replaced_by, retrieval_for,
    retrieval_with_id,
};
use crate::memory::rows::{
    ConversationMemoryRow, MemoryEntryDbRow, MemoryImportStateRow, MemoryRetrievalRow,
};
use crate::memory::store::{conversation_of, memory_of, StoreModel};
use crate::table::{law_least, law_removed, least, lemma_lookup, lookup, orders, removed};
use vstd::prelude::*;

verus! {

/// Whether a user has an entry.
pub open spec fn has_entry_of(
    entries: Seq<MemoryEntryDbRow<Seq<char>>>,
    user: Seq<char>,
    id: Seq<char>,
) -> bool {
    exists|i: int|
        0 <= i < entries.len() && (#[trigger] entries[i]).id == id && entries[i].user_id == user
}

proof fn lemma_owned_entries(
    entries: Seq<MemoryEntryDbRow<Seq<char>>>,
    user: Seq<char>,
    ids: Seq<Seq<char>>,
)
    ensures
        owns_entries(entries, user, ids) is Ok ==> forall|k: int|
            0 <= k < ids.len() ==> has_entry_of(entries, user, #[trigger] ids[k]),
    decreases ids.len(),
{
    if ids.len() > 0 {
        let head = ids.drop_last();
        lemma_owned_entries(entries, user, head);
        let hit = entry_with_id(ids.last());
        lemma_lookup(entries, hit);
        if owns_entries(entries, user, ids) is Ok {
            let row = lookup(entries, hit)->0;
            let i = choose|i: int| 0 <= i < entries.len() && entries[i] == row;
            assert(entries[i].id == ids.last());
            assert forall|k: int| 0 <= k < ids.len() implies has_entry_of(
                entries,
                user,
                #[trigger] ids[k],
            ) by {
                if k < head.len() {
                    assert(head[k] == ids[k]);
                }
            }
        }
    }
}

/// What is remembered of a retrieval is the retrieval, of the user's conversation
/// and of the user's entries alone. What was kept before stays, unless its time is
/// over or it was for the same prompt.
pub proof fn law_retrieval_is_kept(store: StoreModel, new: MemoryRetrievalRow<Seq<char>>)
    ensures
        create_step(store, new) matches Ok(rows) ==> {
            &&& rows.last() == new
            &&& forall|row: MemoryRetrievalRow<Seq<char>>| #[trigger]
                rows.contains(row) <==> row == new || (store.retrievals.contains(row)
                    && row.expires_at > new.created_at && !(row.user_id == new.user_id
                    && row.conversation_id == new.conversation_id && row.prompt_hash
                    == new.prompt_hash && row.retrieval_version == new.retrieval_version))
            &&& exists|c: int|
                0 <= c < store.conversations.len() && (#[trigger] store.conversations[c]).id
                    == new.conversation_id && store.conversations[c].user_id == new.user_id
            &&& json_text_list(new.selected_ids_json) is Ok
            &&& forall|k: int|
                0 <= k < json_text_list(new.selected_ids_json)->Ok_0.len() ==> has_entry_of(
                    store.entries,
                    new.user_id,
                    #[trigger] json_text_list(new.selected_ids_json)->Ok_0[k],
                )
        },
{
    if let Ok(rows) = create_step(store, new) {
        let over = expired(new.created_at);
        let live = removed(store.retrievals, over);
        let left = removed(live, replaced_by(new));
        law_removed(store.retrievals, over);
        law_removed(live, replaced_by(new));
        assert(rows == left.push(new));
        assert forall|row: MemoryRetrievalRow<Seq<char>>| #[trigger]
            rows.contains(row) <==> row == new || (store.retrievals.contains(row) && row.expires_at
                > new.created_at && !(row.user_id == new.user_id && row.conversation_id
                == new.conversation_id && row.prompt_hash == new.prompt_hash
                && row.retrieval_version == new.retrieval_version)) by {
            assert(left.contains(row) == (live.contains(row) && !replaced_by(new)(row)));
            assert(live.contains(row) == (store.retrievals.contains(row) && !over(row)));
            if left.contains(row) {
                let k = choose|k: int| 0 <= k < left.len() && left[k] == row;
                assert(rows[k] == row);
            }
            if rows.contains(row) && row != new {
                let k = choose|k: int| 0 <= k < rows.len() && rows[k] == row;
                assert(left[k] == row);
            }
            assert(rows[left.len() as int] == new);
        }
        let hit = conversation_of(new.user_id, new.conversation_id);
        let c = choose|c: int|
            0 <= c < store.conversations.len() && hit(#[trigger] store.conversations[c]);
        assert(store.conversations[c].id == new.conversation_id);
        lemma_owned_entries(
            store.entries,
            new.user_id,
            json_text_list(new.selected_ids_json)->Ok_0,
        );
    }
}

/// Retrievals whose time is over are deleted, and no others.
pub proof fn law_expired_retrievals_go(rows: Seq<MemoryRetrievalRow<Seq<char>>>, now: i64)
    ensures
        forall|row: MemoryRetrievalRow<Seq<char>>| #[trigger]
            removed(rows, expired(now)).contains(row) <==> rows.contains(row) && row.expires_at
                > now,
{
    law_removed(rows, expired(now));
    assert forall|row: MemoryRetrievalRow<Seq<char>>| #[trigger]
        removed(rows, expired(now)).contains(row) <==> rows.contains(row) && row.expires_at
            > now by {
        assert(expired(now)(row) == (row.expires_at <= now));
    }
}

/// A retrieval is shown to its owner alone, as it is stored.
pub proof fn law_retrieval_is_for_its_owner(
    rows: Seq<MemoryRetrievalRow<Seq<char>>>,
    user: Seq<char>,
    id: Seq<char>,
)
    ensures
        retrieval_for(rows, user, id) matches Ok(Some(row)) ==> rows.contains(row) && row.id == id
            && row.user_id == user,
        retrieval_for(rows, user, id) matches Ok(None) ==> forall|i: int|
            0 <= i < rows.len() ==> (#[trigger] rows[i]).id != id,
        retrieval_for(rows, user, id) is Err ==> exists|i: int|
            0 <= i < rows.len() && (#[trigger] rows[i]).id == id && rows[i].user_id != user,
{
    let hit = retrieval_with_id(id);
    lemma_lookup(rows, hit);
    if let Some(row) = lookup(rows, hit) {
        let i = choose|i: int| 0 <= i < rows.len() && rows[i] == row;
        assert(rows[i].id == id);
    } else {
        assert forall|i: int| 0 <= i < rows.len() implies (#[trigger] rows[i]).id != id by {
            assert(!hit(rows[i]));
        }
    }
}

/// The state of an import is the one that was reported last, until one reported
/// it over; then it stays. Other users' states are as they were.
pub proof fn law_import_is_followed(
    rows: Seq<MemoryImportStateRow<Seq<char>>>,
    state: MemoryImportStateRow<Seq<char>>,
)
    ensures
        ({
            let after = imports_with(rows, state);
            &&& forall|i: int|
                0 <= i < rows.len() && rows[i].user_id != state.user_id ==> #[trigger] after[i]
                    == rows[i]
            &&& forall|i: int|
                0 <= i < rows.len() && rows[i].user_id == state.user_id && rows[i].completed
                    ==> #[trigger] after[i] == rows[i]
            &&& forall|i: int|
                0 <= i < rows.len() && rows[i].user_id == state.user_id && !rows[i].completed
                    ==> #[trigger] after[i] == state && after.len() == rows.len()
            &&& (forall|i: int|
                0 <= i < rows.len() ==> (#[trigger] rows[i]).user_id != state.user_id) ==> after
                == rows.push(state) && import_after(rows, state) == state
            &&& import_after(rows, state) != state ==> import_after(rows, state).completed
                && import_after(rows, state).user_id == state.user_id && rows.contains(
                import_after(rows, state),
            )
        }),
{
    let hit = import_of(state.user_id);
    lemma_lookup(rows, hit);
    assert forall|i: int| 0 <= i < rows.len() implies hit(#[trigger] rows[i]) == (rows[i].user_id
        == state.user_id) by {}
}

/// What is remembered of a conversation is shown as it is stored.
pub proof fn law_memory_is_shown(
    memories: Seq<ConversationMemoryRow<Seq<char>>>,
    user: Seq<char>,
    id: Seq<char>,
)
    ensures
        lookup(memories, memory_of(user, id)) matches Some(row) ==> memories.contains(row)
            && row.user_id == user && row.conversation_id == id,
        lookup(memories, memory_of(user, id)) is None ==> forall|i: int|
            0 <= i < memories.len() ==> !((#[trigger] memories[i]).user_id == user
                && memories[i].conversation_id == id),
{
    let hit = memory_of(user, id);
    lemma_lookup(memories, hit);
    if lookup(memories, hit) is None {
        assert forall|i: int| 0 <= i < memories.len() implies !((#[trigger] memories[i]).user_id
            == user && memories[i].conversation_id == id) by {
            assert(!hit(memories[i]));
        }
    }
}

/// The last success is the latest time at which a job of the user's succeeded.
pub proof fn law_last_success(jobs: Seq<Job>, user: Seq<char>)
    ensures
        last_success(jobs, user) matches Some(time) ==> {
            &&& exists|i: int|
                0 <= i < jobs.len() && (#[trigger] jobs[i]).user_id == user && jobs[i].state
                    == "succeeded"@ && jobs[i].updated_at == time
            &&& forall|i: int|
                0 <= i < jobs.len() && (#[trigger] jobs[i]).user_id == user && jobs[i].state
                    == "succeeded"@ ==> jobs[i].updated_at <= time
        },
        last_success(jobs, user) is None ==> forall|i: int|
            0 <= i < jobs.len() && (#[trigger] jobs[i]).user_id == user ==> jobs[i].state
                != "succeeded"@,
{
    let hit = job_in(user, "succeeded"@);
    assert(orders(later_job()));
    law_least(jobs, hit, later_job());
    if let Some(job) = least(jobs, hit, later_job()) {
        let k = choose|k: int| 0 <= k < jobs.len() && jobs[k] == job;
        assert(jobs[k].user_id == user);
        assert forall|i: int|
            0 <= i < jobs.len() && (#[trigger] jobs[i]).user_id == user && jobs[i].state
                == "succeeded"@ implies jobs[i].updated_at <= job.updated_at by {
            assert(hit(jobs[i]));
            assert(!later_job()(jobs[i], job));
        }
    } else {
        assert forall|i: int| 0 <= i < jobs.len() && (#[trigger] jobs[i]).user_id == user
            implies jobs[i].state != "succeeded"@ by {
            assert(!hit(jobs[i]));
        }
    }
}

} // verus!

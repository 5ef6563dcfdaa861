//! What forgetting leaves behind, table by table.
use crate::memory::commit::Memory;
use crate::memory::entries::{source_from, ChangeSet, Entry, Source};
use crate::memory::finalize::entry_of;
use crate::memory::forget::{
    all_forgotten, conversation_forgotten, from_conversation, import_of, learnt_only_from,
    retrieval_of_conversation, set_of_conversation, source_elsewhere, source_of_user, turn_of_user,
    Retrieval,
};
use crate::memory::policy::{Policy, Settings};
use crate::memory::queue::{owned, Job, Turn};
use crate::memory::store::{memory_of, policy_of, settings_of, StoreModel};
use crate::table::{exists_in, law_removed, lemma_lookup, lemma_lookup_none, lookup};
use vstd::prelude::*;

verus! {

/// Whether an entry was learnt from a conversation.
pub open spec fn is_learnt_from(sources: Seq<Source>, id: Seq<char>, conversation: Seq<char>) -> bool {
    exists|i: int|
        0 <= i < sources.len() && (#[trigger] sources[i]).memory_entry_id == id
            && sources[i].conversation_id == conversation
}

/// Whether an entry was learnt from any other conversation.
pub open spec fn is_learnt_beside(
    sources: Seq<Source>,
    id: Seq<char>,
    conversation: Seq<char>,
) -> bool {
    exists|i: int|
        0 <= i < sources.len() && (#[trigger] sources[i]).memory_entry_id == id
            && sources[i].conversation_id != conversation
}

proof fn lemma_learnt(sources: Seq<Source>, id: Seq<char>, conversation: Seq<char>)
    ensures
        is_learnt_from(sources, id, conversation) == exists_in(
            sources,
            source_from(id, conversation),
        ),
        is_learnt_beside(sources, id, conversation) == exists_in(
            sources,
            source_elsewhere(id, conversation),
        ),
{
    let here = source_from(id, conversation);
    let beside = source_elsewhere(id, conversation);
    if is_learnt_from(sources, id, conversation) {
        let i = choose|i: int|
            0 <= i < sources.len() && (#[trigger] sources[i]).memory_entry_id == id
                && sources[i].conversation_id == conversation;
        assert(here(sources[i]));
    }
    if exists_in(sources, here) {
        let i = choose|i: int| 0 <= i < sources.len() && here(#[trigger] sources[i]);
        assert(sources[i].memory_entry_id == id);
    }
    if is_learnt_beside(sources, id, conversation) {
        let i = choose|i: int|
            0 <= i < sources.len() && (#[trigger] sources[i]).memory_entry_id == id
                && sources[i].conversation_id != conversation;
        assert(beside(sources[i]));
    }
    if exists_in(sources, beside) {
        let i = choose|i: int| 0 <= i < sources.len() && beside(#[trigger] sources[i]);
        assert(sources[i].memory_entry_id == id);
    }
}

/// After a conversation was forgotten its summary, its change sets and its
/// retrievals are gone, and every other of them is there: nothing is remembered
/// of it any more.
pub proof fn law_conversation_leaves_no_record(
    store: StoreModel,
    user: Seq<char>,
    conversation: Seq<char>,
    now: i64,
)
    ensures
        ({
            let after = conversation_forgotten(store, user, conversation, now);
            &&& forall|row: Memory| #[trigger]
                after.memories.contains(row) == (store.memories.contains(row) && !(row.user_id
                    == user && row.conversation_id == conversation))
            &&& lookup(after.memories, memory_of(user, conversation)) is None
            &&& forall|row: ChangeSet| #[trigger]
                after.change_sets.contains(row) == (store.change_sets.contains(row) && !(row.user_id
                    == user && row.conversation_id == conversation))
            &&& forall|row: Retrieval| #[trigger]
                after.retrievals.contains(row) == (store.retrievals.contains(row) && !(row.user_id
                    == user && row.conversation_id == conversation))
            &&& forall|row: Source| #[trigger]
                after.sources.contains(row) == (store.sources.contains(row) && row.conversation_id
                    != conversation)
            &&& after.users == store.users
            &&& after.conversations == store.conversations
            &&& after.messages == store.messages
            &&& after.settings == store.settings
            &&& after.import_states == store.import_states
            &&& after.queue.turns == store.queue.turns
        }),
{
    let after = conversation_forgotten(store, user, conversation, now);
    law_removed(store.memories, memory_of(user, conversation));
    law_removed(store.change_sets, set_of_conversation(user, conversation));
    law_removed(store.retrievals, retrieval_of_conversation(user, conversation));
    law_removed(store.sources, from_conversation(conversation));
    assert forall|i: int| 0 <= i < after.memories.len() implies !memory_of(user, conversation)(
        #[trigger] after.memories[i],
    ) by {
        assert(after.memories.contains(after.memories[i]));
    }
    lemma_lookup_none(after.memories, memory_of(user, conversation));
}

/// Forgetting a conversation takes away exactly the user's entries that were
/// learnt from it and from nowhere else, that no user's hand is on, and that are
/// no tombstones.
pub proof fn law_conversation_takes_its_entries(
    store: StoreModel,
    user: Seq<char>,
    conversation: Seq<char>,
    now: i64,
    entry: Entry,
)
    ensures
        conversation_forgotten(store, user, conversation, now).entries.contains(entry) == (
        store.entries.contains(entry) && (entry.user_id != user || entry.pinned
            || entry.user_edited || entry.state == "deleted"@ || !is_learnt_from(
            store.sources,
            entry.id,
            conversation,
        ) || is_learnt_beside(store.sources, entry.id, conversation))),
{
    law_removed(store.entries, learnt_only_from(user, conversation, store.sources));
    lemma_learnt(store.sources, entry.id, conversation);
}

/// Forgetting a conversation cancels its jobs that are not over and no others,
/// and takes their leases away.
pub proof fn law_conversation_ends_its_jobs(
    store: StoreModel,
    user: Seq<char>,
    conversation: Seq<char>,
    now: i64,
    at: int,
)
    requires
        0 <= at < store.queue.jobs.len(),
    ensures
        ({
            let before = store.queue.jobs[at];
            let jobs = conversation_forgotten(store, user, conversation, now).queue.jobs;
            let after = jobs[at];
            &&& jobs.len() == store.queue.jobs.len()
            &&& if before.user_id == user && before.conversation_id == conversation && before.state
                != "succeeded"@ && before.state != "canceled"@ {
                &&& after.state == "canceled"@
                &&& after.last_error_code == Some("canceled"@)
                &&& after.lease_owner is None
                &&& after.lease_token is None
                &&& after.lease_expires_at is None
                &&& after.reconciliation_snapshot_json is None
                &&& after.next_attempt_at is None
                &&& after.updated_at == now
                &&& keeps_its_turns(before, after)
            } else {
                after == before
            }
        }),
{
}

/// Whether a job is still the same one, of the same turns.
pub open spec fn keeps_its_turns(before: Job, after: Job) -> bool {
    &&& after.id == before.id
    &&& after.user_id == before.user_id
    &&& after.conversation_id == before.conversation_id
    &&& after.from_turn_id == before.from_turn_id
    &&& after.through_turn_id == before.through_turn_id
    &&& after.operation_version == before.operation_version
    &&& after.global_epoch == before.global_epoch
    &&& after.conversation_epoch == before.conversation_epoch
    &&& after.turn_count == before.turn_count
    &&& after.queue_digest == before.queue_digest
    &&& after.input_hash == before.input_hash
    &&& after.created_at == before.created_at
}

/// Forgetting a conversation resets its policy and begins its next epoch, keeps
/// what it says of capture and recall, and leaves every other policy alone.
pub proof fn law_conversation_is_reset(
    store: StoreModel,
    user: Seq<char>,
    conversation: Seq<char>,
    now: i64,
)
    requires
        forall|i: int|
            0 <= i < store.policies.len() && (#[trigger] store.policies[i]).user_id == user
                && store.policies[i].conversation_id == conversation
                ==> store.policies[i].lifecycle_epoch < i64::MAX,
    ensures
        ({
            let after = conversation_forgotten(store, user, conversation, now).policies;
            &&& after.len() >= store.policies.len()
            &&& forall|i: int|
                0 <= i < store.policies.len() ==> was_reset(
                    store.policies[i],
                    #[trigger] after[i],
                    user,
                    conversation,
                    now,
                )
            &&& forall|i: int|
                store.policies.len() <= i < after.len() ==> {
                    let row = #[trigger] after[i];
                    &&& row.user_id == user
                    &&& row.conversation_id == conversation
                    &&& row.capture_enabled is None
                    &&& row.recall_enabled is None
                    &&& row.reset_at == Some(now)
                    &&& row.lifecycle_epoch == 1
                    &&& row.updated_at == now
                }
            &&& exists|i: int|
                0 <= i < after.len() && (#[trigger] after[i]).user_id == user
                    && after[i].conversation_id == conversation && after[i].reset_at == Some(now)
        }),
{
    let hit = policy_of(user, conversation);
    let rows = store.policies;
    let after = conversation_forgotten(store, user, conversation, now).policies;
    lemma_lookup(rows, hit);
    match lookup(rows, hit) {
        Some(own) => {
            let k = choose|k: int| 0 <= k < rows.len() && rows[k] == own;
            assert(after[k].reset_at == Some(now));
            assert(after[k].user_id == user);
        },
        None => {
            assert(after[rows.len() as int].user_id == user);
            assert forall|i: int| 0 <= i < rows.len() implies was_reset(
                rows[i],
                #[trigger] after[i],
                user,
                conversation,
                now,
            ) by {
                assert(!hit(rows[i]));
            }
        },
    }
}

/// Whether a policy was reset if it is the conversation's, and left alone if not.
pub open spec fn was_reset(
    before: Policy,
    after: Policy,
    user: Seq<char>,
    conversation: Seq<char>,
    now: i64,
) -> bool {
    if before.user_id == user && before.conversation_id == conversation {
        &&& after.user_id == user
        &&& after.conversation_id == conversation
        &&& after.capture_enabled == before.capture_enabled
        &&& after.recall_enabled == before.recall_enabled
        &&& after.reset_at == Some(now)
        &&& after.lifecycle_epoch == before.lifecycle_epoch + 1
        &&& after.updated_at == now
    } else {
        after == before
    }
}

/// Whether an entry of the user has an id.
pub open spec fn has_entry(entries: Seq<Entry>, user: Seq<char>, id: Seq<char>) -> bool {
    exists|i: int|
        0 <= i < entries.len() && (#[trigger] entries[i]).id == id && entries[i].user_id == user
}

/// Whether a job of the user has an id.
pub open spec fn has_job(jobs: Seq<Job>, user: Seq<char>, id: Seq<char>) -> bool {
    exists|i: int|
        0 <= i < jobs.len() && (#[trigger] jobs[i]).id == id && jobs[i].user_id == user
}

/// Clearing a user's memory takes away the sources of their entries and the turns
/// of their jobs, and no other; it resets their settings and every policy of
/// theirs and ends their import, and it leaves everybody else's as they were.
pub proof fn law_clear_resets(store: StoreModel, user: Seq<char>, now: i64)
    requires
        forall|i: int|
            0 <= i < store.settings.len() && (#[trigger] store.settings[i]).user_id == user
                ==> store.settings[i].lifecycle_epoch < i64::MAX,
        forall|i: int|
            0 <= i < store.policies.len() && (#[trigger] store.policies[i]).user_id == user
                ==> store.policies[i].lifecycle_epoch < i64::MAX,
    ensures
        ({
            let after = all_forgotten(store, user, now);
            &&& forall|row: Source| #[trigger]
                after.sources.contains(row) == (store.sources.contains(row) && !has_entry(
                    store.entries,
                    user,
                    row.memory_entry_id,
                ))
            &&& forall|row: Turn| #[trigger]
                after.queue.turns.contains(row) == (store.queue.turns.contains(row) && !has_job(
                    store.queue.jobs,
                    user,
                    row.job_id,
                ))
            &&& after.policies.len() == store.policies.len()
            &&& forall|i: int|
                0 <= i < store.policies.len() ==> was_reset(
                    store.policies[i],
                    #[trigger] after.policies[i],
                    user,
                    store.policies[i].conversation_id,
                    now,
                )
            &&& after.users == store.users
            &&& after.conversations == store.conversations
            &&& after.messages == store.messages
        }),
        ({
            let after = all_forgotten(store, user, now).settings;
            &&& after.len() >= store.settings.len()
            &&& forall|i: int|
                0 <= i < store.settings.len() ==> settings_were_reset(
                    store.settings[i],
                    #[trigger] after[i],
                    user,
                    now,
                )
            &&& exists|i: int|
                0 <= i < after.len() && (#[trigger] after[i]).user_id == user && after[i].reset_at
                    == Some(now)
        }),
        ({
            let after = all_forgotten(store, user, now).import_states;
            &&& after.len() >= store.import_states.len()
            &&& forall|i: int|
                0 <= i < store.import_states.len() && store.import_states[i].user_id != user
                    ==> #[trigger] after[i] == store.import_states[i]
            &&& exists|i: int|
                0 <= i < after.len() && (#[trigger] after[i]).user_id == user && after[i].completed
                    && after[i].completed_at == Some(now)
        }),
{
    let after = all_forgotten(store, user, now);
    law_removed(store.sources, source_of_user(store.entries, user));
    law_removed(store.queue.turns, turn_of_user(store.queue.jobs, user));
    assert forall|row: Source| #[trigger]
        after.sources.contains(row) == (store.sources.contains(row) && !has_entry(
            store.entries,
            user,
            row.memory_entry_id,
        )) by {
        let hit = entry_of(row.memory_entry_id, user);
        if has_entry(store.entries, user, row.memory_entry_id) {
            let i = choose|i: int|
                0 <= i < store.entries.len() && (#[trigger] store.entries[i]).id
                    == row.memory_entry_id && store.entries[i].user_id == user;
            assert(hit(store.entries[i]));
        }
        if exists_in(store.entries, hit) {
            let i = choose|i: int| 0 <= i < store.entries.len() && hit(#[trigger] store.entries[i]);
            assert(store.entries[i].id == row.memory_entry_id);
        }
    }
    assert forall|row: Turn| #[trigger]
        after.queue.turns.contains(row) == (store.queue.turns.contains(row) && !has_job(
            store.queue.jobs,
            user,
            row.job_id,
        )) by {
        let jobs = store.queue.jobs;
        let hit = owned(row.job_id, user);
        if has_job(jobs, user, row.job_id) {
            let i = choose|i: int|
                0 <= i < jobs.len() && (#[trigger] jobs[i]).id == row.job_id && jobs[i].user_id
                    == user;
            assert(hit(jobs[i]));
        }
        if exists_in(jobs, hit) {
            let i = choose|i: int| 0 <= i < jobs.len() && hit(#[trigger] jobs[i]);
            assert(jobs[i].id == row.job_id);
        }
    }
    let own = settings_of(user);
    lemma_lookup(store.settings, own);
    if let Some(row) = lookup(store.settings, own) {
        let k = choose|k: int| 0 <= k < store.settings.len() && store.settings[k] == row;
        assert(after.settings[k].reset_at == Some(now));
    } else {
        assert(after.settings[store.settings.len() as int].reset_at == Some(now));
        assert forall|i: int| 0 <= i < store.settings.len() implies settings_were_reset(
            store.settings[i],
            #[trigger] after.settings[i],
            user,
            now,
        ) by {
            assert(!own(store.settings[i]));
        }
    }
    let mine = import_of(user);
    lemma_lookup(store.import_states, mine);
    if let Some(row) = lookup(store.import_states, mine) {
        let k = choose|k: int| 0 <= k < store.import_states.len() && store.import_states[k] == row;
        assert(after.import_states[k].completed);
    } else {
        assert(after.import_states[store.import_states.len() as int].completed);
    }
}

/// Whether settings were reset if they are the user's, and left alone if not.
pub open spec fn settings_were_reset(
    before: Settings,
    after: Settings,
    user: Seq<char>,
    now: i64,
) -> bool {
    if before.user_id == user {
        &&& after.user_id == user
        &&& after.enabled == before.enabled
        &&& after.default_capture == before.default_capture
        &&& after.default_recall == before.default_recall
        &&& after.consent_version == before.consent_version
        &&& after.reset_at == Some(now)
        &&& after.lifecycle_epoch == before.lifecycle_epoch + 1
        &&& after.updated_at == now
    } else {
        after == before
    }
}

/// A user who had no settings gets some when everything is forgotten, and they count
/// the first reset.
pub proof fn law_first_clear_counts(store: StoreModel, user: Seq<char>, now: i64)
    requires
        forall|i: int|
            0 <= i < store.settings.len() ==> (#[trigger] store.settings[i]).user_id != user,
    ensures
        ({
            let after = all_forgotten(store, user, now).settings;
            &&& after.len() == store.settings.len() + 1
            &&& after.last().user_id == user
            &&& after.last().lifecycle_epoch == 1
            &&& after.last().reset_at == Some(now)
        }),
{
    let hit = settings_of(user);
    lemma_lookup(store.settings, hit);
}

} // verus!

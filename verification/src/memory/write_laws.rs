//! When an entry is written and an update is let in.
use crate::error::DbError;
use crate::json::json_text_list;
use crate::memory::commands::{
    CommitMemoryEntryRow, CommitMemoryEntryTransition, CommitMemorySourceRow, CommitMemoryUpdateRow,
    ExpectedMemoryEntryRow,
};
use crate::memory::commit::{
    commit_fenced, commit_step, covered_by, fence_holds, hashes_hold, turn_with, CommitOutcome,
    PersistedEntries,
};
use crate::memory::commit_effects::{is_still_wanted, is_the_writers, is_worked_on};
use crate::memory::consent_laws::{keys_are_unique, lemma_earliest};
use crate::memory::enqueue::gate_of;
use crate::memory::entries::Entry;
use crate::memory::evidence::{earliest_at, of_turn, snapshot_of};
use crate::memory::finalize::{reconciled, snapshot_turns};
use crate::memory::ledger::{
    conflicting, entry_with_id, expected, expected_free, expected_protected, message_of_turn,
    messages_check, other_active, roughly_expected, source_check, sources_check, superseded,
    write_entry, Ledger, WriteContext,
};
use crate::memory::ledger_laws::{is_active_elsewhere, is_believed};
use crate::memory::queue::{owned, Turn};
use crate::memory::queue_laws::distinct_ids;
use crate::memory::rows::{ConversationRow, TurnMessageRow};
use crate::memory::store::{conversation_of, policy_of, settings_of, StoreModel};
use crate::table::{exists_in, lemma_lookup, lookup, selected, updated};
use crate::text::opt_text;
use vstd::prelude::*;

verus! {

// ----------------------------------------------------------------------------
// Sources
// ----------------------------------------------------------------------------

/// Whether a user has a conversation.
pub open spec fn has_conversation(
    rows: Seq<ConversationRow<Seq<char>>>,
    user: Seq<char>,
    id: Seq<char>,
) -> bool {
    exists|i: int| 0 <= i < rows.len() && (#[trigger] rows[i]).id == id && rows[i].user_id == user
}

/// Whether a message is of a turn of a conversation.
pub open spec fn has_message(
    messages: Seq<TurnMessageRow<Seq<char>>>,
    id: Seq<char>,
    conversation: Seq<char>,
    turn: Seq<char>,
) -> bool {
    exists|i: int|
        0 <= i < messages.len() && (#[trigger] messages[i]).message.id == id
            && messages[i].message.conversation_id == conversation && messages[i].message.turn_id
            == Some(turn)
}

/// Whether a source holds up: it is a turn of a conversation of the user's, and
/// names messages of that turn, at least one.
pub open spec fn holds_up(
    conversations: Seq<ConversationRow<Seq<char>>>,
    messages: Seq<TurnMessageRow<Seq<char>>>,
    user: Seq<char>,
    source: CommitMemorySourceRow,
) -> bool {
    let ids = json_text_list(source.message_ids_json@);
    &&& has_conversation(conversations, user, source.conversation_id@)
    &&& ids is Ok
    &&& ids->Ok_0.len() > 0
    &&& forall|k: int|
        0 <= k < ids->Ok_0.len() ==> has_message(
            messages,
            #[trigger] ids->Ok_0[k],
            source.conversation_id@,
            source.turn_id@,
        )
}

proof fn lemma_has_message(
    messages: Seq<TurnMessageRow<Seq<char>>>,
    id: Seq<char>,
    conversation: Seq<char>,
    turn: Seq<char>,
)
    ensures
        exists_in(messages, message_of_turn(id, conversation, turn)) == has_message(
            messages,
            id,
            conversation,
            turn,
        ),
{
    let hit = message_of_turn(id, conversation, turn);
    if exists_in(messages, hit) {
        let i = choose|i: int| 0 <= i < messages.len() && hit(#[trigger] messages[i]);
        assert(messages[i].message.id == id);
    }
    if has_message(messages, id, conversation, turn) {
        let i = choose|i: int|
            0 <= i < messages.len() && (#[trigger] messages[i]).message.id == id
                && messages[i].message.conversation_id == conversation
                && messages[i].message.turn_id == Some(turn);
        assert(hit(messages[i]));
    }
}

proof fn lemma_messages_checked(
    messages: Seq<TurnMessageRow<Seq<char>>>,
    source: CommitMemorySourceRow,
    ids: Seq<Seq<char>>,
)
    ensures
        messages_check(messages, source, ids) is Ok <==> forall|k: int|
            0 <= k < ids.len() ==> has_message(
                messages,
                #[trigger] ids[k],
                source.conversation_id@,
                source.turn_id@,
            ),
    decreases ids.len(),
{
    if ids.len() > 0 {
        let head = ids.drop_last();
        lemma_messages_checked(messages, source, head);
        lemma_has_message(messages, ids.last(), source.conversation_id@, source.turn_id@);
        assert(ids[ids.len() - 1] == ids.last());
        assert(forall|k: int| 0 <= k < head.len() ==> #[trigger] head[k] == ids[k]);
        if messages_check(messages, source, head) is Ok {
            assert forall|k: int| 0 <= k < ids.len() - 1 implies has_message(
                messages,
                #[trigger] ids[k],
                source.conversation_id@,
                source.turn_id@,
            ) by {
                assert(head[k] == ids[k]);
            }
        } else {
            let k = choose|k: int|
                0 <= k < head.len() && !has_message(
                    messages,
                    #[trigger] head[k],
                    source.conversation_id@,
                    source.turn_id@,
                );
            assert(!has_message(
                messages,
                ids[k],
                source.conversation_id@,
                source.turn_id@,
            ));
        }
    }
}

proof fn lemma_source_checked(
    conversations: Seq<ConversationRow<Seq<char>>>,
    messages: Seq<TurnMessageRow<Seq<char>>>,
    user: Seq<char>,
    source: CommitMemorySourceRow,
)
    ensures
        source_check(
            conversations,
            messages,
            user,
            source,
            json_text_list(source.message_ids_json@),
        ) is Ok <==> holds_up(conversations, messages, user, source),
{
    let hit = conversation_of(user, source.conversation_id@);
    let turn = of_turn(source.conversation_id@, source.turn_id@);
    if exists_in(conversations, hit) {
        let i = choose|i: int| 0 <= i < conversations.len() && hit(#[trigger] conversations[i]);
        assert(conversations[i].id == source.conversation_id@);
    }
    if has_conversation(conversations, user, source.conversation_id@) {
        let i = choose|i: int|
            0 <= i < conversations.len() && (#[trigger] conversations[i]).id
                == source.conversation_id@ && conversations[i].user_id == user;
        assert(hit(conversations[i]));
    }
    if let Ok(ids) = json_text_list(source.message_ids_json@) {
        lemma_messages_checked(messages, source, ids);
        if holds_up(conversations, messages, user, source) {
            assert(has_message(messages, ids[0], source.conversation_id@, source.turn_id@));
            let i = choose|i: int|
                0 <= i < messages.len() && (#[trigger] messages[i]).message.id == ids[0]
                    && messages[i].message.conversation_id == source.conversation_id@
                    && messages[i].message.turn_id == Some(source.turn_id@);
            assert(turn(messages[i]));
        }
    }
}

/// Sources are accepted exactly where each of them holds up.
pub proof fn law_sources_hold_up(
    conversations: Seq<ConversationRow<Seq<char>>>,
    messages: Seq<TurnMessageRow<Seq<char>>>,
    user: Seq<char>,
    sources: Seq<CommitMemorySourceRow>,
)
    ensures
        sources_check(conversations, messages, user, sources) is Ok <==> forall|k: int|
            0 <= k < sources.len() ==> holds_up(
                conversations,
                messages,
                user,
                #[trigger] sources[k],
            ),
    decreases sources.len(),
{
    if sources.len() > 0 {
        let head = sources.drop_last();
        law_sources_hold_up(conversations, messages, user, head);
        lemma_source_checked(conversations, messages, user, sources.last());
        assert(sources[sources.len() - 1] == sources.last());
        if sources_check(conversations, messages, user, head) is Ok {
            assert forall|k: int| 0 <= k < sources.len() - 1 implies holds_up(
                conversations,
                messages,
                user,
                #[trigger] sources[k],
            ) by {
                assert(head[k] == sources[k]);
            }
        } else {
            let k = choose|k: int|
                0 <= k < head.len() && !holds_up(
                    conversations,
                    messages,
                    user,
                    #[trigger] head[k],
                );
            assert(!holds_up(conversations, messages, user, sources[k]));
        }
    }
}

// ----------------------------------------------------------------------------
// Entries
// ----------------------------------------------------------------------------

proof fn lemma_one_selected(entries: Seq<Entry>, hit: spec_fn(Entry) -> bool, at: int)
    requires
        0 <= at < entries.len(),
        hit(entries[at]),
        forall|i: int| 0 <= i < entries.len() && i != at ==> !hit(#[trigger] entries[i]),
    ensures
        selected(entries, hit).len() == 1,
    decreases entries.len(),
{
    let head = entries.drop_last();
    if at == entries.len() - 1 {
        lemma_none_selected(head, hit);
    } else {
        assert(!hit(entries[entries.len() - 1]));
        lemma_one_selected(head, hit, at);
    }
}

proof fn lemma_none_selected(entries: Seq<Entry>, hit: spec_fn(Entry) -> bool)
    requires
        forall|i: int| 0 <= i < entries.len() ==> !hit(#[trigger] entries[i]),
    ensures
        selected(entries, hit).len() == 0,
    decreases entries.len(),
{
    if entries.len() > 0 {
        assert(!hit(entries[entries.len() - 1]));
        lemma_none_selected(entries.drop_last(), hit);
    }
}

/// Whether no entry has an id.
pub open spec fn id_is_free(entries: Seq<Entry>, id: Seq<char>) -> bool {
    forall|i: int| 0 <= i < entries.len() ==> (#[trigger] entries[i]).id != id
}

/// Whether the entry that a writer means is there as the writer believes.
pub open spec fn is_there(
    entries: Seq<Entry>,
    at: int,
    target: ExpectedMemoryEntryRow,
    user: Seq<char>,
) -> bool {
    0 <= at < entries.len() && is_believed(entries[at], target, user) && target.state@ == "active"@
}

/// Whether a transition can be carried out: what it changes is there as the writer
/// believes, no user's hand is on it, or is on it where that is what the
/// transition is for, no other active entry has the identity that the written one
/// will have, and the new id is free.
pub open spec fn can_be_carried_out(
    entries: Seq<Entry>,
    written: CommitMemoryEntryRow,
    user: Seq<char>,
    at: int,
) -> bool {
    match written.transition {
        CommitMemoryEntryTransition::Create => !is_active_elsewhere(
            entries,
            user,
            written.fingerprint@,
            None,
        ) && id_is_free(entries, written.id@),
        CommitMemoryEntryTransition::Refine { target } => is_there(entries, at, target, user)
            && !entries[at].pinned && !entries[at].user_edited && !is_active_elsewhere(
            entries,
            user,
            written.fingerprint@,
            Some(target.id@),
        ),
        CommitMemoryEntryTransition::Supersede { target } => is_there(entries, at, target, user)
            && !entries[at].pinned && !entries[at].user_edited && !is_active_elsewhere(
            entries,
            user,
            written.fingerprint@,
            Some(target.id@),
        ) && id_is_free(entries, written.id@),
        CommitMemoryEntryTransition::Conflict { target, conflict_group_id } => is_there(
            entries,
            at,
            target,
            user,
        ) && id_is_free(entries, written.id@),
        CommitMemoryEntryTransition::AttachSource { target } => is_there(entries, at, target, user)
            && (entries[at].pinned || entries[at].user_edited) && target.fingerprint@
            == written.fingerprint@ && opt_text(target.project_id) == opt_text(written.project_id)
            && opt_text(target.workspace_key) == opt_text(written.workspace_key) && opt_text(
            target.content,
        ) == Some(written.content@),
    }
}

/// An entry whose transition can be carried out, and whose sources hold up, is
/// written.
pub proof fn law_entry_is_owed(
    conversations: Seq<ConversationRow<Seq<char>>>,
    messages: Seq<TurnMessageRow<Seq<char>>>,
    ledger: Ledger,
    written: CommitMemoryEntryRow,
    context: WriteContext,
    at: int,
)
    requires
        forall|i: int, j: int|
            0 <= i < ledger.entries.len() && 0 <= j < ledger.entries.len() && (
            #[trigger] ledger.entries[i]).id == (#[trigger] ledger.entries[j]).id ==> i == j,
        can_be_carried_out(ledger.entries, written, context.user_id, at),
        forall|k: int|
            0 <= k < written.sources@.len() ==> holds_up(
                conversations,
                messages,
                context.user_id,
                #[trigger] written.sources@[k],
            ),
    ensures
        write_entry(conversations, messages, ledger, written, context) is Written,
{
    let entries = ledger.entries;
    let user = context.user_id;
    law_sources_hold_up(conversations, messages, user, written.sources@);
    let known = entry_with_id(written.id@);
    if exists_in(entries, known) {
        let i = choose|i: int| 0 <= i < entries.len() && known(#[trigger] entries[i]);
        assert(entries[i].id == written.id@);
    }
    match written.transition {
        CommitMemoryEntryTransition::Create => {
            let other = other_active(user, written.fingerprint@, None);
            if exists_in(entries, other) {
                let i = choose|i: int| 0 <= i < entries.len() && other(#[trigger] entries[i]);
                assert(entries[i].fingerprint == written.fingerprint@);
            }
        },
        CommitMemoryEntryTransition::Refine { target } => {
            lemma_target_found(entries, target, user, at);
            lemma_no_other(entries, user, written.fingerprint@, target.id@);
        },
        CommitMemoryEntryTransition::Supersede { target } => {
            lemma_target_found(entries, target, user, at);
            lemma_no_other(entries, user, written.fingerprint@, target.id@);
            lemma_marked_ids(entries, target, user, context.now, written.id@);
        },
        CommitMemoryEntryTransition::Conflict { target, conflict_group_id } => {
            lemma_target_found(entries, target, user, at);
            lemma_disputed_ids(
                entries,
                target,
                user,
                conflict_group_id@,
                context.now,
                written.id@,
            );
        },
        CommitMemoryEntryTransition::AttachSource { target } => {
            lemma_target_found(entries, target, user, at);
            assert(expected_protected(user, target)(entries[at]));
        },
    }
}

proof fn lemma_marked_ids(
    entries: Seq<Entry>,
    target: ExpectedMemoryEntryRow,
    user: Seq<char>,
    now: i64,
    id: Seq<char>,
)
    requires
        id_is_free(entries, id),
    ensures
        !exists_in(
            updated(
                entries,
                expected_free(user, target),
                superseded(now),
            ),
            entry_with_id(id),
        ),
{
    let after = updated(
        entries,
        expected_free(user, target),
        superseded(now),
    );
    assert forall|i: int| 0 <= i < after.len() implies !entry_with_id(id)(#[trigger] after[i]) by {
        assert(entries[i].id != id);
    }
}

proof fn lemma_disputed_ids(
    entries: Seq<Entry>,
    target: ExpectedMemoryEntryRow,
    user: Seq<char>,
    group: Seq<char>,
    now: i64,
    id: Seq<char>,
)
    requires
        id_is_free(entries, id),
    ensures
        !exists_in(
            updated(
                entries,
                roughly_expected(user, target),
                conflicting(group, now),
            ),
            entry_with_id(id),
        ),
{
    let after = updated(
        entries,
        roughly_expected(user, target),
        conflicting(group, now),
    );
    assert forall|i: int| 0 <= i < after.len() implies !entry_with_id(id)(#[trigger] after[i]) by {
        assert(entries[i].id != id);
    }
}

proof fn lemma_target_found(
    entries: Seq<Entry>,
    target: ExpectedMemoryEntryRow,
    user: Seq<char>,
    at: int,
)
    requires
        forall|i: int, j: int|
            0 <= i < entries.len() && 0 <= j < entries.len() && (#[trigger] entries[i]).id == (
            #[trigger] entries[j]).id ==> i == j,
        is_there(entries, at, target, user),
    ensures
        lookup(entries, entry_with_id(target.id@)) == Some(entries[at]),
        lookup(entries, expected(user, target)) == Some(entries[at]),
        selected(entries, roughly_expected(user, target)).len() == 1,
        !entries[at].pinned && !entries[at].user_edited ==> selected(
            entries,
            expected_free(user, target),
        ).len() == 1,
{
    let known = entry_with_id(target.id@);
    let rough = roughly_expected(user, target);
    let exact = expected(user, target);
    let free = expected_free(user, target);
    lemma_lookup(entries, known);
    lemma_lookup(entries, exact);
    assert(known(entries[at]) && rough(entries[at]) && exact(entries[at]));
    assert forall|i: int| 0 <= i < entries.len() && i != at implies !known(#[trigger] entries[i])
        && !rough(entries[i]) && !exact(entries[i]) && !free(entries[i]) by {
        assert(entries[i].id != entries[at].id);
    }
    let a = choose|a: int|
        0 <= a < entries.len() && Some(entries[a]) == lookup(entries, known);
    let b = choose|b: int|
        0 <= b < entries.len() && Some(entries[b]) == lookup(entries, exact);
    assert(known(entries[a]) && exact(entries[b]));
    lemma_one_selected(entries, rough, at);
    if !entries[at].pinned && !entries[at].user_edited {
        assert(free(entries[at]));
        lemma_one_selected(entries, free, at);
    }
}

proof fn lemma_no_other(
    entries: Seq<Entry>,
    user: Seq<char>,
    fingerprint: Seq<char>,
    id: Seq<char>,
)
    requires
        !is_active_elsewhere(entries, user, fingerprint, Some(id)),
    ensures
        !exists_in(entries, other_active(user, fingerprint, Some(id))),
{
    let other = other_active(user, fingerprint, Some(id));
    if exists_in(entries, other) {
        let i = choose|i: int| 0 <= i < entries.len() && other(#[trigger] entries[i]);
        assert(entries[i].fingerprint == fingerprint);
    }
}

// ----------------------------------------------------------------------------
// Updates
// ----------------------------------------------------------------------------

proof fn lemma_hashes_hold(
    messages: Seq<TurnMessageRow<Seq<char>>>,
    conversation_id: Seq<char>,
    list: Seq<Turn>,
    count: int,
    k: int,
)
    requires
        hashes_hold(messages, conversation_id, list, count) == Ok::<
            bool,
            DbError<Seq<char>>,
        >(true),
        0 <= k < count,
    ensures
        snapshot_of(messages, conversation_id, list[k].turn_id) matches Ok(snapshot)
            && snapshot.hash == list[k].turn_hash,
    decreases count,
{
    if k < count - 1 {
        lemma_hashes_hold(messages, conversation_id, list, count - 1, k);
    }
}

/// An update is committed only where every turn of its job still is what the
/// writer worked on, and, where the job says what entries it was written against,
/// those are as they were.
pub proof fn law_update_is_of_the_present(
    store: StoreModel,
    input: CommitMemoryUpdateRow,
    persisted: PersistedEntries,
)
    requires
        distinct_ids(store.queue.jobs),
    ensures
        commit_step(store, input, persisted) matches Ok(CommitOutcome::Committed { .. })
            ==> exists|j: int|
            #![trigger store.queue.jobs[j]]
            {
                let job = store.queue.jobs[j];
                let list = snapshot_turns(store.queue.turns, input.job_id@);
                &&& 0 <= j < store.queue.jobs.len()
                &&& job.id == input.job_id@
                &&& job.user_id == input.user_id@
                &&& list.len() == job.turn_count
                &&& forall|k: int|
                    0 <= k < list.len() ==> is_as_hashed(
                        store.messages,
                        job.conversation_id,
                        (#[trigger] list[k]).turn_id,
                        list[k].turn_hash,
                    )
                &&& job.reconciliation_snapshot_json is Some ==> (
                persisted matches PersistedEntries::Listed(entries) && reconciled(
                    store.entries,
                    input.user_id@,
                    entries@,
                ))
            },
{
    lemma_lookup(store.queue.jobs, owned(input.job_id@, input.user_id@));
    if let Ok(CommitOutcome::Committed { .. }) = commit_step(store, input, persisted) {
        let job = lookup(store.queue.jobs, owned(input.job_id@, input.user_id@))->0;
        let j = choose|j: int| 0 <= j < store.queue.jobs.len() && store.queue.jobs[j] == job;
        let list = snapshot_turns(store.queue.turns, input.job_id@);
        assert forall|k: int| 0 <= k < list.len() implies is_as_hashed(
            store.messages,
            job.conversation_id,
            (#[trigger] list[k]).turn_id,
            list[k].turn_hash,
        ) by {
            lemma_hashes_hold(
                store.messages,
                job.conversation_id,
                list,
                list.len() as int,
                k,
            );
        }
        assert(store.queue.jobs[j] == job);
    }
}

/// Whether the messages of a turn hash to what was stored.
pub open spec fn is_as_hashed(
    messages: Seq<TurnMessageRow<Seq<char>>>,
    conversation_id: Seq<char>,
    turn_id: Seq<char>,
    hash: Seq<char>,
) -> bool {
    snapshot_of(messages, conversation_id, turn_id) matches Ok(snapshot) && snapshot.hash == hash
}

/// An update from the writer who holds the job, of a conversation of the user's
/// that is still wanted and was not reset, is let in.
pub proof fn law_update_is_let_in(
    store: StoreModel,
    input: CommitMemoryUpdateRow,
    persisted: PersistedEntries,
    j: int,
    s: int,
)
    requires
        keys_are_unique(store),
        distinct_ids(store.queue.jobs),
        has_conversation(store.conversations, input.user_id@, input.conversation_id@),
        0 <= j < store.queue.jobs.len(),
        0 <= s < store.settings.len(),
        is_the_writers(store.queue.jobs[j], input),
        is_still_wanted(store.settings[s], store.policies, store.queue.jobs[j]),
        exists|m: int|
            0 <= m < store.messages.len() && is_worked_on(
                #[trigger] store.messages[m],
                store,
                input.job_id@,
            ),
        store.settings[s].reset_at is None,
        forall|p: int|
            0 <= p < store.policies.len() && (#[trigger] store.policies[p]).user_id
                == input.user_id@ && store.policies[p].conversation_id == input.conversation_id@
                ==> store.policies[p].reset_at is None,
    ensures
        commit_step(store, input, persisted) == commit_fenced(
            store,
            store.queue.jobs[j],
            input,
            persisted,
        ),
{
    let user = input.user_id@;
    let id = input.conversation_id@;
    let jobs = store.queue.jobs;
    let own = conversation_of(user, id);
    let c = choose|c: int|
        0 <= c < store.conversations.len() && (#[trigger] store.conversations[c]).id == id
            && store.conversations[c].user_id == user;
    assert(own(store.conversations[c]));
    lemma_lookup(jobs, owned(input.job_id@, user));
    assert(owned(input.job_id@, user)(jobs[j]));
    let job = lookup(jobs, owned(input.job_id@, user))->0;
    let b = choose|b: int| 0 <= b < jobs.len() && jobs[b] == job;
    if b != j {
        assert(jobs[b].id != jobs[j].id);
    }
    lemma_lookup(store.settings, settings_of(user));
    assert(settings_of(user)(store.settings[s]));
    let settings = lookup(store.settings, settings_of(user))->0;
    let t = choose|t: int| 0 <= t < store.settings.len() && store.settings[t] == settings;
    assert(store.settings[t].user_id == user);
    lemma_lookup(store.policies, policy_of(user, id));
    let policy = lookup(store.policies, policy_of(user, id));
    if let Some(row) = policy {
        let p = choose|p: int| 0 <= p < store.policies.len() && store.policies[p] == row;
        assert(policy_of(user, id)(store.policies[p]));
    } else {
        assert forall|p: int| 0 <= p < store.policies.len() implies !((
        #[trigger] store.policies[p]).user_id == user && store.policies[p].conversation_id
            == id) by {
            assert(!policy_of(user, id)(store.policies[p]));
        }
    }
    let covered = covered_by(store.queue.turns, job.id);
    lemma_earliest(store.messages, covered);
    let m = choose|m: int|
        0 <= m < store.messages.len() && is_worked_on(
            #[trigger] store.messages[m],
            store,
            input.job_id@,
        );
    let row = store.messages[m];
    let turn = turn_with(job.id, row.message.conversation_id, row.message.turn_id);
    let q = choose|q: int|
        0 <= q < store.queue.turns.len() && (#[trigger] store.queue.turns[q]).job_id
            == input.job_id@ && store.queue.turns[q].conversation_id == row.message.conversation_id
            && Some(store.queue.turns[q].turn_id) == row.message.turn_id;
    assert(turn(store.queue.turns[q]));
    assert(covered(store.messages[m]));
    assert(fence_holds(
        job,
        gate_of(settings, policy),
        earliest_at(store.messages, covered),
        input,
    ));
}

} // verus!

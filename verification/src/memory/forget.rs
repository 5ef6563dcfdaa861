//! Forgetting: what was learnt from one conversation, or all that a user's
//! memory holds.
use crate::error::DbError;
use crate::memory::commit::Memory;
use crate::memory::entries::{source_from, ChangeSet, Entry, Source};
use crate::memory::finalize::entry_of;
use crate::memory::leases::{apply_canceled, canceled};
use crate::memory::policy::{
    default_settings, policies_with, policy_can_grow, settings_can_grow, Policy, Settings,
};
use crate::memory::queue::{owned, Job, QueueModel, Turn};
use crate::memory::rows::{
    ConversationMemoryRow, MemoryChangeSetRow, MemoryEntryDbRow, MemoryImportStateRow, MemoryJobRow,
    MemoryRetrievalRow, MemorySettingsRow, MemorySourceRow, StoredJobTurnRow, StoredMemoryPolicyRow,
};
use crate::memory::store::{
    conversation_check, ensure_conversation, ensure_user, find_settings, memory_of, policy_of,
    settings_of, user_check, MemoryStore, StoreModel,
};
use crate::table::{
    any_where, copy_rows, delete_where, exists_in, find_where, law_removed, lookup, model, removed,
    update_where, updated, Record,
};
use crate::text::same;
use vstd::prelude::*;

verus! {

/// The model of a stored retrieval.
pub type Retrieval = MemoryRetrievalRow<Seq<char>>;

/// The model of an import's state.
pub type ImportState = MemoryImportStateRow<Seq<char>>;

// ----------------------------------------------------------------------------
// One conversation
// ----------------------------------------------------------------------------

/// The sources of an entry from other conversations.
pub open spec fn source_elsewhere(entry_id: Seq<char>, conversation_id: Seq<char>) -> spec_fn(
    Source,
) -> bool {
    |source: Source|
        source.memory_entry_id == entry_id && source.conversation_id != conversation_id
}

/// The entries that were learnt from a conversation alone and that no user's
/// hand is on.
pub open spec fn learnt_only_from(
    user_id: Seq<char>,
    conversation_id: Seq<char>,
    sources: Seq<Source>,
) -> spec_fn(Entry) -> bool {
    |entry: Entry|
        {
            &&& entry.user_id == user_id
            &&& !entry.pinned
            &&& !entry.user_edited
            &&& entry.state != "deleted"@
            &&& exists_in(sources, source_from(entry.id, conversation_id))
            &&& !exists_in(sources, source_elsewhere(entry.id, conversation_id))
        }
}

/// The sources from a conversation.
pub open spec fn from_conversation(conversation_id: Seq<char>) -> spec_fn(Source) -> bool {
    |source: Source| source.conversation_id == conversation_id
}

/// A conversation's change sets.
pub open spec fn set_of_conversation(user_id: Seq<char>, conversation_id: Seq<char>) -> spec_fn(
    ChangeSet,
) -> bool {
    |row: ChangeSet| row.user_id == user_id && row.conversation_id == conversation_id
}

/// A conversation's retrievals.
pub open spec fn retrieval_of_conversation(
    user_id: Seq<char>,
    conversation_id: Seq<char>,
) -> spec_fn(
    Retrieval,
) -> bool {
    |row: Retrieval| row.user_id == user_id && row.conversation_id == conversation_id
}

/// A conversation's jobs that are not over.
pub open spec fn unfinished(
    user_id: Seq<char>,
    conversation_id: Seq<char>,
) -> spec_fn(Job) -> bool {
    |job: Job|
        job.user_id == user_id && job.conversation_id == conversation_id && job.state
            != "succeeded"@ && job.state != "canceled"@
}

/// A policy with a reset.
pub open spec fn policy_reset(now: i64) -> spec_fn(Policy) -> Policy {
    |row: Policy|
        StoredMemoryPolicyRow {
            reset_at: Some(now),
            lifecycle_epoch: (row.lifecycle_epoch + 1) as i64,
            updated_at: now,
            ..row
        }
}

/// A conversation's first policy, made by a reset.
pub open spec fn first_reset(user_id: Seq<char>, conversation_id: Seq<char>, now: i64) -> Policy {
    StoredMemoryPolicyRow {
        user_id,
        conversation_id,
        capture_enabled: None,
        recall_enabled: None,
        reset_at: Some(now),
        lifecycle_epoch: 1,
        updated_at: now,
    }
}

/// The store after a conversation was forgotten.
pub open spec fn conversation_forgotten(
    store: StoreModel,
    user_id: Seq<char>,
    conversation_id: Seq<char>,
    now: i64,
) -> StoreModel {
    StoreModel {
        entries: removed(
            store.entries,
            learnt_only_from(user_id, conversation_id, store.sources),
        ),
        sources: removed(store.sources, from_conversation(conversation_id)),
        memories: removed(store.memories, memory_of(user_id, conversation_id)),
        change_sets: removed(store.change_sets, set_of_conversation(user_id, conversation_id)),
        retrievals: removed(
            store.retrievals,
            retrieval_of_conversation(user_id, conversation_id),
        ),
        queue: QueueModel {
            jobs: updated(
                store.queue.jobs,
                unfinished(user_id, conversation_id),
                canceled(now),
            ),
            turns: store.queue.turns,
        },
        policies: policies_with(
            store.policies,
            first_reset(user_id, conversation_id, now),
            policy_reset(now),
        ),
        ..store
    }
}

// ----------------------------------------------------------------------------
// Everything
// ----------------------------------------------------------------------------

/// Settings with a reset.
pub open spec fn settings_reset(now: i64) -> spec_fn(Settings) -> Settings {
    |row: Settings|
        MemorySettingsRow {
            reset_at: Some(now),
            lifecycle_epoch: (row.lifecycle_epoch + 1) as i64,
            updated_at: now,
            ..row
        }
}

/// A user's first settings, made by a reset.
pub open spec fn first_settings_reset(user_id: Seq<char>, now: i64) -> Settings {
    MemorySettingsRow {
        reset_at: Some(now),
        lifecycle_epoch: 1,
        ..default_settings(user_id, now)
    }
}

/// The settings after a reset.
pub open spec fn settings_after_reset(
    rows: Seq<Settings>,
    user_id: Seq<char>,
    now: i64,
) -> Seq<Settings> {
    match lookup(rows, settings_of(user_id)) {
        Some(_) => updated(rows, settings_of(user_id), settings_reset(now)),
        None => rows.push(first_settings_reset(user_id, now)),
    }
}

/// A user's policies.
pub open spec fn policy_of_user(user_id: Seq<char>) -> spec_fn(Policy) -> bool {
    |row: Policy| row.user_id == user_id
}

/// Whether the epoch of each of the user's policies can grow by one.
pub open spec fn policies_can_grow(rows: Seq<Policy>, user_id: Seq<char>) -> bool {
    forall|i: int|
        0 <= i < rows.len() && (#[trigger] rows[i]).user_id == user_id ==> rows[i].lifecycle_epoch
            < i64::MAX
}

/// A user's import.
pub open spec fn import_of(user_id: Seq<char>) -> spec_fn(ImportState) -> bool {
    |row: ImportState| row.user_id == user_id
}

/// An import that is over.
pub open spec fn import_over(now: i64) -> spec_fn(ImportState) -> ImportState {
    |row: ImportState|
        MemoryImportStateRow { completed: true, completed_at: Some(now), updated_at: now, ..row }
}

/// An import that was over before it began.
pub open spec fn first_import_over(user_id: Seq<char>, now: i64) -> ImportState {
    MemoryImportStateRow {
        user_id,
        cursor: None,
        completed: true,
        started_at: Some(now),
        completed_at: Some(now),
        updated_at: now,
    }
}

/// The imports after a reset.
pub open spec fn imports_after_reset(rows: Seq<ImportState>, user_id: Seq<char>, now: i64) -> Seq<
    ImportState,
> {
    match lookup(rows, import_of(user_id)) {
        Some(_) => updated(rows, import_of(user_id), import_over(now)),
        None => rows.push(first_import_over(user_id, now)),
    }
}

/// A user's retrievals.
pub open spec fn retrieval_of_user(user_id: Seq<char>) -> spec_fn(Retrieval) -> bool {
    |row: Retrieval| row.user_id == user_id
}

/// A user's change sets.
pub open spec fn set_of_user(user_id: Seq<char>) -> spec_fn(ChangeSet) -> bool {
    |row: ChangeSet| row.user_id == user_id
}

/// What is remembered of a user's conversations.
pub open spec fn memory_of_user(user_id: Seq<char>) -> spec_fn(Memory) -> bool {
    |row: Memory| row.user_id == user_id
}

/// A user's entries.
pub open spec fn entry_of_user(user_id: Seq<char>) -> spec_fn(Entry) -> bool {
    |row: Entry| row.user_id == user_id
}

/// A user's jobs.
pub open spec fn job_of_user(user_id: Seq<char>) -> spec_fn(Job) -> bool {
    |row: Job| row.user_id == user_id
}

/// The sources of a user's entries.
pub open spec fn source_of_user(
    entries: Seq<Entry>,
    user_id: Seq<char>,
) -> spec_fn(Source) -> bool {
    |source: Source|
        exists_in(entries, entry_of(source.memory_entry_id, user_id))
}

/// The turns of a user's jobs.
pub open spec fn turn_of_user(jobs: Seq<Job>, user_id: Seq<char>) -> spec_fn(Turn) -> bool {
    |turn: Turn| exists_in(jobs, owned(turn.job_id, user_id))
}

/// The store after a user's memory was cleared. What belongs to an entry or a job
/// goes with it.
pub open spec fn all_forgotten(store: StoreModel, user_id: Seq<char>, now: i64) -> StoreModel {
    StoreModel {
        settings: settings_after_reset(store.settings, user_id, now),
        policies: updated(store.policies, policy_of_user(user_id), policy_reset(now)),
        import_states: imports_after_reset(store.import_states, user_id, now),
        retrievals: removed(store.retrievals, retrieval_of_user(user_id)),
        change_sets: removed(store.change_sets, set_of_user(user_id)),
        memories: removed(store.memories, memory_of_user(user_id)),
        entries: removed(store.entries, entry_of_user(user_id)),
        sources: removed(store.sources, source_of_user(store.entries, user_id)),
        queue: QueueModel {
            jobs: removed(store.queue.jobs, job_of_user(user_id)),
            turns: removed(store.queue.turns, turn_of_user(store.queue.jobs, user_id)),
        },
        ..store
    }
}

// ----------------------------------------------------------------------------
// The same in running code
// ----------------------------------------------------------------------------

fn learnt_from(sources: &Vec<MemorySourceRow>, entry_id: &str, conversation_id: &str) -> (yes: bool)
    ensures
        yes == exists_in(model(sources@), source_from(entry_id@, conversation_id@)),
{
    any_where(
        sources,
        |source: &MemorySourceRow| -> (yes: bool)
            ensures yes == source_from(entry_id@, conversation_id@)(source@)
            {
                same(source.memory_entry_id.as_str(), entry_id) && same(
                    source.conversation_id.as_str(),
                    conversation_id,
                )
            },
        Ghost(source_from(entry_id@, conversation_id@)),
    )
}

fn learnt_elsewhere(
    sources: &Vec<MemorySourceRow>,
    entry_id: &str,
    conversation_id: &str,
) -> (yes: bool)
    ensures
        yes == exists_in(model(sources@), source_elsewhere(entry_id@, conversation_id@)),
{
    any_where(
        sources,
        |source: &MemorySourceRow| -> (yes: bool)
            ensures yes == source_elsewhere(entry_id@, conversation_id@)(source@)
            {
                same(source.memory_entry_id.as_str(), entry_id) && !same(
                    source.conversation_id.as_str(),
                    conversation_id,
                )
            },
        Ghost(source_elsewhere(entry_id@, conversation_id@)),
    )
}

fn reset_policy(row: &StoredMemoryPolicyRow, now: i64) -> (next: StoredMemoryPolicyRow)
    requires
        row.lifecycle_epoch < i64::MAX,
    ensures
        next@ == policy_reset(now)(row@),
{
    StoredMemoryPolicyRow {
        reset_at: Some(now),
        lifecycle_epoch: row.lifecycle_epoch + 1,
        updated_at: now,
        ..row.duplicate()
    }
}

impl MemoryStore {
    /// Deletes the entries that were learnt from a conversation alone, and the
    /// conversation's sources.
    fn forget_entries(&mut self, user_id: &str, conversation_id: &str)
        ensures
            final(self)@ == (StoreModel {
                entries: removed(
                    old(self)@.entries,
                    learnt_only_from(user_id@, conversation_id@, old(self)@.sources),
                ),
                sources: removed(old(self)@.sources, from_conversation(conversation_id@)),
                ..old(self)@
            }),
    {
        let sources = copy_rows(&self.sources);
        let ghost hit = learnt_only_from(user_id@, conversation_id@, model(sources@));
        let _entries: u64 = delete_where(
            &mut self.entries,
            |entry: &MemoryEntryDbRow| -> (yes: bool)
                ensures yes == hit(entry@)
                {
                    same(entry.user_id.as_str(), user_id) && !entry.pinned && !entry.user_edited
                        && !same(entry.state.as_str(), "deleted") && learnt_from(
                        &sources,
                        entry.id.as_str(),
                        conversation_id,
                    ) && !learnt_elsewhere(&sources, entry.id.as_str(), conversation_id)
                },
            Ghost(hit),
        );
        let _sources: u64 = delete_where(
            &mut self.sources,
            |source: &MemorySourceRow| -> (yes: bool)
                ensures yes == from_conversation(conversation_id@)(source@)
                { same(source.conversation_id.as_str(), conversation_id) },
            Ghost(from_conversation(conversation_id@)),
        );
    }

    /// Deletes what else is kept of a conversation.
    fn forget_records(&mut self, user_id: &str, conversation_id: &str)
        ensures
            final(self)@ == (StoreModel {
                memories: removed(old(self)@.memories, memory_of(user_id@, conversation_id@)),
                change_sets: removed(
                    old(self)@.change_sets,
                    set_of_conversation(user_id@, conversation_id@),
                ),
                retrievals: removed(
                    old(self)@.retrievals,
                    retrieval_of_conversation(user_id@, conversation_id@),
                ),
                ..old(self)@
            }),
    {
        let _memories: u64 = delete_where(
            &mut self.memories,
            |row: &ConversationMemoryRow| -> (yes: bool)
                ensures yes == memory_of(user_id@, conversation_id@)(row@)
                {
                    same(row.user_id.as_str(), user_id) && same(
                        row.conversation_id.as_str(),
                        conversation_id,
                    )
                },
            Ghost(memory_of(user_id@, conversation_id@)),
        );
        let _sets: u64 = delete_where(
            &mut self.change_sets,
            |row: &MemoryChangeSetRow| -> (yes: bool)
                ensures yes == set_of_conversation(user_id@, conversation_id@)(row@)
                {
                    same(row.user_id.as_str(), user_id) && same(
                        row.conversation_id.as_str(),
                        conversation_id,
                    )
                },
            Ghost(set_of_conversation(user_id@, conversation_id@)),
        );
        let _retrievals: u64 = delete_where(
            &mut self.retrievals,
            |row: &MemoryRetrievalRow| -> (yes: bool)
                ensures yes == retrieval_of_conversation(user_id@, conversation_id@)(row@)
                {
                    same(row.user_id.as_str(), user_id) && same(
                        row.conversation_id.as_str(),
                        conversation_id,
                    )
                },
            Ghost(retrieval_of_conversation(user_id@, conversation_id@)),
        );
    }

    /// Forgets a conversation: what was learnt from it alone, unless a user's
    /// hand is on it, its summary, its change sets and retrievals. Its jobs are
    /// canceled, and nothing said in it before now is captured any more.
    pub fn delete_conversation_memory(
        &mut self,
        user_id: &str,
        conversation_id: &str,
        now: i64,
    ) -> (result:
        Result<(), DbError>)
        requires
            policy_can_grow(old(self)@.policies, user_id@, conversation_id@),
        ensures
            match conversation_check(old(self)@.conversations, user_id@, conversation_id@) {
                Err(wanted) => {
                    &&& result matches Err(error) && error@ == wanted
                    &&& final(self)@ == old(self)@
                },
                Ok(()) => result is Ok && final(self)@ == conversation_forgotten(
                    old(self)@,
                    user_id@,
                    conversation_id@,
                    now,
                ),
            },
    {
        match ensure_conversation(&self.conversations, user_id, conversation_id) {
            Ok(()) => {},
            Err(error) => {
                return Err(error);
            },
        }
        self.forget_entries(user_id, conversation_id);
        self.forget_records(user_id, conversation_id);
        let ghost hit = unfinished(user_id@, conversation_id@);
        let _jobs: u64 = update_where(
            &mut self.queue.jobs,
            |job: &MemoryJobRow| -> (yes: bool)
                ensures yes == hit(job@)
                {
                    same(job.user_id.as_str(), user_id) && same(
                        job.conversation_id.as_str(),
                        conversation_id,
                    ) && !same(job.state.as_str(), "succeeded") && !same(
                        job.state.as_str(),
                        "canceled",
                    )
                },
            |job: &MemoryJobRow| -> (next: MemoryJobRow)
                ensures next@ == canceled(now)(job@)
                { apply_canceled(job, now) },
            Ghost(hit),
            Ghost(canceled(now)),
        );
        let first = StoredMemoryPolicyRow {
            user_id: user_id.to_owned(),
            conversation_id: conversation_id.to_owned(),
            capture_enabled: None,
            recall_enabled: None,
            reset_at: Some(now),
            lifecycle_epoch: 1,
            updated_at: now,
        };
        assert(first@ == first_reset(user_id@, conversation_id@, now));
        assert forall|i: int|
            0 <= i < self.policies.len() && policy_of(user_id@, conversation_id@)(
                (#[trigger] self.policies[i])@,
            ) implies self.policies[i].lifecycle_epoch < i64::MAX by {
            assert(old(self)@.policies[i] == self.policies[i]@);
        }
        self.put_policy(
            first,
            |row: &StoredMemoryPolicyRow| -> (next: StoredMemoryPolicyRow)
                requires row.lifecycle_epoch < i64::MAX
                ensures next@ == policy_reset(now)(row@)
                { reset_policy(row, now) },
            Ghost(policy_reset(now)),
        );
        Ok(())
    }

    /// Sets a user's settings, policies and import back.
    fn reset_user(&mut self, user_id: &str, now: i64)
        requires
            settings_can_grow(old(self)@.settings, user_id@),
            policies_can_grow(old(self)@.policies, user_id@),
        ensures
            final(self)@ == (StoreModel {
                settings: settings_after_reset(old(self)@.settings, user_id@, now),
                policies: updated(
                    old(self)@.policies,
                    policy_of_user(user_id@),
                    policy_reset(now),
                ),
                import_states: imports_after_reset(old(self)@.import_states, user_id@, now),
                ..old(self)@
            }),
    {
        match find_settings(&self.settings, user_id) {
            Some(_) => {
                let ghost hit = settings_of(user_id@);
                assert forall|i: int|
                    0 <= i < self.settings.len() && hit((#[trigger] self.settings[i])@)
                        implies self.settings[i].lifecycle_epoch
                    < i64::MAX by {
                    assert(old(self)@.settings[i] == self.settings[i]@);
                }
                let _settings: u64 = update_where(
                    &mut self.settings,
                    |row: &MemorySettingsRow| -> (yes: bool)
                        ensures yes == hit(row@)
                        { same(row.user_id.as_str(), user_id) },
                    |row: &MemorySettingsRow| -> (next: MemorySettingsRow)
                        requires row.lifecycle_epoch < i64::MAX
                        ensures next@ == settings_reset(now)(row@)
                        {
                            MemorySettingsRow {
                                reset_at: Some(now),
                                lifecycle_epoch: row.lifecycle_epoch + 1,
                                updated_at: now,
                                ..row.duplicate()
                            }
                        },
                    Ghost(hit),
                    Ghost(settings_reset(now)),
                );
            },
            None => {
                let row = MemorySettingsRow {
                    user_id: user_id.to_owned(),
                    enabled: false,
                    default_capture: true,
                    default_recall: true,
                    consent_version: None,
                    consented_at: None,
                    reset_at: Some(now),
                    lifecycle_epoch: 1,
                    updated_at: now,
                };
                let ghost before = self.settings@;
                self.settings.push(row);
                assert(model(self.settings@) =~= model(before).push(row@));
            },
        }
        assert forall|i: int|
            0 <= i < self.policies.len() && policy_of_user(user_id@)(
                (#[trigger] self.policies[i])@,
            ) implies self.policies[i].lifecycle_epoch < i64::MAX by {
            assert(old(self)@.policies[i] == self.policies[i]@);
        }
        let _policies: u64 = update_where(
            &mut self.policies,
            |row: &StoredMemoryPolicyRow| -> (yes: bool)
                ensures yes == policy_of_user(user_id@)(row@)
                { same(row.user_id.as_str(), user_id) },
            |row: &StoredMemoryPolicyRow| -> (next: StoredMemoryPolicyRow)
                requires row.lifecycle_epoch < i64::MAX
                ensures next@ == policy_reset(now)(row@)
                { reset_policy(row, now) },
            Ghost(policy_of_user(user_id@)),
            Ghost(policy_reset(now)),
        );
        let import = find_where(
            &self.import_states,
            |row: &MemoryImportStateRow| -> (yes: bool)
                ensures yes == import_of(user_id@)(row@)
                { same(row.user_id.as_str(), user_id) },
            Ghost(import_of(user_id@)),
        );
        match import {
            Some(_) => {
                let _imports: u64 = update_where(
                    &mut self.import_states,
                    |row: &MemoryImportStateRow| -> (yes: bool)
                        ensures yes == import_of(user_id@)(row@)
                        { same(row.user_id.as_str(), user_id) },
                    |row: &MemoryImportStateRow| -> (next: MemoryImportStateRow)
                        ensures next@ == import_over(now)(row@)
                        {
                            MemoryImportStateRow {
                                completed: true,
                                completed_at: Some(now),
                                updated_at: now,
                                ..row.duplicate()
                            }
                        },
                    Ghost(import_of(user_id@)),
                    Ghost(import_over(now)),
                );
            },
            None => {
                let row = MemoryImportStateRow {
                    user_id: user_id.to_owned(),
                    cursor: None,
                    completed: true,
                    started_at: Some(now),
                    completed_at: Some(now),
                    updated_at: now,
                };
                let ghost before = self.import_states@;
                self.import_states.push(row);
                assert(model(self.import_states@) =~= model(before).push(row@));
            },
        }
    }

    /// Deletes a user's jobs with their turns, and their entries with the
    /// sources.
    fn drop_owned(&mut self, user_id: &str)
        ensures
            final(self)@ == (StoreModel {
                entries: removed(old(self)@.entries, entry_of_user(user_id@)),
                sources: removed(
                    old(self)@.sources,
                    source_of_user(old(self)@.entries, user_id@),
                ),
                queue: QueueModel {
                    jobs: removed(old(self)@.queue.jobs, job_of_user(user_id@)),
                    turns: removed(
                        old(self)@.queue.turns,
                        turn_of_user(old(self)@.queue.jobs, user_id@),
                    ),
                },
                ..old(self)@
            }),
    {
        let entries = &self.entries;
        let ghost lost = source_of_user(model(entries@), user_id@);
        let _sources: u64 = delete_where(
            &mut self.sources,
            |source: &MemorySourceRow| -> (yes: bool)
                ensures yes == lost(source@)
                { has_entry(entries, source.memory_entry_id.as_str(), user_id) },
            Ghost(lost),
        );
        let jobs = &self.queue.jobs;
        let ghost left = turn_of_user(model(jobs@), user_id@);
        let _turns: u64 = delete_where(
            &mut self.queue.turns,
            |turn: &StoredJobTurnRow| -> (yes: bool)
                ensures yes == left(turn@)
                { has_owned(jobs, turn.job_id.as_str(), user_id) },
            Ghost(left),
        );
        let _entries: u64 = delete_where(
            &mut self.entries,
            |row: &MemoryEntryDbRow| -> (yes: bool)
                ensures yes == entry_of_user(user_id@)(row@)
                { same(row.user_id.as_str(), user_id) },
            Ghost(entry_of_user(user_id@)),
        );
        let _jobs: u64 = delete_where(
            &mut self.queue.jobs,
            |row: &MemoryJobRow| -> (yes: bool)
                ensures yes == job_of_user(user_id@)(row@)
                { same(row.user_id.as_str(), user_id) },
            Ghost(job_of_user(user_id@)),
        );
    }

    /// Clears a user's memory: every entry, summary, change set, retrieval and
    /// job goes, and nothing said before now is captured any more.
    pub fn clear_memory(&mut self, user_id: &str, now: i64) -> (result: Result<(), DbError>)
        requires
            settings_can_grow(old(self)@.settings, user_id@),
            policies_can_grow(old(self)@.policies, user_id@),
        ensures
            match user_check(old(self)@.users, user_id@) {
                Err(wanted) => {
                    &&& result matches Err(error) && error@ == wanted
                    &&& final(self)@ == old(self)@
                },
                Ok(()) => result is Ok && final(self)@ == all_forgotten(
                    old(self)@,
                    user_id@,
                    now,
                ),
            },
    {
        match ensure_user(&self.users, user_id) {
            Ok(()) => {},
            Err(error) => {
                return Err(error);
            },
        }
        self.reset_user(user_id, now);
        let _retrievals: u64 = delete_where(
            &mut self.retrievals,
            |row: &MemoryRetrievalRow| -> (yes: bool)
                ensures yes == retrieval_of_user(user_id@)(row@)
                { same(row.user_id.as_str(), user_id) },
            Ghost(retrieval_of_user(user_id@)),
        );
        let _sets: u64 = delete_where(
            &mut self.change_sets,
            |row: &MemoryChangeSetRow| -> (yes: bool)
                ensures yes == set_of_user(user_id@)(row@)
                { same(row.user_id.as_str(), user_id) },
            Ghost(set_of_user(user_id@)),
        );
        let _memories: u64 = delete_where(
            &mut self.memories,
            |row: &ConversationMemoryRow| -> (yes: bool)
                ensures yes == memory_of_user(user_id@)(row@)
                { same(row.user_id.as_str(), user_id) },
            Ghost(memory_of_user(user_id@)),
        );
        self.drop_owned(user_id);
        Ok(())
    }
}

fn has_entry(entries: &Vec<MemoryEntryDbRow>, id: &str, user_id: &str) -> (yes: bool)
    ensures
        yes == exists_in(model(entries@), entry_of(id@, user_id@)),
{
    any_where(
        entries,
        |entry: &MemoryEntryDbRow| -> (yes: bool)
            ensures yes == entry_of(id@, user_id@)(entry@)
            { same(entry.id.as_str(), id) && same(entry.user_id.as_str(), user_id) },
        Ghost(entry_of(id@, user_id@)),
    )
}

fn has_owned(jobs: &Vec<MemoryJobRow>, id: &str, user_id: &str) -> (yes: bool)
    ensures
        yes == exists_in(model(jobs@), owned(id@, user_id@)),
{
    any_where(
        jobs,
        |job: &MemoryJobRow| -> (yes: bool)
            ensures yes == owned(id@, user_id@)(job@)
            { same(job.id.as_str(), id) && same(job.user_id.as_str(), user_id) },
        Ghost(owned(id@, user_id@)),
    )
}

// ----------------------------------------------------------------------------
// What forgetting promises
// ----------------------------------------------------------------------------

/// After a user's memory was cleared nothing is remembered for them, and what is
/// remembered for others is as it was.
pub proof fn law_clear_forgets(store: StoreModel, user_id: Seq<char>, now: i64)
    ensures
        ({
            let after = all_forgotten(store, user_id, now);
            &&& forall|row: Entry| #[trigger]
                after.entries.contains(row) == (store.entries.contains(row) && row.user_id
                    != user_id)
            &&& forall|row: Memory| #[trigger]
                after.memories.contains(row) == (store.memories.contains(row) && row.user_id
                    != user_id)
            &&& forall|row: ChangeSet| #[trigger]
                after.change_sets.contains(row) == (store.change_sets.contains(row) && row.user_id
                    != user_id)
            &&& forall|row: Retrieval| #[trigger]
                after.retrievals.contains(row) == (store.retrievals.contains(row) && row.user_id
                    != user_id)
            &&& forall|row: Job| #[trigger]
                after.queue.jobs.contains(row) == (store.queue.jobs.contains(row) && row.user_id
                    != user_id)
        }),
{
    law_removed(store.entries, entry_of_user(user_id));
    law_removed(store.memories, memory_of_user(user_id));
    law_removed(store.change_sets, set_of_user(user_id));
    law_removed(store.retrievals, retrieval_of_user(user_id));
    law_removed(store.queue.jobs, job_of_user(user_id));
}

/// Forgetting a conversation keeps every entry that a user's hand is on, every
/// entry that was also learnt elsewhere, and every tombstone.
pub proof fn law_forgetting_spares(
    store: StoreModel,
    user_id: Seq<char>,
    conversation_id: Seq<char>,
    now: i64,
    entry: Entry,
)
    requires
        store.entries.contains(entry),
        entry.pinned || entry.user_edited || entry.state == "deleted"@ || entry.user_id != user_id
            || exists_in(store.sources, source_elsewhere(entry.id, conversation_id)),
    ensures
        conversation_forgotten(store, user_id, conversation_id, now).entries.contains(entry),
{
    law_removed(store.entries, learnt_only_from(user_id, conversation_id, store.sources));
}

/// After a conversation was forgotten no entry has a source in it, and no entry
/// is left that was learnt from it alone and that no user's hand is on.
pub proof fn law_forgetting_is_complete(
    store: StoreModel,
    user_id: Seq<char>,
    conversation_id: Seq<char>,
    now: i64,
)
    ensures
        ({
            let after = conversation_forgotten(store, user_id, conversation_id, now);
            &&& forall|source: Source| #[trigger]
                after.sources.contains(source) ==> source.conversation_id != conversation_id
            &&& forall|entry: Entry| #[trigger]
                after.entries.contains(entry) ==> !learnt_only_from(
                    user_id,
                    conversation_id,
                    store.sources,
                )(entry)
        }),
{
    law_removed(store.entries, learnt_only_from(user_id, conversation_id, store.sources));
    law_removed(store.sources, from_conversation(conversation_id));
}

} // verus!

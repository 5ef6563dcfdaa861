//! Memory settings, conversation policies, and what a change of either does to
//! the jobs that were queued under the old ones.
use crate::error::DbError;
use crate::memory::commands::{
    UpdateConversationMemoryLifecycleRow, UpdateConversationMemoryPolicyRow,
    UpdateMemoryLifecycleRow, UpdateMemorySettingsRow,
};
use crate::memory::leases::{canceled, open_jobs};
use crate::memory::queue::{is_open, QueueModel};
use crate::memory::rows::{
    ConversationMemoryPolicyRow, EffectiveMemoryPolicyRow, MemorySettingsRow, StoredMemoryPolicyRow,
};
use crate::memory::store::{
    conversation_check, ensure_conversation, ensure_user, find_policy, find_settings, later,
    later_of, policy_of, settings_of, user_check, MemoryStore, StoreModel,
};
use crate::table::{
    exists_in, lemma_lookup, lemma_lookup_added, lemma_lookup_kept, lemma_lookup_updated, lookup,
    model, update_where, updated, Record,
};
use crate::text::{opt_str, same};
use vstd::prelude::*;

verus! {

/// The model of a user's settings.
pub type Settings = MemorySettingsRow<Seq<char>>;

/// The model of a conversation's own policy.
pub type Policy = StoredMemoryPolicyRow<Seq<char>>;

/// The model of the policy that holds for a conversation.
pub type Effective = EffectiveMemoryPolicyRow<Seq<char>>;

/// The settings of a user who has never changed them.
pub open spec fn default_settings(user_id: Seq<char>, now: i64) -> Settings {
    MemorySettingsRow {
        user_id,
        enabled: false,
        default_capture: true,
        default_recall: true,
        consent_version: None,
        consented_at: None,
        reset_at: None,
        lifecycle_epoch: 0,
        updated_at: now,
    }
}

/// A user's settings, where they have none the default.
pub open spec fn settings_for(rows: Seq<Settings>, user_id: Seq<char>, now: i64) -> Settings {
    match lookup(rows, settings_of(user_id)) {
        Some(row) => row,
        None => default_settings(user_id, now),
    }
}

/// The settings with a row for the user.
pub open spec fn with_settings(rows: Seq<Settings>, user_id: Seq<char>, now: i64) -> Seq<Settings> {
    match lookup(rows, settings_of(user_id)) {
        Some(_) => rows,
        None => rows.push(default_settings(user_id, now)),
    }
}

/// Whether the epoch of each of the user's settings can grow by one.
pub open spec fn settings_can_grow(rows: Seq<Settings>, user_id: Seq<char>) -> bool {
    forall|i: int|
        0 <= i < rows.len() && (#[trigger] rows[i]).user_id == user_id ==> rows[i].lifecycle_epoch
            < i64::MAX
}

/// Whether the epoch of each of the conversation's policies can grow by one.
pub open spec fn policy_can_grow(
    rows: Seq<Policy>,
    user_id: Seq<char>,
    conversation_id: Seq<char>,
) -> bool {
    forall|i: int|
        0 <= i < rows.len() && (#[trigger] rows[i]).user_id == user_id && rows[i].conversation_id
            == conversation_id ==> rows[i].lifecycle_epoch < i64::MAX
}

/// One where something changed, else nothing.
pub open spec fn one_if(changed: bool) -> int {
    if changed {
        1
    } else {
        0
    }
}

/// Whether a wanted value differs from the present one.
pub open spec fn flag_changes(wanted: Option<bool>, present: bool) -> bool {
    wanted matches Some(value) && value != present
}

/// A wanted value, or the present one.
pub open spec fn flag_after(wanted: Option<bool>, present: bool) -> bool {
    match wanted {
        Some(value) => value,
        None => present,
    }
}

/// Whether a change of settings begins a new epoch: it switches memory or
/// capture, or it is a consent of another version.
pub open spec fn begins_epoch(current: Settings, command: UpdateMemorySettingsRow) -> bool {
    ||| flag_changes(command.enabled, current.enabled)
    ||| flag_changes(command.default_capture, current.default_capture)
    ||| command.consent_version is Some && command.consent_version != current.consent_version
}

/// Changed settings.
pub open spec fn changed_settings(command: UpdateMemorySettingsRow, changed: bool) -> spec_fn(
    Settings,
) -> Settings {
    |row: Settings|
        MemorySettingsRow {
            enabled: flag_after(command.enabled, row.enabled),
            default_capture: flag_after(command.default_capture, row.default_capture),
            default_recall: flag_after(command.default_recall, row.default_recall),
            consent_version: if command.consent_version is Some {
                command.consent_version
            } else {
                row.consent_version
            },
            consented_at: if command.consent_version is Some {
                Some(command.now)
            } else {
                row.consented_at
            },
            lifecycle_epoch: (row.lifecycle_epoch + one_if(changed)) as i64,
            updated_at: command.now,
            ..row
        }
}

/// The queue after a new epoch began, where one did: the user's open jobs, of one
/// conversation or of all, are canceled.
pub open spec fn queue_after(
    queue: QueueModel,
    user_id: Seq<char>,
    conversation_id: Option<Seq<char>>,
    changed: bool,
    now: i64,
) -> QueueModel {
    if changed {
        QueueModel {
            jobs: updated(queue.jobs, open_jobs(user_id, conversation_id), canceled(now)),
            turns: queue.turns,
        }
    } else {
        queue
    }
}

/// The store after a change of settings.
pub open spec fn settings_updated(
    store: StoreModel,
    command: UpdateMemorySettingsRow,
) -> StoreModel {
    let user = command.user_id@;
    let changed = begins_epoch(settings_for(store.settings, user, command.now), command);
    StoreModel {
        settings: updated(
            with_settings(store.settings, user, command.now),
            settings_of(user),
            changed_settings(command, changed),
        ),
        queue: queue_after(store.queue, user, None, changed, command.now),
        ..store
    }
}

/// Whether a change of the lifecycle begins a new epoch.
pub open spec fn lifecycle_begins_epoch(
    current: Settings,
    input: UpdateMemoryLifecycleRow,
) -> bool {
    flag_changes(input.enabled, current.enabled) || flag_changes(
        input.default_capture,
        current.default_capture,
    )
}

/// Settings with a changed lifecycle.
pub open spec fn changed_lifecycle(input: UpdateMemoryLifecycleRow, changed: bool) -> spec_fn(
    Settings,
) -> Settings {
    |row: Settings|
        MemorySettingsRow {
            enabled: flag_after(input.enabled, row.enabled),
            default_capture: flag_after(input.default_capture, row.default_capture),
            lifecycle_epoch: (row.lifecycle_epoch + one_if(changed)) as i64,
            updated_at: input.now,
            ..row
        }
}

/// The store after a change of the lifecycle.
pub open spec fn lifecycle_updated(
    store: StoreModel,
    input: UpdateMemoryLifecycleRow,
) -> StoreModel {
    let user = input.user_id@;
    let changed = lifecycle_begins_epoch(settings_for(store.settings, user, input.now), input);
    StoreModel {
        settings: updated(
            with_settings(store.settings, user, input.now),
            settings_of(user),
            changed_lifecycle(input, changed),
        ),
        queue: queue_after(store.queue, user, None, changed, input.now),
        ..store
    }
}

/// The policy that holds for a conversation: its own over the user's, and the
/// later of the two resets.
pub open spec fn effective_of(
    settings: Settings,
    policy: Option<Policy>,
    user_id: Seq<char>,
    conversation_id: Seq<char>,
) -> Effective {
    let capture_override = match policy {
        Some(own) => own.capture_enabled,
        None => None,
    };
    let recall_override = match policy {
        Some(own) => own.recall_enabled,
        None => None,
    };
    EffectiveMemoryPolicyRow {
        user_id,
        conversation_id,
        enabled: settings.enabled,
        capture_enabled: flag_after(capture_override, settings.default_capture),
        recall_enabled: flag_after(recall_override, settings.default_recall),
        capture_override,
        recall_override,
        consent_version: settings.consent_version,
        consented_at: settings.consented_at,
        reset_at: match policy {
            Some(own) => later_of(settings.reset_at, own.reset_at),
            None => settings.reset_at,
        },
        global_epoch: settings.lifecycle_epoch,
        conversation_epoch: match policy {
            Some(own) => own.lifecycle_epoch,
            None => 0,
        },
    }
}

/// The policy that holds for a conversation, or why there is none.
pub open spec fn effective_step(
    store: StoreModel,
    user_id: Seq<char>,
    conversation_id: Seq<char>,
) -> Result<Effective, DbError<Seq<char>>> {
    match conversation_check(store.conversations, user_id, conversation_id) {
        Err(error) => Err(error),
        Ok(()) => match user_check(store.users, user_id) {
            Err(error) => Err(error),
            Ok(()) => Ok(
                effective_of(
                    settings_for(store.settings, user_id, 0),
                    lookup(store.policies, policy_of(user_id, conversation_id)),
                    user_id,
                    conversation_id,
                ),
            ),
        },
    }
}

/// The store after the policy that holds for a conversation was asked for: a
/// user without settings then has the default ones.
pub open spec fn settings_asked(
    store: StoreModel,
    user_id: Seq<char>,
    conversation_id: Seq<char>,
) -> StoreModel {
    if effective_step(store, user_id, conversation_id) is Ok {
        StoreModel { settings: with_settings(store.settings, user_id, 0), ..store }
    } else {
        store
    }
}

/// A conversation's own policy as callers see it.
pub open spec fn own_policy(
    policy: Option<Policy>,
    conversation_id: Seq<char>,
) -> ConversationMemoryPolicyRow<
    Seq<char>,
> {
    match policy {
        Some(own) => ConversationMemoryPolicyRow {
            conversation_id: own.conversation_id,
            capture_enabled: own.capture_enabled,
            recall_enabled: own.recall_enabled,
            updated_at: own.updated_at,
        },
        None => ConversationMemoryPolicyRow {
            conversation_id,
            capture_enabled: None,
            recall_enabled: None,
            updated_at: 0,
        },
    }
}

/// The capture that a conversation's own policy sets.
pub open spec fn capture_set(policy: Option<Policy>) -> Option<bool> {
    match policy {
        Some(own) => own.capture_enabled,
        None => None,
    }
}

/// A conversation's changed policy.
pub open spec fn changed_policy(
    command: UpdateConversationMemoryPolicyRow,
    changed: bool,
) -> spec_fn(
    Policy,
) -> Policy {
    |row: Policy|
        StoredMemoryPolicyRow {
            capture_enabled: command.capture_enabled,
            recall_enabled: command.recall_enabled,
            lifecycle_epoch: (row.lifecycle_epoch + one_if(changed)) as i64,
            updated_at: command.now,
            ..row
        }
}

/// A conversation's first policy.
pub open spec fn first_policy(command: UpdateConversationMemoryPolicyRow, changed: bool) -> Policy {
    StoredMemoryPolicyRow {
        user_id: command.user_id@,
        conversation_id: command.conversation_id@,
        capture_enabled: command.capture_enabled,
        recall_enabled: command.recall_enabled,
        reset_at: None,
        lifecycle_epoch: one_if(changed) as i64,
        updated_at: command.now,
    }
}

/// The policies with one changed, or added where the conversation has none.
pub open spec fn policies_with(
    rows: Seq<Policy>,
    first: Policy,
    change: spec_fn(Policy) -> Policy,
) -> Seq<Policy> {
    let hit = policy_of(first.user_id, first.conversation_id);
    match lookup(rows, hit) {
        Some(_) => updated(rows, hit, change),
        None => rows.push(first),
    }
}

/// Whether a new policy changes what is captured of the conversation.
pub open spec fn policy_begins_epoch(
    store: StoreModel,
    command: UpdateConversationMemoryPolicyRow,
) -> bool {
    let default = settings_for(store.settings, command.user_id@, command.now).default_capture;
    let own = lookup(store.policies, policy_of(command.user_id@, command.conversation_id@));
    flag_after(capture_set(own), default) != flag_after(command.capture_enabled, default)
}

/// The store after a conversation got a new policy.
pub open spec fn policy_updated(
    store: StoreModel,
    command: UpdateConversationMemoryPolicyRow,
) -> StoreModel {
    let user = command.user_id@;
    let changed = policy_begins_epoch(store, command);
    StoreModel {
        settings: with_settings(store.settings, user, command.now),
        policies: policies_with(
            store.policies,
            first_policy(command, changed),
            changed_policy(command, changed),
        ),
        queue: queue_after(
            store.queue,
            user,
            Some(command.conversation_id@),
            changed,
            command.now,
        ),
        ..store
    }
}

/// Whether a change of a conversation's lifecycle begins a new epoch.
pub open spec fn capture_begins_epoch(
    store: StoreModel,
    input: UpdateConversationMemoryLifecycleRow,
) -> bool {
    capture_set(lookup(store.policies, policy_of(input.user_id@, input.conversation_id@))) != Some(
        input.capture_enabled,
    )
}

/// A conversation's policy with a changed lifecycle.
pub open spec fn changed_capture(
    input: UpdateConversationMemoryLifecycleRow,
    changed: bool,
) -> spec_fn(
    Policy,
) -> Policy {
    |row: Policy|
        StoredMemoryPolicyRow {
            capture_enabled: Some(input.capture_enabled),
            lifecycle_epoch: (row.lifecycle_epoch + one_if(changed)) as i64,
            updated_at: input.now,
            ..row
        }
}

/// A conversation's first policy, by its lifecycle.
pub open spec fn first_capture(
    input: UpdateConversationMemoryLifecycleRow,
    changed: bool,
) -> Policy {
    StoredMemoryPolicyRow {
        user_id: input.user_id@,
        conversation_id: input.conversation_id@,
        capture_enabled: Some(input.capture_enabled),
        recall_enabled: None,
        reset_at: None,
        lifecycle_epoch: one_if(changed) as i64,
        updated_at: input.now,
    }
}

/// The store after a change of a conversation's lifecycle.
pub open spec fn capture_updated(
    store: StoreModel,
    input: UpdateConversationMemoryLifecycleRow,
) -> StoreModel {
    let changed = capture_begins_epoch(store, input);
    StoreModel {
        policies: policies_with(
            store.policies,
            first_capture(input, changed),
            changed_capture(input, changed),
        ),
        queue: queue_after(
            store.queue,
            input.user_id@,
            Some(input.conversation_id@),
            changed,
            input.now,
        ),
        ..store
    }
}

// ----------------------------------------------------------------------------
// The same in running code
// ----------------------------------------------------------------------------

fn one_where(changed: bool) -> (count: i64)
    ensures
        count == one_if(changed),
{
    if changed {
        1
    } else {
        0
    }
}

fn differs(wanted: Option<bool>, present: bool) -> (yes: bool)
    ensures
        yes == flag_changes(wanted, present),
{
    match wanted {
        Some(value) => value != present,
        None => false,
    }
}

fn flag_or(wanted: Option<bool>, present: bool) -> (flag: bool)
    ensures
        flag == flag_after(wanted, present),
{
    match wanted {
        Some(value) => value,
        None => present,
    }
}

impl MemoryStore {
    /// Gives a user without settings the default ones; the number of their row.
    fn settle_settings(&mut self, user_id: &str, now: i64) -> (at: usize)
        ensures
            final(self)@ == (StoreModel {
                settings: with_settings(old(self)@.settings, user_id@, now),
                ..old(self)@
            }),
            at < final(self).settings.len(),
            final(self).settings[at as int]@ == settings_for(old(self)@.settings, user_id@, now),
            settings_of(user_id@)(final(self).settings[at as int]@),
            settings_can_grow(old(self)@.settings, user_id@) ==> settings_can_grow(
                final(self)@.settings,
                user_id@,
            ),
    {
        match find_settings(&self.settings, user_id) {
            Some(at) => {
                proof {
                    lemma_lookup(model(self.settings@), settings_of(user_id@));
                }
                at
            },
            None => {
                let row = MemorySettingsRow {
                    user_id: user_id.to_owned(),
                    enabled: false,
                    default_capture: true,
                    default_recall: true,
                    consent_version: None,
                    consented_at: None,
                    reset_at: None,
                    lifecycle_epoch: 0,
                    updated_at: now,
                };
                let ghost before = self.settings@;
                self.settings.push(row);
                assert(model(self.settings@) =~= model(before).push(row@));
                self.settings.len() - 1
            },
        }
    }

    /// Cancels the user's open jobs where a new epoch began.
    fn end_epoch(&mut self, user_id: &str, conversation_id: Option<&str>, changed: bool, now: i64)
        ensures
            final(self)@ == (StoreModel {
                queue: queue_after(
                    old(self)@.queue,
                    user_id@,
                    opt_str(conversation_id),
                    changed,
                    now,
                ),
                ..old(self)@
            }),
            final(self).settings == old(self).settings,
            final(self).policies == old(self).policies,
    {
        if changed {
            let _count: u64 = self.queue.cancel_jobs(user_id, conversation_id, now);
        }
    }

    /// A user's settings; one who has none is given the default ones.
    pub fn get_settings(&mut self, user_id: &str) -> (result: Result<MemorySettingsRow, DbError>)
        ensures
            match user_check(old(self)@.users, user_id@) {
                Ok(()) => {
                    &&& result matches Ok(row) && row@ == settings_for(
                        old(self)@.settings,
                        user_id@,
                        0,
                    )
                    &&& final(self)@ == (StoreModel {
                        settings: with_settings(old(self)@.settings, user_id@, 0),
                        ..old(self)@
                    })
                },
                Err(wanted) => {
                    &&& result matches Err(error) && error@ == wanted
                    &&& final(self)@ == old(self)@
                },
            },
    {
        match ensure_user(&self.users, user_id) {
            Ok(()) => {
                let at: usize = self.settle_settings(user_id, 0);
                Ok(self.settings[at].duplicate())
            },
            Err(error) => Err(error),
        }
    }

    /// Changes a user's settings. Where that begins a new epoch, the user's open
    /// jobs are canceled.
    pub fn update_settings(&mut self, command: &UpdateMemorySettingsRow) -> (result: Result<
        MemorySettingsRow,
        DbError,
    >)
        requires
            settings_can_grow(old(self)@.settings, command.user_id@),
        ensures
            match user_check(old(self)@.users, command.user_id@) {
                Ok(()) => {
                    let current = settings_for(
                        old(self)@.settings,
                        command.user_id@,
                        command.now,
                    );
                    &&& result matches Ok(row) && row@ == changed_settings(
                        *command,
                        begins_epoch(current, *command),
                    )(current)
                    &&& final(self)@ == settings_updated(old(self)@, *command)
                },
                Err(wanted) => {
                    &&& result matches Err(error) && error@ == wanted
                    &&& final(self)@ == old(self)@
                },
            },
    {
        match ensure_user(&self.users, command.user_id.as_str()) {
            Ok(()) => {},
            Err(error) => {
                return Err(error);
            },
        }
        let user_id = command.user_id.as_str();
        let at: usize = self.settle_settings(user_id, command.now);
        let changed = {
            let current = &self.settings[at];
            differs(command.enabled, current.enabled) || differs(
                command.default_capture,
                current.default_capture,
            ) || match (command.consent_version, current.consent_version) {
                (Some(new), Some(old_version)) => new != old_version,
                (Some(_), None) => true,
                (None, _) => false,
            }
        };
        let more: i64 = one_where(changed);
        let ghost hit = settings_of(command.user_id@);
        let ghost change = changed_settings(*command, changed);
        let ghost settled = self.settings@;
        assert forall|i: int|
            0 <= i < self.settings.len() && hit((#[trigger] self.settings[i])@)
                implies self.settings[i].lifecycle_epoch
            < i64::MAX by {
            assert(model(self.settings@)[i] == self.settings[i]@);
        }
        let _count: u64 = update_where(
            &mut self.settings,
            |row: &MemorySettingsRow| -> (yes: bool)
                ensures yes == hit(row@)
                { same(row.user_id.as_str(), user_id) },
            |row: &MemorySettingsRow| -> (next: MemorySettingsRow)
                requires row.lifecycle_epoch < i64::MAX, more == one_if(changed)
                ensures next@ == change(row@)
                {
                    MemorySettingsRow {
                        enabled: flag_or(command.enabled, row.enabled),
                        default_capture: flag_or(command.default_capture, row.default_capture),
                        default_recall: flag_or(command.default_recall, row.default_recall),
                        consent_version: if command.consent_version.is_some() {
                            command.consent_version
                        } else {
                            row.consent_version
                        },
                        consented_at: if command.consent_version.is_some() {
                            Some(command.now)
                        } else {
                            row.consented_at
                        },
                        lifecycle_epoch: row.lifecycle_epoch + more,
                        updated_at: command.now,
                        ..row.duplicate()
                    }
                },
            Ghost(hit),
            Ghost(change),
        );
        assert(model(self.settings@).len() == model(settled).len());
        assert(model(self.settings@)[at as int] == change(model(settled)[at as int]));
        self.end_epoch(user_id, None, changed, command.now);
        Ok(self.settings[at].duplicate())
    }

    /// Changes whether a user's memory is kept. Where that begins a new epoch,
    /// the user's open jobs are canceled.
    pub fn update_memory_lifecycle(&mut self, input: &UpdateMemoryLifecycleRow)
        requires
            settings_can_grow(old(self)@.settings, input.user_id@),
        ensures
            final(self)@ == lifecycle_updated(old(self)@, *input),
    {
        let user_id = input.user_id.as_str();
        let at: usize = self.settle_settings(user_id, input.now);
        let changed = differs(input.enabled, self.settings[at].enabled) || differs(
            input.default_capture,
            self.settings[at].default_capture,
        );
        let more: i64 = one_where(changed);
        let ghost hit = settings_of(input.user_id@);
        let ghost change = changed_lifecycle(*input, changed);
        assert forall|i: int|
            0 <= i < self.settings.len() && hit((#[trigger] self.settings[i])@)
                implies self.settings[i].lifecycle_epoch
            < i64::MAX by {
            assert(model(self.settings@)[i] == self.settings[i]@);
        }
        let _count: u64 = update_where(
            &mut self.settings,
            |row: &MemorySettingsRow| -> (yes: bool)
                ensures yes == hit(row@)
                { same(row.user_id.as_str(), user_id) },
            |row: &MemorySettingsRow| -> (next: MemorySettingsRow)
                requires row.lifecycle_epoch < i64::MAX, more == one_if(changed)
                ensures next@ == change(row@)
                {
                    MemorySettingsRow {
                        enabled: flag_or(input.enabled, row.enabled),
                        default_capture: flag_or(input.default_capture, row.default_capture),
                        lifecycle_epoch: row.lifecycle_epoch + more,
                        updated_at: input.now,
                        ..row.duplicate()
                    }
                },
            Ghost(hit),
            Ghost(change),
        );
        self.end_epoch(user_id, None, changed, input.now);
    }

    /// The policy that holds for a conversation. A user without settings is given
    /// the default ones.
    pub fn effective_policy(&mut self, user_id: &str, conversation_id: &str) -> (result: Result<
        EffectiveMemoryPolicyRow,
        DbError,
    >)
        ensures
            match (result, effective_step(old(self)@, user_id@, conversation_id@)) {
                (Ok(row), Ok(wanted)) => row@ == wanted,
                (Err(error), Err(wanted)) => error@ == wanted,
                _ => false,
            },
            final(self)@ == settings_asked(old(self)@, user_id@, conversation_id@),
    {
        match ensure_conversation(&self.conversations, user_id, conversation_id) {
            Ok(()) => {},
            Err(error) => {
                return Err(error);
            },
        }
        match ensure_user(&self.users, user_id) {
            Ok(()) => {},
            Err(error) => {
                return Err(error);
            },
        }
        let at: usize = self.settle_settings(user_id, 0);
        let settings = &self.settings[at];
        let (capture_override, recall_override, reset_at, conversation_epoch) = match find_policy(
            &self.policies,
            user_id,
            conversation_id,
        ) {
            Some(own) => (
                self.policies[own].capture_enabled,
                self.policies[own].recall_enabled,
                later(settings.reset_at, self.policies[own].reset_at),
                self.policies[own].lifecycle_epoch,
            ),
            None => (None, None, settings.reset_at, 0i64),
        };
        Ok(
            EffectiveMemoryPolicyRow {
                user_id: user_id.to_owned(),
                conversation_id: conversation_id.to_owned(),
                enabled: settings.enabled,
                capture_enabled: flag_or(capture_override, settings.default_capture),
                recall_enabled: flag_or(recall_override, settings.default_recall),
                capture_override,
                recall_override,
                consent_version: settings.consent_version,
                consented_at: settings.consented_at,
                reset_at,
                global_epoch: settings.lifecycle_epoch,
                conversation_epoch,
            },
        )
    }

    /// A conversation's own policy; one that has none inherits everything.
    pub fn get_conversation_policy(&self, user_id: &str, conversation_id: &str) -> (result: Result<
        ConversationMemoryPolicyRow,
        DbError,
    >)
        ensures
            match conversation_check(self@.conversations, user_id@, conversation_id@) {
                Ok(()) => result matches Ok(row) && row@ == own_policy(
                    lookup(self@.policies, policy_of(user_id@, conversation_id@)),
                    conversation_id@,
                ),
                Err(wanted) => result matches Err(error) && error@ == wanted,
            },
    {
        match ensure_conversation(&self.conversations, user_id, conversation_id) {
            Ok(()) => {},
            Err(error) => {
                return Err(error);
            },
        }
        match find_policy(&self.policies, user_id, conversation_id) {
            Some(at) => Ok(
                ConversationMemoryPolicyRow {
                    conversation_id: self.policies[at].conversation_id.clone(),
                    capture_enabled: self.policies[at].capture_enabled,
                    recall_enabled: self.policies[at].recall_enabled,
                    updated_at: self.policies[at].updated_at,
                },
            ),
            None => Ok(
                ConversationMemoryPolicyRow {
                    conversation_id: conversation_id.to_owned(),
                    capture_enabled: None,
                    recall_enabled: None,
                    updated_at: 0,
                },
            ),
        }
    }

    /// Changes a conversation's policy, or adds it.
    pub(crate) fn put_policy<C: Fn(&StoredMemoryPolicyRow) -> StoredMemoryPolicyRow>(
        &mut self,
        first: StoredMemoryPolicyRow,
        change: C,
        Ghost(change_spec): Ghost<spec_fn(Policy) -> Policy>,
    )
        requires
            forall|i: int|
                0 <= i < old(self).policies.len() && policy_of(
                    first@.user_id,
                    first@.conversation_id,
                )((#[trigger] old(self).policies[i])@) ==> change.requires(
                    (&old(self).policies[i],),
                ),
            forall|r: StoredMemoryPolicyRow, n: StoredMemoryPolicyRow|
                change.ensures((&r,), n) ==> n@ == change_spec(r@),
        ensures
            final(self)@ == (StoreModel {
                policies: policies_with(old(self)@.policies, first@, change_spec),
                ..old(self)@
            }),
    {
        let ghost hit = policy_of(first@.user_id, first@.conversation_id);
        match find_policy(&self.policies, first.user_id.as_str(), first.conversation_id.as_str()) {
            Some(_) => {
                let _count: u64 = update_where(
                    &mut self.policies,
                    |row: &StoredMemoryPolicyRow| -> (yes: bool)
                        ensures yes == hit(row@)
                        {
                            same(row.user_id.as_str(), first.user_id.as_str()) && same(
                                row.conversation_id.as_str(),
                                first.conversation_id.as_str(),
                            )
                        },
                    change,
                    Ghost(hit),
                    Ghost(change_spec),
                );
            },
            None => {
                let ghost before = self.policies@;
                let ghost row = first@;
                self.policies.push(first);
                assert(model(self.policies@) =~= model(before).push(row));
            },
        }
    }

    /// Gives a conversation a new policy. Where that changes what is captured of
    /// it, its open jobs are canceled.
    pub fn update_conversation_policy(
        &mut self,
        command: &UpdateConversationMemoryPolicyRow,
    ) -> (result:
        Result<EffectiveMemoryPolicyRow, DbError>)
        requires
            policy_can_grow(old(self)@.policies, command.user_id@, command.conversation_id@),
        ensures
            match conversation_check(
                old(self)@.conversations,
                command.user_id@,
                command.conversation_id@,
            ) {
                Err(wanted) => {
                    &&& result matches Err(error) && error@ == wanted
                    &&& final(self)@ == old(self)@
                },
                Ok(()) => {
                    let after = policy_updated(old(self)@, *command);
                    &&& match (
                        result,
                        effective_step(after, command.user_id@, command.conversation_id@),
                    ) {
                        (Ok(row), Ok(wanted)) => row@ == wanted,
                        (Err(error), Err(wanted)) => error@ == wanted,
                        _ => false,
                    }
                    &&& final(self)@ == after
                },
            },
    {
        let user_id = command.user_id.as_str();
        let conversation_id = command.conversation_id.as_str();
        match ensure_conversation(&self.conversations, user_id, conversation_id) {
            Ok(()) => {},
            Err(error) => {
                return Err(error);
            },
        }
        let at: usize = self.settle_settings(user_id, command.now);
        let default_capture = self.settings[at].default_capture;
        let present = match find_policy(&self.policies, user_id, conversation_id) {
            Some(own) => self.policies[own].capture_enabled,
            None => None,
        };
        let changed = flag_or(present, default_capture) != flag_or(
            command.capture_enabled,
            default_capture,
        );
        let more: i64 = one_where(changed);
        let first = StoredMemoryPolicyRow {
            user_id: command.user_id.clone(),
            conversation_id: command.conversation_id.clone(),
            capture_enabled: command.capture_enabled,
            recall_enabled: command.recall_enabled,
            reset_at: None,
            lifecycle_epoch: more,
            updated_at: command.now,
        };
        assert(first@ == first_policy(*command, changed));
        let ghost change = changed_policy(*command, changed);
        assert forall|i: int|
            0 <= i < self.policies.len() && policy_of(user_id@, conversation_id@)(
                (#[trigger] self.policies[i])@,
            ) implies self.policies[i].lifecycle_epoch < i64::MAX by {
            assert(model(self.policies@)[i] == self.policies[i]@);
        }
        self.put_policy(
            first,
            |row: &StoredMemoryPolicyRow| -> (next: StoredMemoryPolicyRow)
                requires row.lifecycle_epoch < i64::MAX, more == one_if(changed)
                ensures next@ == change(row@)
                {
                    StoredMemoryPolicyRow {
                        capture_enabled: command.capture_enabled,
                        recall_enabled: command.recall_enabled,
                        lifecycle_epoch: row.lifecycle_epoch + more,
                        updated_at: command.now,
                        ..row.duplicate()
                    }
                },
            Ghost(change),
        );
        self.end_epoch(user_id, Some(conversation_id), changed, command.now);
        proof {
            let rows = old(self)@.settings;
            let hit = settings_of(user_id@);
            if lookup(rows, hit) is None {
                lemma_lookup_added(rows, hit, default_settings(user_id@, command.now));
            }
            assert(self@ == policy_updated(old(self)@, *command));
        }
        self.effective_policy(user_id, conversation_id)
    }

    /// Changes whether a conversation is captured. Where that begins a new epoch,
    /// its open jobs are canceled.
    pub fn update_conversation_memory_lifecycle(
        &mut self,
        input: &UpdateConversationMemoryLifecycleRow,
    ) -> (result: Result<(), DbError>)
        requires
            policy_can_grow(old(self)@.policies, input.user_id@, input.conversation_id@),
        ensures
            match conversation_check(
                old(self)@.conversations,
                input.user_id@,
                input.conversation_id@,
            ) {
                Err(wanted) => {
                    &&& result matches Err(error) && error@ == wanted
                    &&& final(self)@ == old(self)@
                },
                Ok(()) => result is Ok && final(self)@ == capture_updated(old(self)@, *input),
            },
    {
        let user_id = input.user_id.as_str();
        let conversation_id = input.conversation_id.as_str();
        match ensure_conversation(&self.conversations, user_id, conversation_id) {
            Ok(()) => {},
            Err(error) => {
                return Err(error);
            },
        }
        let present = match find_policy(&self.policies, user_id, conversation_id) {
            Some(own) => self.policies[own].capture_enabled,
            None => None,
        };
        let changed = match present {
            Some(flag) => flag != input.capture_enabled,
            None => true,
        };
        let more: i64 = one_where(changed);
        let first = StoredMemoryPolicyRow {
            user_id: input.user_id.clone(),
            conversation_id: input.conversation_id.clone(),
            capture_enabled: Some(input.capture_enabled),
            recall_enabled: None,
            reset_at: None,
            lifecycle_epoch: more,
            updated_at: input.now,
        };
        assert(first@ == first_capture(*input, changed));
        let ghost change = changed_capture(*input, changed);
        assert forall|i: int|
            0 <= i < self.policies.len() && policy_of(user_id@, conversation_id@)(
                (#[trigger] self.policies[i])@,
            ) implies self.policies[i].lifecycle_epoch < i64::MAX by {
            assert(model(self.policies@)[i] == self.policies[i]@);
        }
        self.put_policy(
            first,
            |row: &StoredMemoryPolicyRow| -> (next: StoredMemoryPolicyRow)
                requires row.lifecycle_epoch < i64::MAX, more == one_if(changed)
                ensures next@ == change(row@)
                {
                    StoredMemoryPolicyRow {
                        capture_enabled: Some(input.capture_enabled),
                        lifecycle_epoch: row.lifecycle_epoch + more,
                        updated_at: input.now,
                        ..row.duplicate()
                    }
                },
            Ghost(change),
        );
        self.end_epoch(user_id, Some(conversation_id), changed, input.now);
        Ok(())
    }
}

// ----------------------------------------------------------------------------
// What holds of every change
// ----------------------------------------------------------------------------

/// A change of settings moves the user's epoch on by one exactly where it
/// begins a new one, and leaves every other user's settings alone.
pub proof fn law_settings_epoch(
    store: StoreModel,
    command: UpdateMemorySettingsRow,
    other: Seq<char>,
)
    requires
        settings_can_grow(store.settings, command.user_id@),
        other != command.user_id@,
    ensures
        ({
            let user = command.user_id@;
            let before = settings_for(store.settings, user, command.now);
            let after = settings_updated(store, command);
            &&& settings_for(after.settings, user, command.now).lifecycle_epoch
                == before.lifecycle_epoch + one_if(begins_epoch(before, command))
            &&& lookup(after.settings, settings_of(other)) == lookup(
                store.settings,
                settings_of(other),
            )
        }),
{
    let user = command.user_id@;
    let hit = settings_of(user);
    let before = settings_for(store.settings, user, command.now);
    let change = changed_settings(command, begins_epoch(before, command));
    let rows = with_settings(store.settings, user, command.now);
    if lookup(store.settings, hit) is None {
        lemma_lookup_added(store.settings, hit, default_settings(user, command.now));
    }
    lemma_lookup(rows, hit);
    lemma_lookup_updated(rows, hit, change);
    let others = settings_of(other);
    lemma_lookup_kept(store.settings, rows, others);
    lemma_lookup_kept(rows, updated(rows, hit, change), others);
}

/// A new policy moves the conversation's epoch on by one exactly where it
/// changes what is captured; where it does not, no job changes.
pub proof fn law_policy_epoch(store: StoreModel, command: UpdateConversationMemoryPolicyRow)
    requires
        policy_can_grow(store.policies, command.user_id@, command.conversation_id@),
    ensures
        ({
            let user = command.user_id@;
            let conversation_id = command.conversation_id@;
            let settings = settings_for(store.settings, user, command.now);
            let hit = policy_of(user, conversation_id);
            let before = effective_of(settings, lookup(store.policies, hit), user, conversation_id);
            let after = effective_of(
                settings,
                lookup(policy_updated(store, command).policies, hit),
                user,
                conversation_id,
            );
            &&& after.conversation_epoch == before.conversation_epoch + one_if(
                before.capture_enabled != after.capture_enabled,
            )
            &&& before.capture_enabled == after.capture_enabled ==> policy_updated(
                store,
                command,
            ).queue == store.queue
            &&& after.reset_at == before.reset_at
        }),
{
    let hit = policy_of(command.user_id@, command.conversation_id@);
    let changed = policy_begins_epoch(store, command);
    lemma_lookup(store.policies, hit);
    if lookup(store.policies, hit) is None {
        lemma_lookup_added(store.policies, hit, first_policy(command, changed));
    } else {
        lemma_lookup_updated(store.policies, hit, changed_policy(command, changed));
    }
}

/// A new epoch leaves no open job in its scope, and every job out of it as it was.
pub proof fn law_new_epoch_ends_jobs(
    queue: QueueModel,
    user_id: Seq<char>,
    conversation_id: Option<Seq<char>>,
    now: i64,
)
    ensures
        ({
            let after = queue_after(queue, user_id, conversation_id, true, now);
            &&& !exists_in(after.jobs, open_jobs(user_id, conversation_id))
            &&& after.jobs.len() == queue.jobs.len()
            &&& forall|i: int|
                0 <= i < queue.jobs.len() && !open_jobs(user_id, conversation_id)(
                    #[trigger] queue.jobs[i],
                ) ==> after.jobs[i] == queue.jobs[i]
        }),
{
    let hit = open_jobs(user_id, conversation_id);
    let after = queue_after(queue, user_id, conversation_id, true, now);
    assert forall|i: int| 0 <= i < after.jobs.len() implies !hit(#[trigger] after.jobs[i]) by {
        if hit(queue.jobs[i]) {
            lemma_canceled_is_closed();
        }
    }
}

proof fn lemma_canceled_is_closed()
    ensures
        !is_open("canceled"@),
{
    reveal_strlit("canceled");
    reveal_strlit("pending");
    reveal_strlit("running");
    reveal_strlit("retry_wait");
    reveal_strlit("blocked");
    reveal_strlit("failed");
    assert("canceled"@.len() == 8 && "pending"@.len() == 7 && "running"@.len() == 7
        && "retry_wait"@.len() == 10 && "blocked"@.len() == 7 && "failed"@.len() == 6);
}

} // verus!

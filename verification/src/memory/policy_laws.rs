//! What new settings and policies come to, told by the rows.
use crate::memory::commands::{
    UpdateConversationMemoryLifecycleRow, UpdateConversationMemoryPolicyRow,
    UpdateMemoryLifecycleRow, UpdateMemorySettingsRow,
};
use crate::memory::consent_laws::keys_are_unique;
use crate::memory::job_laws::waits;
use crate::memory::policy::{
    capture_updated, effective_step, lifecycle_updated, own_policy, policy_updated, settings_asked,
    settings_for, settings_updated, with_settings,
};
use crate::memory::queue::QueueModel;
use crate::memory::rows::{MemorySettingsRow, StoredMemoryPolicyRow};
use crate::memory::store::{conversation_of, policy_of, settings_of, StoreModel};
use crate::table::{lemma_lookup, lookup};
use vstd::prelude::*;

verus! {

/// Whether a row of settings is what a user has who never chose any: memory is
/// off, and nothing was agreed to.
pub open spec fn is_unchosen(row: MemorySettingsRow<Seq<char>>, user: Seq<char>) -> bool {
    &&& row.user_id == user
    &&& !row.enabled
    &&& row.default_capture
    &&& row.default_recall
    &&& row.consent_version is None
    &&& row.consented_at is None
    &&& row.reset_at is None
    &&& row.lifecycle_epoch == 0
}

/// Whether a flag is what is wanted, or what it was where nothing is.
pub open spec fn follows(new: bool, wanted: Option<bool>, old: bool) -> bool {
    &&& wanted is Some ==> new == wanted->0
    &&& wanted is None ==> new == old
}

/// Whether jobs are as they were, or, where what they were queued for no longer
/// holds, all that were not over are canceled.
pub open spec fn jobs_follow(
    old: QueueModel,
    new: QueueModel,
    user: Seq<char>,
    conversation: Option<Seq<char>>,
    ends: bool,
) -> bool {
    &&& new.turns == old.turns
    &&& !ends ==> new.jobs == old.jobs
    &&& new.jobs.len() == old.jobs.len()
    &&& forall|i: int|
        0 <= i < old.jobs.len() && ends && old.jobs[i].user_id == user && (conversation is Some
            ==> old.jobs[i].conversation_id == conversation->0) && (waits(old.jobs[i])
            || old.jobs[i].state == "running"@ || old.jobs[i].state == "failed"@) ==> (
        #[trigger] new.jobs[i]).state == "canceled"@ && new.jobs[i].id == old.jobs[i].id
            && new.jobs[i].lease_token is None
    &&& forall|i: int|
        0 <= i < old.jobs.len() && !(old.jobs[i].user_id == user && (conversation is Some
            ==> old.jobs[i].conversation_id == conversation->0) && (waits(old.jobs[i])
            || old.jobs[i].state == "running"@ || old.jobs[i].state == "failed"@)) ==> (
        #[trigger] new.jobs[i]) == old.jobs[i]
}

/// Whether settings are the old ones with what a command changes of them. A new
/// epoch begins where memory, its default or the consent changes.
pub open spec fn are_as_chosen(
    new: MemorySettingsRow<Seq<char>>,
    old: MemorySettingsRow<Seq<char>>,
    command: UpdateMemorySettingsRow,
) -> bool {
    &&& new.user_id == old.user_id
    &&& follows(new.enabled, command.enabled, old.enabled)
    &&& follows(new.default_capture, command.default_capture, old.default_capture)
    &&& follows(new.default_recall, command.default_recall, old.default_recall)
    &&& command.consent_version is Some ==> new.consent_version == command.consent_version
        && new.consented_at == Some(command.now)
    &&& command.consent_version is None ==> new.consent_version == old.consent_version
        && new.consented_at == old.consented_at
    &&& new.reset_at == old.reset_at
    &&& new.updated_at == command.now
    &&& old.lifecycle_epoch < i64::MAX ==> new.lifecycle_epoch == old.lifecycle_epoch + (if
        new.enabled != old.enabled || new.default_capture != old.default_capture
            || new.consent_version != old.consent_version {
        1int
    } else {
        0int
    })
}

/// Whether other settings than a user's are as they were.
pub open spec fn others_settings_stay(
    old: Seq<MemorySettingsRow<Seq<char>>>,
    new: Seq<MemorySettingsRow<Seq<char>>>,
    user: Seq<char>,
) -> bool {
    &&& old.len() <= new.len() <= old.len() + 1
    &&& forall|i: int|
        0 <= i < old.len() && old[i].user_id != user ==> #[trigger] new[i] == old[i]
}

/// Whether a user has settings.
pub open spec fn has_settings(rows: Seq<MemorySettingsRow<Seq<char>>>, user: Seq<char>) -> bool {
    exists|i: int| 0 <= i < rows.len() && (#[trigger] rows[i]).user_id == user
}

proof fn lemma_settings_found(store: StoreModel, user: Seq<char>, now: i64)
    requires
        keys_are_unique(store),
    ensures
        has_settings(store.settings, user) == (lookup(store.settings, settings_of(user)) is Some),
        forall|i: int|
            0 <= i < store.settings.len() && (#[trigger] store.settings[i]).user_id == user
                ==> settings_for(store.settings, user, now) == store.settings[i],
        !has_settings(store.settings, user) ==> is_unchosen(
            settings_for(store.settings, user, now),
            user,
        ),
{
    let hit = settings_of(user);
    lemma_lookup(store.settings, hit);
    if let Some(row) = lookup(store.settings, hit) {
        let k = choose|k: int| 0 <= k < store.settings.len() && store.settings[k] == row;
        assert(store.settings[k].user_id == user);
    } else {
        assert forall|i: int| 0 <= i < store.settings.len() implies (
        #[trigger] store.settings[i]).user_id != user by {
            assert(!hit(store.settings[i]));
        }
    }
}

/// New settings take effect: the user's row has what was chosen, or is made where
/// there was none; a new epoch begins where memory, its default or the consent
/// changes, and then the user's open jobs end. Nothing else changes.
pub proof fn law_settings_take_effect(store: StoreModel, command: UpdateMemorySettingsRow)
    requires
        keys_are_unique(store),
    ensures
        ({
            let user = command.user_id@;
            let after = settings_updated(store, command);
            let old = store.settings;
            let new = after.settings;
            &&& others_settings_stay(old, new, user)
            &&& forall|i: int|
                0 <= i < old.len() && old[i].user_id == user ==> are_as_chosen(
                    #[trigger] new[i],
                    old[i],
                    command,
                ) && new.len() == old.len() && jobs_follow(
                    store.queue,
                    after.queue,
                    user,
                    None,
                    new[i].enabled != old[i].enabled || new[i].default_capture
                        != old[i].default_capture || new[i].consent_version
                        != old[i].consent_version,
                )
            &&& !has_settings(old, user) ==> new.len() == old.len() + 1 && exists|row:
                MemorySettingsRow<Seq<char>>|
                is_unchosen(row, user) && #[trigger] are_as_chosen(new.last(), row, command)
            &&& after.policies == store.policies
            &&& after.memories == store.memories
            &&& after.entries == store.entries
        }),
{
    let user = command.user_id@;
    lemma_settings_found(store, user, command.now);
    let after = settings_updated(store, command);
    if !has_settings(store.settings, user) {
        let row = settings_for(store.settings, user, command.now);
        assert(are_as_chosen(after.settings.last(), row, command));
    }
}

/// Switching memory on or off, or changing its default, takes effect as new
/// settings do, and leaves what was agreed to as it was.
pub proof fn law_lifecycle_takes_effect(store: StoreModel, input: UpdateMemoryLifecycleRow)
    requires
        keys_are_unique(store),
    ensures
        ({
            let user = input.user_id@;
            let after = lifecycle_updated(store, input);
            let old = store.settings;
            let new = after.settings;
            &&& others_settings_stay(old, new, user)
            &&& forall|i: int|
                0 <= i < old.len() && old[i].user_id == user ==> is_switched(
                    #[trigger] new[i],
                    old[i],
                    input,
                ) && new.len() == old.len() && jobs_follow(
                    store.queue,
                    after.queue,
                    user,
                    None,
                    new[i].enabled != old[i].enabled || new[i].default_capture
                        != old[i].default_capture,
                )
            &&& !has_settings(old, user) ==> new.len() == old.len() + 1 && exists|row:
                MemorySettingsRow<Seq<char>>|
                is_unchosen(row, user) && #[trigger] is_switched(new.last(), row, input)
            &&& after.policies == store.policies
            &&& after.memories == store.memories
            &&& after.entries == store.entries
        }),
{
    let user = input.user_id@;
    lemma_settings_found(store, user, input.now);
    let after = lifecycle_updated(store, input);
    if !has_settings(store.settings, user) {
        let row = settings_for(store.settings, user, input.now);
        assert(is_switched(after.settings.last(), row, input));
    }
}

/// Whether settings are the old ones, switched as wanted.
pub open spec fn is_switched(
    new: MemorySettingsRow<Seq<char>>,
    old: MemorySettingsRow<Seq<char>>,
    input: UpdateMemoryLifecycleRow,
) -> bool {
    &&& new.user_id == old.user_id
    &&& follows(new.enabled, input.enabled, old.enabled)
    &&& follows(new.default_capture, input.default_capture, old.default_capture)
    &&& new.default_recall == old.default_recall
    &&& new.consent_version == old.consent_version
    &&& new.consented_at == old.consented_at
    &&& new.reset_at == old.reset_at
    &&& new.updated_at == input.now
    &&& old.lifecycle_epoch < i64::MAX ==> new.lifecycle_epoch == old.lifecycle_epoch + (if
        new.enabled != old.enabled || new.default_capture != old.default_capture {
        1int
    } else {
        0int
    })
}

// ----------------------------------------------------------------------------
// Policies
// ----------------------------------------------------------------------------

/// Whether a policy is a conversation's.
pub open spec fn is_for(
    row: StoredMemoryPolicyRow<Seq<char>>,
    user: Seq<char>,
    conversation: Seq<char>,
) -> bool {
    row.user_id == user && row.conversation_id == conversation
}

/// Whether a conversation has a policy of its own.
pub open spec fn has_policy(
    rows: Seq<StoredMemoryPolicyRow<Seq<char>>>,
    user: Seq<char>,
    conversation: Seq<char>,
) -> bool {
    exists|i: int| 0 <= i < rows.len() && is_for(#[trigger] rows[i], user, conversation)
}

/// Whether other policies than a conversation's are as they were.
pub open spec fn others_policies_stay(
    old: Seq<StoredMemoryPolicyRow<Seq<char>>>,
    new: Seq<StoredMemoryPolicyRow<Seq<char>>>,
    user: Seq<char>,
    conversation: Seq<char>,
) -> bool {
    &&& old.len() <= new.len() <= old.len() + 1
    &&& forall|i: int|
        0 <= i < old.len() && !is_for(old[i], user, conversation) ==> #[trigger] new[i] == old[i]
}

proof fn lemma_policy_found(store: StoreModel, user: Seq<char>, conversation: Seq<char>)
    requires
        keys_are_unique(store),
    ensures
        has_policy(store.policies, user, conversation) == (lookup(
            store.policies,
            policy_of(user, conversation),
        ) is Some),
        forall|i: int|
            0 <= i < store.policies.len() && is_for(
                #[trigger] store.policies[i],
                user,
                conversation,
            ) ==> lookup(store.policies, policy_of(user, conversation)) == Some(store.policies[i]),
{
    let hit = policy_of(user, conversation);
    lemma_lookup(store.policies, hit);
    if let Some(row) = lookup(store.policies, hit) {
        let k = choose|k: int| 0 <= k < store.policies.len() && store.policies[k] == row;
        assert(is_for(store.policies[k], user, conversation));
    } else {
        assert forall|i: int| 0 <= i < store.policies.len() implies !is_for(
            #[trigger] store.policies[i],
            user,
            conversation,
        ) by {
            assert(!hit(store.policies[i]));
        }
    }
}

/// What is captured of a conversation: as its own policy says, or by the user's
/// default where that is silent.
pub open spec fn is_captured(own: Option<bool>, default: bool) -> bool {
    if own is Some {
        own->0
    } else {
        default
    }
}

/// A new policy takes effect: the conversation's row has both choices, or is made;
/// a new epoch begins exactly where what is captured changes, and then the
/// conversation's open jobs end. No other policy changes.
pub proof fn law_policy_takes_effect(store: StoreModel, command: UpdateConversationMemoryPolicyRow)
    requires
        keys_are_unique(store),
    ensures
        ({
            let user = command.user_id@;
            let id = command.conversation_id@;
            let after = policy_updated(store, command);
            let old = store.policies;
            let new = after.policies;
            let default = settings_for(store.settings, user, command.now).default_capture;
            &&& others_policies_stay(old, new, user, id)
            &&& forall|i: int|
                0 <= i < old.len() && is_for(old[i], user, id) ==> {
                    let ends = is_captured(old[i].capture_enabled, default) != is_captured(
                        command.capture_enabled,
                        default,
                    );
                    &&& is_for(#[trigger] new[i], user, id)
                    &&& new[i].capture_enabled == command.capture_enabled
                    &&& new[i].recall_enabled == command.recall_enabled
                    &&& new[i].reset_at == old[i].reset_at
                    &&& new[i].updated_at == command.now
                    &&& old[i].lifecycle_epoch < i64::MAX ==> new[i].lifecycle_epoch
                        == old[i].lifecycle_epoch + (if ends {
                        1int
                    } else {
                        0int
                    })
                    &&& new.len() == old.len()
                    &&& jobs_follow(store.queue, after.queue, user, Some(id), ends)
                }
            &&& !has_policy(old, user, id) ==> {
                let ends = default != is_captured(command.capture_enabled, default);
                &&& new.len() == old.len() + 1
                &&& is_for(new.last(), user, id)
                &&& new.last().capture_enabled == command.capture_enabled
                &&& new.last().recall_enabled == command.recall_enabled
                &&& new.last().reset_at is None
                &&& new.last().updated_at == command.now
                &&& new.last().lifecycle_epoch == (if ends {
                    1int
                } else {
                    0int
                })
                &&& jobs_follow(store.queue, after.queue, user, Some(id), ends)
            }
            &&& others_settings_stay(store.settings, after.settings, user)
            &&& has_settings(store.settings, user) ==> after.settings == store.settings
            &&& after.memories == store.memories
            &&& after.entries == store.entries
        }),
{
    let user = command.user_id@;
    let id = command.conversation_id@;
    lemma_settings_found(store, user, command.now);
    lemma_policy_found(store, user, id);
}

/// Switching the capture of a conversation takes effect: the conversation's own
/// row says so, what it says of recall stays, and where that is new a new epoch
/// begins and the conversation's open jobs end.
pub proof fn law_capture_is_switched(
    store: StoreModel,
    input: UpdateConversationMemoryLifecycleRow,
)
    requires
        keys_are_unique(store),
    ensures
        ({
            let user = input.user_id@;
            let id = input.conversation_id@;
            let after = capture_updated(store, input);
            let old = store.policies;
            let new = after.policies;
            &&& others_policies_stay(old, new, user, id)
            &&& forall|i: int|
                0 <= i < old.len() && is_for(old[i], user, id) ==> {
                    let ends = old[i].capture_enabled != Some(input.capture_enabled);
                    &&& is_for(#[trigger] new[i], user, id)
                    &&& new[i].capture_enabled == Some(input.capture_enabled)
                    &&& new[i].recall_enabled == old[i].recall_enabled
                    &&& new[i].reset_at == old[i].reset_at
                    &&& new[i].updated_at == input.now
                    &&& old[i].lifecycle_epoch < i64::MAX ==> new[i].lifecycle_epoch
                        == old[i].lifecycle_epoch + (if ends {
                        1int
                    } else {
                        0int
                    })
                    &&& new.len() == old.len()
                    &&& jobs_follow(store.queue, after.queue, user, Some(id), ends)
                }
            &&& !has_policy(old, user, id) ==> {
                &&& new.len() == old.len() + 1
                &&& is_for(new.last(), user, id)
                &&& new.last().capture_enabled == Some(input.capture_enabled)
                &&& new.last().recall_enabled is None
                &&& new.last().reset_at is None
                &&& new.last().updated_at == input.now
                &&& new.last().lifecycle_epoch == 1
                &&& jobs_follow(store.queue, after.queue, user, Some(id), true)
            }
            &&& after.settings == store.settings
            &&& after.memories == store.memories
            &&& after.entries == store.entries
        }),
{
    lemma_policy_found(store, input.user_id@, input.conversation_id@);
}

// ----------------------------------------------------------------------------
// What holds of a conversation
// ----------------------------------------------------------------------------

/// What holds of a conversation is the user's settings with the conversation's own
/// choices over them, the later of the two resets, and both epochs.
pub proof fn law_policy_in_effect(store: StoreModel, user: Seq<char>, id: Seq<char>)
    requires
        keys_are_unique(store),
    ensures
        effective_step(store, user, id) matches Ok(row) ==> {
            &&& row.user_id == user
            &&& row.conversation_id == id
            &&& store.users.contains(user)
            &&& forall|s: int|
                0 <= s < store.settings.len() && (#[trigger] store.settings[s]).user_id == user ==> {
                    &&& row.enabled == store.settings[s].enabled
                    &&& row.consent_version == store.settings[s].consent_version
                    &&& row.consented_at == store.settings[s].consented_at
                    &&& row.global_epoch == store.settings[s].lifecycle_epoch
                    &&& row.capture_enabled == is_captured(
                        row.capture_override,
                        store.settings[s].default_capture,
                    )
                    &&& row.recall_enabled == is_captured(
                        row.recall_override,
                        store.settings[s].default_recall,
                    )
                    &&& store.settings[s].reset_at matches Some(time) ==> row.reset_at is Some
                        && row.reset_at->0 >= time
                    &&& !has_policy(store.policies, user, id) ==> row.reset_at
                        == store.settings[s].reset_at
                    &&& forall|p: int|
                        0 <= p < store.policies.len() && is_for(
                            #[trigger] store.policies[p],
                            user,
                            id,
                        ) ==> row.reset_at == store.settings[s].reset_at || row.reset_at
                            == store.policies[p].reset_at
                }
            &&& forall|p: int|
                0 <= p < store.policies.len() && is_for(#[trigger] store.policies[p], user, id)
                    ==> {
                    &&& row.capture_override == store.policies[p].capture_enabled
                    &&& row.recall_override == store.policies[p].recall_enabled
                    &&& row.conversation_epoch == store.policies[p].lifecycle_epoch
                    &&& store.policies[p].reset_at matches Some(time) ==> row.reset_at is Some
                        && row.reset_at->0 >= time
                }
            &&& !has_policy(store.policies, user, id) ==> row.capture_override is None
                && row.recall_override is None && row.conversation_epoch == 0
            &&& !has_settings(store.settings, user) ==> !row.enabled && row.consent_version is None
        },
        effective_step(store, user, id) is Ok ==> exists|c: int|
            0 <= c < store.conversations.len() && (#[trigger] store.conversations[c]).id == id
                && store.conversations[c].user_id == user,
{
    lemma_settings_found(store, user, 0);
    lemma_policy_found(store, user, id);
    if effective_step(store, user, id) is Ok {
        let hit = conversation_of(user, id);
        let c = choose|c: int|
            0 <= c < store.conversations.len() && hit(#[trigger] store.conversations[c]);
        assert(store.conversations[c].id == id);
    }
}

/// A conversation's own policy is shown as it is stored; where there is none, as
/// one that leaves everything to the user's settings.
pub proof fn law_own_policy_is_shown(store: StoreModel, user: Seq<char>, id: Seq<char>)
    requires
        keys_are_unique(store),
    ensures
        ({
            let row = own_policy(lookup(store.policies, policy_of(user, id)), id);
            &&& row.conversation_id == id
            &&& forall|p: int|
                0 <= p < store.policies.len() && is_for(#[trigger] store.policies[p], user, id)
                    ==> row.capture_enabled == store.policies[p].capture_enabled
                    && row.recall_enabled == store.policies[p].recall_enabled && row.updated_at
                    == store.policies[p].updated_at
            &&& !has_policy(store.policies, user, id) ==> row.capture_enabled is None
                && row.recall_enabled is None && row.updated_at == 0
        }),
{
    lemma_policy_found(store, user, id);
    lemma_lookup(store.policies, policy_of(user, id));
}

/// Asking for settings gives the stored ones, or those of a user who never chose
/// any, and keeps them.
pub proof fn law_settings_are_shown(store: StoreModel, user: Seq<char>, now: i64)
    requires
        keys_are_unique(store),
    ensures
        forall|s: int|
            0 <= s < store.settings.len() && (#[trigger] store.settings[s]).user_id == user
                ==> settings_for(store.settings, user, now) == store.settings[s],
        !has_settings(store.settings, user) ==> is_unchosen(
            settings_for(store.settings, user, now),
            user,
        ) && settings_for(store.settings, user, now).updated_at == now && with_settings(
            store.settings,
            user,
            now,
        ) == store.settings.push(settings_for(store.settings, user, now)),
        has_settings(store.settings, user) ==> with_settings(store.settings, user, now)
            == store.settings,
{
    lemma_settings_found(store, user, now);
}

/// To ask for the policy in effect adds at most the user's unchosen settings; where it
/// is refused, nothing changes.
pub proof fn law_asking_adds_settings(store: StoreModel, user: Seq<char>, conversation: Seq<char>)
    requires
        keys_are_unique(store),
    ensures
        ({
            let after = settings_asked(store, user, conversation);
            &&& after == (StoreModel { settings: after.settings, ..store })
            &&& effective_step(store, user, conversation) is Err || has_settings(
                store.settings,
                user,
            ) ==> after == store
            &&& effective_step(store, user, conversation) is Ok && !has_settings(
                store.settings,
                user,
            ) ==> after.settings.len() == store.settings.len() + 1 && after.settings.drop_last()
                == store.settings && is_unchosen(after.settings.last(), user)
        }),
{
    law_settings_are_shown(store, user, 0);
}

} // verus!

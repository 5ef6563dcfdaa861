//! When a completed turn is queued, told by the rows that decide it.
use crate::json::{json_members, JsonMember, JsonValue};
use crate::json::{member_is_true, named};
use crate::memory::commands::EnqueueMemoryTurnRow;
use crate::memory::enqueue::{after_reset, captures, enqueue_step, gate_of, same_turn};
use crate::memory::evidence::{
    earlier_message, earliest_at, eligible, lemma_message_order, of_turn, snapshot_of, total_bytes,
    turn_evidence, MEMORY_EVIDENCE_MAX_BYTES, MEMORY_EVIDENCE_MAX_MESSAGES,
};
use crate::memory::rows::{
    ConversationRow, MemorySettingsRow, StoredMemoryPolicyRow, TurnMessageRow,
};
use crate::memory::store::{conversation_of, is_excluded, policy_of, settings_of, StoreModel};
use crate::table::{exists_in, first_at, law_listing, lemma_lookup, lemma_lookup_first, lookup};
use crate::text::{ascii_lower, is_blank, trim};
use vstd::prelude::*;

verus! {

/// Whether a user has one row of settings, a conversation one row and one policy.
pub open spec fn keys_are_unique(store: StoreModel) -> bool {
    &&& forall|i: int, j: int|
        0 <= i < store.settings.len() && 0 <= j < store.settings.len() && (
        #[trigger] store.settings[i]).user_id == (#[trigger] store.settings[j]).user_id ==> i == j
    &&& forall|i: int, j: int|
        0 <= i < store.policies.len() && 0 <= j < store.policies.len() && (
        #[trigger] store.policies[i]).user_id == (#[trigger] store.policies[j]).user_id
            && store.policies[i].conversation_id == store.policies[j].conversation_id ==> i == j
    &&& forall|i: int, j: int|
        0 <= i < store.conversations.len() && 0 <= j < store.conversations.len() && (
        #[trigger] store.conversations[i]).id == (#[trigger] store.conversations[j]).id ==> i == j
}

/// Whether an object has a member that is set to true, the first of its name.
pub open spec fn is_marked(members: Seq<JsonMember<Seq<char>>>, name: Seq<char>) -> bool {
    exists|i: int|
        0 <= i < members.len() && (#[trigger] members[i]).name == name && members[i].value
            == JsonValue::<Seq<char>>::Flag(true) && forall|k: int|
            0 <= k < i ==> (#[trigger] members[k]).name != name
}

proof fn lemma_is_marked(members: Seq<JsonMember<Seq<char>>>, name: Seq<char>)
    ensures
        is_marked(members, name) == member_is_true(members, name),
{
    let hit = named(name);
    if is_marked(members, name) {
        let i = choose|i: int|
            0 <= i < members.len() && (#[trigger] members[i]).name == name && members[i].value
                == JsonValue::<Seq<char>>::Flag(true) && forall|k: int|
                0 <= k < i ==> (#[trigger] members[k]).name != name;
        assert(first_at(members, hit, i));
        lemma_lookup_first(members, hit, i);
    }
    if member_is_true(members, name) {
        let at = choose|k: int| #[trigger] first_at(members, hit, k);
        assert(first_at(members, hit, at));
        assert(members[at].name == name);
        assert forall|k: int| 0 <= k < at implies (#[trigger] members[k]).name != name by {
            assert(!hit(members[k]));
        }
    }
}

/// A conversation is left out exactly where its kind or its source is one of those
/// that are not a person's work, or where its extra data is no object or marks it
/// as such.
pub proof fn law_left_out(kind: Seq<char>, source: Option<Seq<char>>, extra: Seq<char>)
    ensures
        is_excluded(kind, source, extra) == is_left_out(kind, source, extra),
{
    if let Some(list) = json_members(extra) {
        lemma_is_marked(list, "health_check"@);
        lemma_is_marked(list, "internal"@);
        lemma_is_marked(list, "ephemeral"@);
    }
}

/// Whether a conversation is not a person's work.
pub open spec fn is_left_out(kind: Seq<char>, source: Option<Seq<char>>, extra: Seq<char>) -> bool {
    let name = ascii_lower(trim(kind));
    let origin = match source {
        Some(text) => Some(ascii_lower(trim(text))),
        None => None,
    };
    ||| name == "health_check"@
    ||| name == "health-check"@
    ||| name == "internal"@
    ||| name == "ephemeral"@
    ||| origin == Some("health_check"@)
    ||| origin == Some("health-check"@)
    ||| origin == Some("internal"@)
    ||| json_members(extra) is None
    ||| is_marked(json_members(extra)->0, "health_check"@)
    ||| is_marked(json_members(extra)->0, "internal"@)
    ||| is_marked(json_members(extra)->0, "ephemeral"@)
}

// ----------------------------------------------------------------------------
// What the user agreed to
// ----------------------------------------------------------------------------

/// Whether a row of settings is the user's, has memory on, and agrees to what is
/// asked for.
pub open spec fn has_agreed(
    settings: MemorySettingsRow<Seq<char>>,
    input: EnqueueMemoryTurnRow,
) -> bool {
    &&& settings.user_id == input.user_id@
    &&& settings.enabled
    &&& settings.consent_version == Some(input.required_consent_version)
    &&& settings.lifecycle_epoch == input.expected_global_epoch
}

/// Whether a policy is that of the turn's conversation.
pub open spec fn is_its_policy(
    policy: StoredMemoryPolicyRow<Seq<char>>,
    input: EnqueueMemoryTurnRow,
) -> bool {
    policy.user_id == input.user_id@ && policy.conversation_id == input.conversation_id@
}

/// Whether a conversation is to be captured: its own policy says so, or leaves it
/// to the user's default, or there is none and the default says so.
pub open spec fn is_to_be_captured(
    settings: MemorySettingsRow<Seq<char>>,
    policies: Seq<StoredMemoryPolicyRow<Seq<char>>>,
    input: EnqueueMemoryTurnRow,
) -> bool {
    &&& forall|i: int|
        0 <= i < policies.len() && is_its_policy(#[trigger] policies[i], input) ==> {
            &&& policies[i].capture_enabled != Some(false)
            &&& policies[i].capture_enabled is None ==> settings.default_capture
            &&& policies[i].lifecycle_epoch == input.expected_conversation_epoch
        }
    &&& (forall|i: int|
        0 <= i < policies.len() ==> !is_its_policy(#[trigger] policies[i], input))
        ==> settings.default_capture && input.expected_conversation_epoch == 0
}

/// Whether a message is of the turn.
pub open spec fn is_of_turn(
    row: TurnMessageRow<Seq<char>>,
    input: EnqueueMemoryTurnRow,
) -> bool {
    row.message.conversation_id == input.conversation_id@ && row.message.turn_id == Some(
        input.through_turn_id@,
    )
}

/// Whether the turn has messages, and all of them are later than the last time the
/// user's memory and the conversation's were reset.
pub open spec fn is_since_reset(
    settings: MemorySettingsRow<Seq<char>>,
    store: StoreModel,
    input: EnqueueMemoryTurnRow,
) -> bool {
    &&& exists|i: int|
        0 <= i < store.messages.len() && is_of_turn(#[trigger] store.messages[i], input)
    &&& forall|i: int|
        0 <= i < store.messages.len() && is_of_turn(#[trigger] store.messages[i], input) ==> (
        settings.reset_at matches Some(time) ==> store.messages[i].message.created_at > time)
    &&& forall|i: int, k: int|
        0 <= i < store.messages.len() && is_of_turn(#[trigger] store.messages[i], input) && 0 <= k
            < store.policies.len() && is_its_policy(#[trigger] store.policies[k], input) ==> (
        store.policies[k].reset_at matches Some(time) ==> store.messages[i].message.created_at
            > time)
}

// ----------------------------------------------------------------------------
// What the turn holds
// ----------------------------------------------------------------------------

/// Whether a message of the turn can be seen, is finished and says something, in
/// a kind that is kept.
pub open spec fn says_something(
    row: TurnMessageRow<Seq<char>>,
    input: EnqueueMemoryTurnRow,
) -> bool {
    &&& is_of_turn(row, input)
    &&& !row.message.hidden
    &&& row.message.status == Some("finish"@)
    &&& row.message.message_type == "text"@ || row.message.message_type == "artifact"@
        || row.message.message_type == "tool_result_summary"@
    &&& row.accepted_content is Some
    &&& !is_blank(row.accepted_content->0)
}

/// Whether the user wrote a text in the turn.
pub open spec fn has_users_text(
    messages: Seq<TurnMessageRow<Seq<char>>>,
    input: EnqueueMemoryTurnRow,
) -> bool {
    exists|i: int|
        0 <= i < messages.len() && says_something(#[trigger] messages[i], input)
            && messages[i].message.message_type == "text"@ && messages[i].message.position == Some(
            "right"@,
        )
}

/// Whether the assistant answered in the turn.
pub open spec fn has_answer(
    messages: Seq<TurnMessageRow<Seq<char>>>,
    input: EnqueueMemoryTurnRow,
) -> bool {
    exists|i: int|
        0 <= i < messages.len() && says_something(#[trigger] messages[i], input)
            && messages[i].message.position == Some("left"@)
}

/// Whether a turn says more than is kept of one.
pub open spec fn says_too_much(
    messages: Seq<TurnMessageRow<Seq<char>>>,
    input: EnqueueMemoryTurnRow,
) -> bool {
    let rows = turn_evidence(messages, input.conversation_id@, input.through_turn_id@);
    rows.len() > MEMORY_EVIDENCE_MAX_MESSAGES || total_bytes(rows) > MEMORY_EVIDENCE_MAX_BYTES
}

/// Whether a conversation is the turn's, is finished and is a person's work.
pub open spec fn is_done(row: ConversationRow<Seq<char>>, input: EnqueueMemoryTurnRow) -> bool {
    &&& row.id == input.conversation_id@
    &&& row.user_id == input.user_id@
    &&& row.status == Some("finished"@)
    &&& !is_left_out(row.conversation_type, row.source, row.extra)
}

/// Whether a turn may be remembered: the user agreed, the conversation is one to
/// capture, is done and was not reset since, and both sides said something.
pub open spec fn may_be_remembered(store: StoreModel, input: EnqueueMemoryTurnRow) -> bool {
    &&& exists|i: int|
        0 <= i < store.settings.len() && has_agreed(#[trigger] store.settings[i], input)
            && is_to_be_captured(store.settings[i], store.policies, input) && is_since_reset(
            store.settings[i],
            store,
            input,
        )
    &&& exists|i: int|
        0 <= i < store.conversations.len() && is_done(#[trigger] store.conversations[i], input)
    &&& says_too_much(store.messages, input) || (has_users_text(store.messages, input)
        && has_answer(store.messages, input))
}

/// Whether a job covers the turn already.
pub open spec fn is_covered(store: StoreModel, input: EnqueueMemoryTurnRow) -> bool {
    exists|i: int|
        0 <= i < store.queue.turns.len() && (#[trigger] store.queue.turns[i]).user_id
            == input.user_id@ && store.queue.turns[i].conversation_id == input.conversation_id@
            && store.queue.turns[i].operation_version == input.operation_version@
            && store.queue.turns[i].turn_id == input.through_turn_id@
}

pub proof fn lemma_earliest(
    messages: Seq<TurnMessageRow<Seq<char>>>,
    hit: spec_fn(TurnMessageRow<Seq<char>>) -> bool,
)
    ensures
        earliest_at(messages, hit) is Some <==> exists|i: int|
            0 <= i < messages.len() && hit(#[trigger] messages[i]),
        earliest_at(messages, hit) matches Some(time) ==> {
            &&& forall|i: int|
                0 <= i < messages.len() && hit(#[trigger] messages[i])
                    ==> messages[i].message.created_at >= time
            &&& exists|i: int|
                0 <= i < messages.len() && hit(#[trigger] messages[i])
                    && messages[i].message.created_at == time
        },
    decreases messages.len(),
{
    if messages.len() > 0 {
        let head = messages.drop_last();
        lemma_earliest(head, hit);
        assert(messages[messages.len() - 1] == messages.last());
        assert(forall|i: int| 0 <= i < head.len() ==> #[trigger] messages[i] == head[i]);
        if let Some(time) = earliest_at(head, hit) {
            let i = choose|i: int|
                0 <= i < head.len() && hit(#[trigger] head[i]) && head[i].message.created_at
                    == time;
            assert(messages[i] == head[i]);
        }
        assert forall|i: int| 0 <= i < messages.len() && hit(#[trigger] messages[i]) implies i
            == messages.len() - 1 || hit(head[i]) by {}
    }
}

proof fn lemma_said(store: StoreModel, input: EnqueueMemoryTurnRow)
    requires
        !says_too_much(store.messages, input),
    ensures
        ({
            let rows = turn_evidence(
                store.messages,
                input.conversation_id@,
                input.through_turn_id@,
            );
            &&& has_users_text(store.messages, input) <==> exists|i: int|
                0 <= i < rows.len() && (#[trigger] rows[i]).message.position == Some("right"@)
                    && rows[i].message.message_type == "text"@
            &&& has_answer(store.messages, input) <==> exists|i: int|
                0 <= i < rows.len() && (#[trigger] rows[i]).message.position == Some("left"@)
        }),
{
    let messages = store.messages;
    let hit = eligible(input.conversation_id@, input.through_turn_id@);
    let rows = turn_evidence(messages, input.conversation_id@, input.through_turn_id@);
    lemma_message_order();
    law_listing(
        messages,
        hit,
        earlier_message(),
        0,
        (MEMORY_EVIDENCE_MAX_MESSAGES + 1) as nat,
    );
    if has_users_text(messages, input) {
        let i = choose|i: int|
            0 <= i < messages.len() && says_something(#[trigger] messages[i], input)
                && messages[i].message.message_type == "text"@ && messages[i].message.position
                == Some("right"@);
        assert(hit(messages[i]));
        assert(messages.contains(messages[i]));
        assert(rows.contains(messages[i]));
    }
    if has_answer(messages, input) {
        let i = choose|i: int|
            0 <= i < messages.len() && says_something(#[trigger] messages[i], input)
                && messages[i].message.position == Some("left"@);
        assert(hit(messages[i]));
        assert(messages.contains(messages[i]));
        assert(rows.contains(messages[i]));
    }
    assert forall|i: int| 0 <= i < rows.len() implies exists|k: int|
        0 <= k < messages.len() && says_something(#[trigger] messages[k], input) && messages[k]
            == #[trigger] rows[i] by {
        assert(messages.contains(rows[i]) && hit(rows[i]));
        let k = choose|k: int| 0 <= k < messages.len() && messages[k] == rows[i];
        assert(says_something(messages[k], input));
    }
}

/// A turn is queued only where it may be remembered and no job covers it, and not
/// to queue it is to say that it may not be or that one does.
pub proof fn law_capture_needs_consent(store: StoreModel, input: EnqueueMemoryTurnRow)
    requires
        keys_are_unique(store),
    ensures
        enqueue_step(store, input) matches Ok(Some(_)) ==> may_be_remembered(store, input)
            && !is_covered(store, input),
        enqueue_step(store, input) matches Ok(None) ==> !may_be_remembered(store, input)
            || is_covered(store, input),
{
    let user = input.user_id@;
    let id = input.conversation_id@;
    lemma_lookup(store.conversations, conversation_of(user, id));
    lemma_lookup(store.settings, settings_of(user));
    lemma_lookup(store.policies, policy_of(user, id));
    if let (Some(conversation), Some(settings)) = (
        lookup(store.conversations, conversation_of(user, id)),
        lookup(store.settings, settings_of(user)),
    ) {
        if let Ok(snapshot) = snapshot_of(store.messages, id, input.through_turn_id@) {
            let own = lookup(store.policies, policy_of(user, id));
            let gate = gate_of(settings, own);
            let s = choose|s: int| 0 <= s < store.settings.len() && store.settings[s] == settings;
            let c = choose|c: int|
                0 <= c < store.conversations.len() && store.conversations[c] == conversation;
            law_left_out(conversation.conversation_type, conversation.source, conversation.extra);
            let turn = of_turn(id, input.through_turn_id@);
            lemma_earliest(store.messages, turn);
            assert(forall|row: TurnMessageRow<Seq<char>>|
                #![trigger is_of_turn(row, input)]
                turn(row) == is_of_turn(row, input));
            if !says_too_much(store.messages, input) {
                lemma_said(store, input);
            }
            if let Some(policy) = own {
                let p = choose|p: int|
                    0 <= p < store.policies.len() && store.policies[p] == policy;
                assert(is_its_policy(store.policies[p], input));
                assert forall|k: int|
                    0 <= k < store.policies.len() && is_its_policy(
                        #[trigger] store.policies[k],
                        input,
                    ) implies k == p by {}
            } else {
                assert forall|k: int| 0 <= k < store.policies.len() implies !is_its_policy(
                    #[trigger] store.policies[k],
                    input,
                ) by {
                    assert(!policy_of(user, id)(store.policies[k]));
                }
            }
            assert(is_since_reset(store.settings[s], store, input) == after_reset(
                snapshot.earliest_all_at,
                gate.reset_at,
            )) by {
                if snapshot.earliest_all_at is Some {
                    let m = choose|m: int|
                        0 <= m < store.messages.len() && turn(#[trigger] store.messages[m])
                            && store.messages[m].message.created_at == snapshot.earliest_all_at->0;
                    assert(is_of_turn(store.messages[m], input));
                }
            }
            assert(is_to_be_captured(store.settings[s], store.policies, input) == (gate.capture
                && gate.conversation_epoch == input.expected_conversation_epoch));
            assert(captures(conversation, gate, snapshot, input) == may_be_remembered(
                store,
                input,
            )) by {
                assert(settings_of(user)(store.settings[s]));
                assert(conversation_of(user, id)(store.conversations[c]));
                assert forall|i: int|
                    0 <= i < store.settings.len() && has_agreed(
                        #[trigger] store.settings[i],
                        input,
                    ) implies i == s by {}
                assert forall|i: int|
                    0 <= i < store.conversations.len() && is_done(
                        #[trigger] store.conversations[i],
                        input,
                    ) implies i == c by {}
                if captures(conversation, gate, snapshot, input) {
                    assert(has_agreed(store.settings[s], input));
                    assert(is_done(store.conversations[c], input));
                }
            }
            assert(exists_in(store.queue.turns, same_turn(input)) == is_covered(store, input)) by {
                if is_covered(store, input) {
                    let i = choose|i: int|
                        0 <= i < store.queue.turns.len() && (
                        #[trigger] store.queue.turns[i]).user_id == input.user_id@
                            && store.queue.turns[i].conversation_id == input.conversation_id@
                            && store.queue.turns[i].operation_version == input.operation_version@
                            && store.queue.turns[i].turn_id == input.through_turn_id@;
                    assert(same_turn(input)(store.queue.turns[i]));
                }
            }
        }
    }
}

} // verus!

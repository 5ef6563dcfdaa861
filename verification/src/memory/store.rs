//! The memory tables together, and the lookups that most operations begin with.
use crate::error::{missing, not_found, DbError};
use crate::json::{
    decode_object, json_members, member_is_true, members_read, true_member, JsonMember,
};
use crate::memory::queue::{MemoryQueue, QueueModel};
use crate::memory::rows::{
    ConversationMemoryRow, ConversationRow, MemoryChangeSetRow, MemoryEntryDbRow,
    MemoryImportStateRow, MemoryRetrievalRow, MemorySettingsRow, MemorySourceRow,
    StoredMemoryPolicyRow, TurnMessageRow,
};
use crate::table::{exists_in, find_where, lookup, model, Record};
use crate::text::{ascii_lower, contains_text, opt_str, same, spells, texts, trim, trimmed_lower};
use vstd::prelude::*;

verus! {

/// The rows of the memory tables, and of the tables that memory looks at.
#[derive(Debug, Clone, PartialEq, Eq)]
pub struct MemoryStore {
    /// The ids of the users that exist.
    pub users: Vec<String>,
    pub conversations: Vec<ConversationRow>,
    pub messages: Vec<TurnMessageRow>,
    pub settings: Vec<MemorySettingsRow>,
    pub policies: Vec<StoredMemoryPolicyRow>,
    pub queue: MemoryQueue,
    pub memories: Vec<ConversationMemoryRow>,
    pub entries: Vec<MemoryEntryDbRow>,
    pub sources: Vec<MemorySourceRow>,
    pub change_sets: Vec<MemoryChangeSetRow>,
    pub retrievals: Vec<MemoryRetrievalRow>,
    pub import_states: Vec<MemoryImportStateRow>,
}

/// The model of the memory tables.
#[verifier::ext_equal]
pub struct StoreModel {
    pub users: Seq<Seq<char>>,
    pub conversations: Seq<ConversationRow<Seq<char>>>,
    pub messages: Seq<TurnMessageRow<Seq<char>>>,
    pub settings: Seq<MemorySettingsRow<Seq<char>>>,
    pub policies: Seq<StoredMemoryPolicyRow<Seq<char>>>,
    pub queue: QueueModel,
    pub memories: Seq<ConversationMemoryRow<Seq<char>>>,
    pub entries: Seq<MemoryEntryDbRow<Seq<char>>>,
    pub sources: Seq<MemorySourceRow<Seq<char>>>,
    pub change_sets: Seq<MemoryChangeSetRow<Seq<char>>>,
    pub retrievals: Seq<MemoryRetrievalRow<Seq<char>>>,
    pub import_states: Seq<MemoryImportStateRow<Seq<char>>>,
}

impl View for MemoryStore {
    type V = StoreModel;

    open spec fn view(&self) -> StoreModel {
        StoreModel {
            users: texts(self.users@),
            conversations: model(self.conversations@),
            messages: model(self.messages@),
            settings: model(self.settings@),
            policies: model(self.policies@),
            queue: self.queue@,
            memories: model(self.memories@),
            entries: model(self.entries@),
            sources: model(self.sources@),
            change_sets: model(self.change_sets@),
            retrievals: model(self.retrievals@),
            import_states: model(self.import_states@),
        }
    }
}

impl MemoryStore {
    /// A store without any row.
    pub fn new() -> (store: Self)
        ensures
            store@ == (StoreModel {
                users: Seq::empty(),
                conversations: Seq::empty(),
                messages: Seq::empty(),
                settings: Seq::empty(),
                policies: Seq::empty(),
                queue: QueueModel { jobs: Seq::empty(), turns: Seq::empty() },
                memories: Seq::empty(),
                entries: Seq::empty(),
                sources: Seq::empty(),
                change_sets: Seq::empty(),
                retrievals: Seq::empty(),
                import_states: Seq::empty(),
            }),
    {
        let store = MemoryStore {
            users: Vec::new(),
            conversations: Vec::new(),
            messages: Vec::new(),
            settings: Vec::new(),
            policies: Vec::new(),
            queue: MemoryQueue { jobs: Vec::new(), turns: Vec::new() },
            memories: Vec::new(),
            entries: Vec::new(),
            sources: Vec::new(),
            change_sets: Vec::new(),
            retrievals: Vec::new(),
            import_states: Vec::new(),
        };
        assert(store@ =~~= (StoreModel {
            users: Seq::empty(),
            conversations: Seq::empty(),
            messages: Seq::empty(),
            settings: Seq::empty(),
            policies: Seq::empty(),
            queue: QueueModel { jobs: Seq::empty(), turns: Seq::empty() },
            memories: Seq::empty(),
            entries: Seq::empty(),
            sources: Seq::empty(),
            change_sets: Seq::empty(),
            retrievals: Seq::empty(),
            import_states: Seq::empty(),
        }));
        store
    }
}

/// The error where a row that must be there is not.
pub open spec fn row_missing() -> DbError<Seq<char>> {
    DbError::Query("no rows returned by a query that expected to return at least one row"@)
}

/// The error where a row that must be there is not.
pub fn missing_row() -> (error: DbError)
    ensures
        error@ == row_missing(),
{
    DbError::Query(
        "no rows returned by a query that expected to return at least one row".to_owned(),
    )
}

/// The error for an unknown user.
pub open spec fn user_missing(user_id: Seq<char>) -> DbError<Seq<char>> {
    missing("User '"@, user_id, "' not found"@)
}

/// The error for a conversation that is not the user's.
pub open spec fn conversation_missing(conversation_id: Seq<char>) -> DbError<Seq<char>> {
    missing("Conversation '"@, conversation_id, "' not found for user"@)
}

/// The error for a memory entry that is not the user's.
pub open spec fn entry_missing(entry_id: Seq<char>) -> DbError<Seq<char>> {
    missing("Memory entry '"@, entry_id, "' not found"@)
}

/// A user's conversation.
pub open spec fn conversation_of(user_id: Seq<char>, id: Seq<char>) -> spec_fn(
    ConversationRow<Seq<char>>,
) -> bool {
    |row: ConversationRow<Seq<char>>| row.id == id && row.user_id == user_id
}

/// A user's settings.
pub open spec fn settings_of(user_id: Seq<char>) -> spec_fn(MemorySettingsRow<Seq<char>>) -> bool {
    |row: MemorySettingsRow<Seq<char>>| row.user_id == user_id
}

/// A conversation's own policy.
pub open spec fn policy_of(user_id: Seq<char>, conversation_id: Seq<char>) -> spec_fn(
    StoredMemoryPolicyRow<Seq<char>>,
) -> bool {
    |row: StoredMemoryPolicyRow<Seq<char>>|
        row.user_id == user_id && row.conversation_id == conversation_id
}

/// What is remembered of a conversation.
pub open spec fn memory_of(user_id: Seq<char>, conversation_id: Seq<char>) -> spec_fn(
    ConversationMemoryRow<Seq<char>>,
) -> bool {
    |row: ConversationMemoryRow<Seq<char>>|
        row.user_id == user_id && row.conversation_id == conversation_id
}

/// Finds a user's conversation.
pub fn find_conversation(rows: &Vec<ConversationRow>, user_id: &str, id: &str) -> (found: Option<
    usize,
>)
    ensures
        match found {
            Some(at) => at < rows.len() && lookup(model(rows@), conversation_of(user_id@, id@))
                == Some(rows[at as int]@) && exists_in(
                model(rows@),
                conversation_of(user_id@, id@),
            ),
            None => lookup(model(rows@), conversation_of(user_id@, id@)) is None && !exists_in(
                model(rows@),
                conversation_of(user_id@, id@),
            ),
        },
{
    find_where(
        rows,
        |row: &ConversationRow| -> (yes: bool)
            ensures yes == conversation_of(user_id@, id@)(row@)
            { same(row.id.as_str(), id) && same(row.user_id.as_str(), user_id) },
        Ghost(conversation_of(user_id@, id@)),
    )
}

/// Finds a user's settings.
pub fn find_settings(rows: &Vec<MemorySettingsRow>, user_id: &str) -> (found: Option<usize>)
    ensures
        match found {
            Some(at) => at < rows.len() && lookup(model(rows@), settings_of(user_id@)) == Some(
                rows[at as int]@,
            ),
            None => lookup(model(rows@), settings_of(user_id@)) is None,
        },
{
    find_where(
        rows,
        |row: &MemorySettingsRow| -> (yes: bool)
            ensures yes == settings_of(user_id@)(row@)
            { same(row.user_id.as_str(), user_id) },
        Ghost(settings_of(user_id@)),
    )
}

/// Finds a conversation's own policy.
pub fn find_policy(
    rows: &Vec<StoredMemoryPolicyRow>,
    user_id: &str,
    conversation_id: &str,
) -> (found:
    Option<usize>)
    ensures
        match found {
            Some(at) => at < rows.len() && lookup(
                model(rows@),
                policy_of(user_id@, conversation_id@),
            ) == Some(rows[at as int]@),
            None => lookup(model(rows@), policy_of(user_id@, conversation_id@)) is None,
        },
{
    find_where(
        rows,
        |row: &StoredMemoryPolicyRow| -> (yes: bool)
            ensures yes == policy_of(user_id@, conversation_id@)(row@)
            {
                same(row.user_id.as_str(), user_id) && same(
                    row.conversation_id.as_str(),
                    conversation_id,
                )
            },
        Ghost(policy_of(user_id@, conversation_id@)),
    )
}

/// Finds what is remembered of a conversation.
pub fn find_memory(
    rows: &Vec<ConversationMemoryRow>,
    user_id: &str,
    conversation_id: &str,
) -> (found:
    Option<usize>)
    ensures
        match found {
            Some(at) => at < rows.len() && lookup(
                model(rows@),
                memory_of(user_id@, conversation_id@),
            ) == Some(rows[at as int]@),
            None => lookup(model(rows@), memory_of(user_id@, conversation_id@)) is None,
        },
{
    find_where(
        rows,
        |row: &ConversationMemoryRow| -> (yes: bool)
            ensures yes == memory_of(user_id@, conversation_id@)(row@)
            {
                same(row.user_id.as_str(), user_id) && same(
                    row.conversation_id.as_str(),
                    conversation_id,
                )
            },
        Ghost(memory_of(user_id@, conversation_id@)),
    )
}

/// What a check came to.
pub open spec fn check_result(result: Result<(), DbError>) -> Result<(), DbError<Seq<char>>> {
    match result {
        Ok(()) => Ok(()),
        Err(error) => Err(error@),
    }
}

/// Whether a user exists.
pub open spec fn user_check(users: Seq<Seq<char>>, user_id: Seq<char>) -> Result<
    (),
    DbError<Seq<char>>,
> {
    if users.contains(user_id) {
        Ok(())
    } else {
        Err(user_missing(user_id))
    }
}

/// Whether a conversation is the user's.
pub open spec fn conversation_check(
    conversations: Seq<ConversationRow<Seq<char>>>,
    user_id: Seq<char>,
    conversation_id: Seq<char>,
) -> Result<(), DbError<Seq<char>>> {
    if exists_in(conversations, conversation_of(user_id, conversation_id)) {
        Ok(())
    } else {
        Err(conversation_missing(conversation_id))
    }
}

/// Checks that a user exists.
pub fn ensure_user(users: &Vec<String>, user_id: &str) -> (result: Result<(), DbError>)
    ensures
        check_result(result) == user_check(texts(users@), user_id@),
{
    if contains_text(users, user_id) {
        Ok(())
    } else {
        Err(not_found("User '", user_id, "' not found"))
    }
}

/// Checks that a conversation is the user's.
pub fn ensure_conversation(
    conversations: &Vec<ConversationRow>,
    user_id: &str,
    conversation_id: &str,
) -> (result: Result<(), DbError>)
    ensures
        check_result(result) == conversation_check(
            model(conversations@),
            user_id@,
            conversation_id@,
        ),
{
    match find_conversation(conversations, user_id, conversation_id) {
        Some(_) => Ok(()),
        None => Err(not_found("Conversation '", conversation_id, "' not found for user")),
    }
}

/// The later of two moments, where there is one.
pub open spec fn later_of(a: Option<i64>, b: Option<i64>) -> Option<i64> {
    match (a, b) {
        (Some(x), Some(y)) => Some(
            if x > y {
                x
            } else {
                y
            },
        ),
        (Some(x), None) => Some(x),
        (None, y) => y,
    }
}

/// Finds the later of two moments.
pub fn later(a: Option<i64>, b: Option<i64>) -> (time: Option<i64>)
    ensures
        time == later_of(a, b),
{
    match (a, b) {
        (Some(x), Some(y)) => Some(if x > y { x } else { y }),
        (Some(x), None) => Some(x),
        (None, y) => y,
    }
}

// ----------------------------------------------------------------------------
// Conversations that memory leaves out
// ----------------------------------------------------------------------------

/// Whether a conversation of this kind is left out.
pub open spec fn excluded_kind(kind: Seq<char>) -> bool {
    let name = ascii_lower(trim(kind));
    name == "health_check"@ || name == "health-check"@ || name == "internal"@ || name
        == "ephemeral"@
}

/// Whether a conversation from this source is left out.
pub open spec fn excluded_source(source: Seq<char>) -> bool {
    let name = ascii_lower(trim(source));
    name == "health_check"@ || name == "health-check"@ || name == "internal"@
}

/// Whether a conversation is left out: by its kind, by its source, or by a mark
/// in its extra data, which must be a JSON object.
pub open spec fn excluded_by(
    kind: Seq<char>,
    source: Option<Seq<char>>,
    members: Option<Seq<JsonMember<Seq<char>>>>,
) -> bool {
    ||| excluded_kind(kind)
    ||| source matches Some(name) && excluded_source(name)
    ||| match members {
        None => true,
        Some(list) => member_is_true(list, "health_check"@) || member_is_true(list, "internal"@)
            || member_is_true(list, "ephemeral"@),
    }
}

/// Whether a conversation is left out.
pub open spec fn is_excluded(kind: Seq<char>, source: Option<Seq<char>>, extra: Seq<char>) -> bool {
    excluded_by(kind, source, json_members(extra))
}

/// Decides whether a conversation is left out, its extra data having been read.
pub fn excluded_with(
    kind: &str,
    source: Option<&str>,
    members: &Option<Vec<JsonMember>>,
) -> (yes: bool)
    ensures
        yes == excluded_by(kind@, opt_str(source), members_read(*members)),
{
    let name = trimmed_lower(kind);
    if spells(&name, "health_check") || spells(&name, "health-check") || spells(&name, "internal")
        || spells(&name, "ephemeral") {
        return true;
    }
    match source {
        Some(text) => {
            let origin = trimmed_lower(text);
            if spells(&origin, "health_check") || spells(&origin, "health-check") || spells(
                &origin,
                "internal",
            ) {
                return true;
            }
        },
        None => {},
    }
    match members {
        None => true,
        Some(list) => true_member(list, "health_check") || true_member(list, "internal")
            || true_member(list, "ephemeral"),
    }
}

/// Decides whether a conversation is left out.
pub fn conversation_is_excluded(kind: &str, source: Option<&str>, extra: &str) -> (yes: bool)
    ensures
        yes == is_excluded(kind@, opt_str(source), extra@),
{
    let members = decode_object(extra);
    excluded_with(kind, source, &members)
}

} // verus!

//! Writing the entries of an update into the entry and source tables.
use crate::error::{conflict, conflict_with, missing, not_found, DbError};
use crate::json::{decode_list, json_text_list, list_read};
use crate::memory::commands::{
    CommitMemoryEntryRow, CommitMemoryEntryTransition, CommitMemorySourceRow,
    ExpectedMemoryEntryRow,
};
use crate::memory::evidence::of_turn;
use crate::memory::rows::{ConversationRow, MemoryEntryDbRow, MemorySourceRow, TurnMessageRow};
use crate::memory::store::{check_result, conversation_check, ensure_conversation, entry_missing};
use crate::table::{
    any_where, exists_in, find_where, lookup, model, selected, update_where, updated, Record,
};
use crate::text::{copy_opt, is_some_text, opt_str, opt_text, same, same_opt, texts};
use vstd::prelude::*;

verus! {

/// The model of an entry.
pub type Entry = MemoryEntryDbRow<Seq<char>>;

/// The model of a source.
pub type Source = MemorySourceRow<Seq<char>>;

// ----------------------------------------------------------------------------
// Checking sources
// ----------------------------------------------------------------------------

/// A message of a turn by its id.
pub open spec fn message_of_turn(
    id: Seq<char>,
    conversation_id: Seq<char>,
    turn_id: Seq<char>,
) -> spec_fn(TurnMessageRow<Seq<char>>) -> bool {
    |row: TurnMessageRow<Seq<char>>|
        row.message.id == id && row.message.conversation_id == conversation_id
            && row.message.turn_id == Some(turn_id)
}

/// Whether messages are there; the first that is not decides.
pub open spec fn messages_check(
    messages: Seq<TurnMessageRow<Seq<char>>>,
    source: CommitMemorySourceRow,
    ids: Seq<Seq<char>>,
) -> Result<(), DbError<Seq<char>>>
    decreases ids.len(),
{
    if ids.len() == 0 {
        Ok(())
    } else {
        match messages_check(messages, source, ids.drop_last()) {
            Err(error) => Err(error),
            Ok(()) => if exists_in(
                messages,
                message_of_turn(ids.last(), source.conversation_id@, source.turn_id@),
            ) {
                Ok(())
            } else {
                Err(missing("Memory source message '"@, ids.last(), "' not found"@))
            },
        }
    }
}

/// Whether a source's message ids, as they were read, name messages of its turn.
pub open spec fn listed_check(
    messages: Seq<TurnMessageRow<Seq<char>>>,
    source: CommitMemorySourceRow,
    read: Result<Seq<Seq<char>>, Seq<char>>,
) -> Result<(), DbError<Seq<char>>> {
    match read {
        Err(error) => Err(DbError::Conflict("Invalid Memory source message IDs: "@ + error)),
        Ok(ids) => if ids.len() == 0 {
            Err(DbError::Conflict("Memory source must reference at least one message"@))
        } else {
            messages_check(messages, source, ids)
        },
    }
}

/// Whether a source names a conversation of the user, a turn of it and messages
/// of that turn, its message ids having been read.
pub open spec fn source_check(
    conversations: Seq<ConversationRow<Seq<char>>>,
    messages: Seq<TurnMessageRow<Seq<char>>>,
    user_id: Seq<char>,
    source: CommitMemorySourceRow,
    read: Result<Seq<Seq<char>>, Seq<char>>,
) -> Result<(), DbError<Seq<char>>> {
    match conversation_check(conversations, user_id, source.conversation_id@) {
        Err(error) => Err(error),
        Ok(()) => if !exists_in(messages, of_turn(source.conversation_id@, source.turn_id@)) {
            Err(missing("Memory source turn '"@, source.turn_id@, "' not found"@))
        } else {
            listed_check(messages, source, read)
        },
    }
}

/// Whether sources hold; the first that does not decides.
pub open spec fn sources_check(
    conversations: Seq<ConversationRow<Seq<char>>>,
    messages: Seq<TurnMessageRow<Seq<char>>>,
    user_id: Seq<char>,
    sources: Seq<CommitMemorySourceRow>,
) -> Result<(), DbError<Seq<char>>>
    decreases sources.len(),
{
    if sources.len() == 0 {
        Ok(())
    } else {
        match sources_check(conversations, messages, user_id, sources.drop_last()) {
            Err(error) => Err(error),
            Ok(()) => source_check(
                conversations,
                messages,
                user_id,
                sources.last(),
                json_text_list(sources.last().message_ids_json@),
            ),
        }
    }
}

fn check_messages(
    messages: &Vec<TurnMessageRow>,
    source: &CommitMemorySourceRow,
    ids: &Vec<String>,
) -> (result: Result<(), DbError>)
    ensures
        check_result(result) == messages_check(model(messages@), *source, texts(ids@)),
{
    let ghost all = texts(ids@);
    let mut i: usize = 0;
    while i < ids.len()
        invariant
            i <= ids.len(),
            all == texts(ids@),
            messages_check(model(messages@), *source, all.take(i as int)) is Ok,
        decreases ids.len() - i,
    {
        let ghost next = all.take(i as int + 1);
        proof {
            assert(next.drop_last() =~= all.take(i as int));
            assert(next.last() == ids[i as int]@);
        }
        let id = ids[i].as_str();
        let found = any_where(
            messages,
            |row: &TurnMessageRow| -> (yes: bool)
                ensures yes == message_of_turn(id@, source.conversation_id@, source.turn_id@)(row@)
                {
                    same(row.message.id.as_str(), id) && same(
                        row.message.conversation_id.as_str(),
                        source.conversation_id.as_str(),
                    ) && is_some_text(&row.message.turn_id, source.turn_id.as_str())
                },
            Ghost(message_of_turn(id@, source.conversation_id@, source.turn_id@)),
        );
        if !found {
            proof {
                lemma_messages_check_stops(model(messages@), *source, all, i as int + 1);
            }
            return Err(not_found("Memory source message '", id, "' not found"));
        }
        i = i + 1;
    }
    assert(all.take(i as int) =~= all);
    Ok(())
}

proof fn lemma_messages_check_stops(
    messages: Seq<TurnMessageRow<Seq<char>>>,
    source: CommitMemorySourceRow,
    ids: Seq<Seq<char>>,
    size: int,
)
    requires
        0 <= size <= ids.len(),
        messages_check(messages, source, ids.take(size)) is Err,
    ensures
        messages_check(messages, source, ids) == messages_check(messages, source, ids.take(size)),
    decreases ids.len() - size,
{
    if size == ids.len() {
        assert(ids.take(size) =~= ids);
    } else {
        assert(ids.take(size + 1).drop_last() =~= ids.take(size));
        lemma_messages_check_stops(messages, source, ids, size + 1);
    }
}

/// Checks a source whose message ids were read.
pub fn check_source_with(
    conversations: &Vec<ConversationRow>,
    messages: &Vec<TurnMessageRow>,
    user_id: &str,
    source: &CommitMemorySourceRow,
    read: &Result<Vec<String>, String>,
) -> (result: Result<(), DbError>)
    ensures
        check_result(result) == source_check(
            model(conversations@),
            model(messages@),
            user_id@,
            *source,
            list_read(*read),
        ),
{
    match ensure_conversation(conversations, user_id, source.conversation_id.as_str()) {
        Ok(()) => {},
        Err(error) => {
            return Err(error);
        },
    }
    let turn_found = any_where(
        messages,
        |row: &TurnMessageRow| -> (yes: bool)
            ensures yes == of_turn(source.conversation_id@, source.turn_id@)(row@)
            {
                same(row.message.conversation_id.as_str(), source.conversation_id.as_str())
                    && is_some_text(&row.message.turn_id, source.turn_id.as_str())
            },
        Ghost(of_turn(source.conversation_id@, source.turn_id@)),
    );
    if !turn_found {
        return Err(not_found("Memory source turn '", source.turn_id.as_str(), "' not found"));
    }
    match read {
        Err(error) => Err(conflict_with("Invalid Memory source message IDs: ", error.as_str())),
        Ok(ids) => {
            if ids.len() == 0 {
                return Err(conflict("Memory source must reference at least one message"));
            }
            check_messages(messages, source, ids)
        },
    }
}

/// Checks the sources of an entry to be written.
pub fn validate_sources(
    conversations: &Vec<ConversationRow>,
    messages: &Vec<TurnMessageRow>,
    user_id: &str,
    sources: &Vec<CommitMemorySourceRow>,
) -> (result: Result<(), DbError>)
    ensures
        check_result(result) == sources_check(
            model(conversations@),
            model(messages@),
            user_id@,
            sources@,
        ),
{
    let ghost all = sources@;
    let mut i: usize = 0;
    while i < sources.len()
        invariant
            i <= sources.len(),
            all == sources@,
            sources_check(
                model(conversations@),
                model(messages@),
                user_id@,
                all.take(i as int),
            ) is Ok,
        decreases sources.len() - i,
    {
        let ghost next = all.take(i as int + 1);
        proof {
            assert(next.drop_last() =~= all.take(i as int));
            assert(next.last() == sources[i as int]);
        }
        let read = decode_list(sources[i].message_ids_json.as_str());
        match check_source_with(conversations, messages, user_id, &sources[i], &read) {
            Ok(()) => {},
            Err(error) => {
                proof {
                    lemma_sources_check_stops(
                        model(conversations@),
                        model(messages@),
                        user_id@,
                        all,
                        i as int + 1,
                    );
                }
                return Err(error);
            },
        }
        i = i + 1;
    }
    assert(all.take(i as int) =~= all);
    Ok(())
}

proof fn lemma_sources_check_stops(
    conversations: Seq<ConversationRow<Seq<char>>>,
    messages: Seq<TurnMessageRow<Seq<char>>>,
    user_id: Seq<char>,
    sources: Seq<CommitMemorySourceRow>,
    size: int,
)
    requires
        0 <= size <= sources.len(),
        sources_check(conversations, messages, user_id, sources.take(size)) is Err,
    ensures
        sources_check(conversations, messages, user_id, sources) == sources_check(
            conversations,
            messages,
            user_id,
            sources.take(size),
        ),
    decreases sources.len() - size,
{
    if size == sources.len() {
        assert(sources.take(size) =~= sources);
    } else {
        assert(sources.take(size + 1).drop_last() =~= sources.take(size));
        lemma_sources_check_stops(conversations, messages, user_id, sources, size + 1);
    }
}

// ----------------------------------------------------------------------------
// Writing sources
// ----------------------------------------------------------------------------

/// The row of a source, if an entry has it already.
pub open spec fn source_of(
    entry_id: Seq<char>,
    conversation_id: Seq<char>,
    turn_id: Seq<char>,
) -> spec_fn(Source) -> bool {
    |row: Source|
        row.memory_entry_id == entry_id && row.conversation_id == conversation_id && row.turn_id
            == turn_id
}

/// A source that is seen again.
pub open spec fn observed_again(
    message_ids_json: Seq<char>,
    now: i64,
) -> spec_fn(Source) -> Source {
    |row: Source| MemorySourceRow { message_ids_json, last_observed_at: now, ..row }
}

/// A source that is seen for the first time.
pub open spec fn new_source(
    entry_id: Seq<char>,
    source: CommitMemorySourceRow,
    now: i64,
) -> Source {
    MemorySourceRow {
        memory_entry_id: entry_id,
        conversation_id: source.conversation_id@,
        turn_id: source.turn_id@,
        message_ids_json: source.message_ids_json@,
        first_observed_at: now,
        last_observed_at: now,
    }
}

/// The sources after one more was seen.
pub open spec fn source_seen(
    rows: Seq<Source>,
    entry_id: Seq<char>,
    source: CommitMemorySourceRow,
    now: i64,
) -> Seq<Source> {
    let hit = source_of(entry_id, source.conversation_id@, source.turn_id@);
    if exists_in(rows, hit) {
        updated(rows, hit, observed_again(source.message_ids_json@, now))
    } else {
        rows.push(new_source(entry_id, source, now))
    }
}

/// The sources after some more were seen.
pub open spec fn sources_seen(
    rows: Seq<Source>,
    entry_id: Seq<char>,
    sources: Seq<CommitMemorySourceRow>,
    now: i64,
) -> Seq<Source>
    decreases sources.len(),
{
    if sources.len() == 0 {
        rows
    } else {
        source_seen(
            sources_seen(rows, entry_id, sources.drop_last(), now),
            entry_id,
            sources.last(),
            now,
        )
    }
}

/// Writes the sources of an entry.
pub fn upsert_sources(
    rows: &mut Vec<MemorySourceRow>,
    entry_id: &str,
    sources: &Vec<CommitMemorySourceRow>,
    now: i64,
)
    ensures
        model(final(rows)@) == sources_seen(model(old(rows)@), entry_id@, sources@, now),
{
    let ghost start = model(rows@);
    let mut i: usize = 0;
    while i < sources.len()
        invariant
            i <= sources.len(),
            model(rows@) == sources_seen(start, entry_id@, sources@.take(i as int), now),
        decreases sources.len() - i,
    {
        proof {
            let next = sources@.take(i as int + 1);
            assert(next.drop_last() =~= sources@.take(i as int));
            assert(next.last() == sources[i as int]);
        }
        let source = &sources[i];
        let ghost hit = source_of(entry_id@, source.conversation_id@, source.turn_id@);
        let known = any_where(
            rows,
            |row: &MemorySourceRow| -> (yes: bool)
                ensures yes == hit(row@)
                {
                    same(row.memory_entry_id.as_str(), entry_id) && same(
                        row.conversation_id.as_str(),
                        source.conversation_id.as_str(),
                    ) && same(row.turn_id.as_str(), source.turn_id.as_str())
                },
            Ghost(hit),
        );
        if known {
            let ghost change = observed_again(source.message_ids_json@, now);
            let _seen: u64 = update_where(
                rows,
                |row: &MemorySourceRow| -> (yes: bool)
                    ensures yes == hit(row@)
                    {
                        same(row.memory_entry_id.as_str(), entry_id) && same(
                            row.conversation_id.as_str(),
                            source.conversation_id.as_str(),
                        ) && same(row.turn_id.as_str(), source.turn_id.as_str())
                    },
                |row: &MemorySourceRow| -> (next: MemorySourceRow)
                    ensures next@ == change(row@)
                    {
                        MemorySourceRow {
                            message_ids_json: source.message_ids_json.clone(),
                            last_observed_at: now,
                            ..row.duplicate()
                        }
                    },
                Ghost(hit),
                Ghost(change),
            );
        } else {
            let row = MemorySourceRow {
                memory_entry_id: entry_id.to_owned(),
                conversation_id: source.conversation_id.clone(),
                turn_id: source.turn_id.clone(),
                message_ids_json: source.message_ids_json.clone(),
                first_observed_at: now,
                last_observed_at: now,
            };
            assert(row@ == new_source(entry_id@, *source, now));
            let ghost before = rows@;
            rows.push(row);
            assert(model(rows@) =~= model(before).push(row@));
        }
        i = i + 1;
    }
    assert(sources@.take(i as int) =~= sources@);
}

// ----------------------------------------------------------------------------
// Writing entries
// ----------------------------------------------------------------------------

/// The entries with an id.
pub open spec fn entry_with_id(id: Seq<char>) -> spec_fn(Entry) -> bool {
    |entry: Entry| entry.id == id
}

/// A user's entries of an identity in a state.
pub open spec fn identity_in_state(
    user_id: Seq<char>,
    fingerprint: Seq<char>,
    state: Seq<char>,
) -> spec_fn(Entry) -> bool {
    |entry: Entry|
        entry.user_id == user_id && entry.fingerprint == fingerprint && entry.state == state
}

/// A user's active entries of an identity, but for one entry.
pub open spec fn other_active(
    user_id: Seq<char>,
    fingerprint: Seq<char>,
    excluded: Option<Seq<char>>,
) -> spec_fn(Entry) -> bool {
    |entry: Entry|
        entry.user_id == user_id && entry.fingerprint == fingerprint && entry.state == "active"@
            && (match excluded {
            Some(id) => entry.id != id,
            None => true,
        })
}

/// The active entry that a writer means, whatever its content.
pub open spec fn roughly_expected(user_id: Seq<char>, target: ExpectedMemoryEntryRow) -> spec_fn(
    Entry,
) -> bool {
    |entry: Entry|
        entry.id == target.id@ && entry.user_id == user_id && entry.state == "active"@
            && entry.revision == target.revision && entry.fingerprint == target.fingerprint@
            && entry.project_id == opt_text(target.project_id) && entry.workspace_key == opt_text(
            target.workspace_key,
        )
}

/// The active entry that a writer means, as the writer believes it to be.
pub open spec fn expected(user_id: Seq<char>, target: ExpectedMemoryEntryRow) -> spec_fn(
    Entry,
) -> bool {
    |entry: Entry|
        roughly_expected(user_id, target)(entry) && entry.content == opt_text(target.content)
}

/// Whether a user's hand is on an entry.
pub open spec fn is_protected(entry: Entry) -> bool {
    entry.pinned || entry.user_edited
}

/// The entry that a writer means, if no user's hand is on it.
pub open spec fn expected_free(user_id: Seq<char>, target: ExpectedMemoryEntryRow) -> spec_fn(
    Entry,
) -> bool {
    |entry: Entry| expected(user_id, target)(entry) && !is_protected(entry)
}

/// The entry that a writer means, if a user's hand is on it.
pub open spec fn expected_protected(
    user_id: Seq<char>,
    target: ExpectedMemoryEntryRow,
) -> spec_fn(Entry) -> bool {
    |entry: Entry| expected(user_id, target)(entry) && is_protected(entry)
}

/// An entry that was written anew in its place.
pub open spec fn refined(written: CommitMemoryEntryRow, now: i64) -> spec_fn(Entry) -> Entry {
    |entry: Entry|
        MemoryEntryDbRow {
            project_id: opt_text(written.project_id),
            workspace_key: opt_text(written.workspace_key),
            kind: written.kind@,
            stable_key: written.stable_key@,
            fingerprint: written.fingerprint@,
            content: Some(written.content@),
            revision: (entry.revision + 1) as i64,
            updated_at: now,
            ..entry
        }
}

/// An entry that another took the place of.
pub open spec fn superseded(now: i64) -> spec_fn(Entry) -> Entry {
    |entry: Entry|
        MemoryEntryDbRow {
            state: "superseded"@,
            revision: (entry.revision + 1) as i64,
            updated_at: now,
            ..entry
        }
}

/// An entry that is in conflict with another.
pub open spec fn conflicting(group_id: Seq<char>, now: i64) -> spec_fn(Entry) -> Entry {
    |entry: Entry|
        MemoryEntryDbRow {
            state: "conflict"@,
            conflict_group_id: Some(group_id),
            revision: (entry.revision + 1) as i64,
            updated_at: now,
            ..entry
        }
}

/// A new entry.
pub open spec fn new_entry(
    user_id: Seq<char>,
    written: CommitMemoryEntryRow,
    state: Seq<char>,
    supersedes_id: Option<Seq<char>>,
    conflict_group_id: Option<Seq<char>>,
    schema_version: i64,
    now: i64,
) -> Entry {
    MemoryEntryDbRow {
        id: written.id@,
        user_id,
        project_id: opt_text(written.project_id),
        workspace_key: opt_text(written.workspace_key),
        kind: written.kind@,
        stable_key: written.stable_key@,
        fingerprint: written.fingerprint@,
        content: Some(written.content@),
        state,
        pinned: false,
        user_edited: false,
        revision: 0,
        supersedes_id,
        conflict_group_id,
        schema_version,
        deleted_at: None,
        created_at: now,
        updated_at: now,
    }
}

/// The error for an entry id that is taken.
pub open spec fn entry_id_taken() -> DbError<Seq<char>> {
    DbError::Query("UNIQUE constraint failed: memory_entries.id"@)
}

/// The entry and source tables while an update is written, and the ids of what
/// it has changed so far.
#[verifier::ext_equal]
pub struct Ledger {
    pub entries: Seq<Entry>,
    pub sources: Seq<Source>,
    pub added: Seq<Seq<char>>,
    pub refined: Seq<Seq<char>>,
    pub superseded: Seq<Seq<char>>,
    pub conflicts: Seq<Seq<char>>,
}

/// What writing an entry comes to.
pub enum EntryStep {
    /// The tables after it, or as they were where the entry is passed over.
    Written(Ledger),
    /// What is stored is not what the writer believes.
    Stale,
    /// The entry cannot be written.
    Failed(DbError<Seq<char>>),
}

/// The entry that a transition is about.
pub open spec fn target_of(transition: CommitMemoryEntryTransition) -> Option<
    ExpectedMemoryEntryRow,
> {
    match transition {
        CommitMemoryEntryTransition::Create => None,
        CommitMemoryEntryTransition::Refine { target } => Some(target),
        CommitMemoryEntryTransition::Supersede { target } => Some(target),
        CommitMemoryEntryTransition::Conflict { target, conflict_group_id } => Some(target),
        CommitMemoryEntryTransition::AttachSource { target } => Some(target),
    }
}

/// What an update is written for.
pub struct WriteContext {
    pub user_id: Seq<char>,
    pub schema_version: i64,
    pub now: i64,
}

/// Adds a new entry, where its id is free.
pub open spec fn with_new_entry(
    ledger: Ledger,
    written: CommitMemoryEntryRow,
    state: Seq<char>,
    supersedes_id: Option<Seq<char>>,
    conflict_group_id: Option<Seq<char>>,
    context: WriteContext,
) -> Option<Ledger> {
    if exists_in(ledger.entries, entry_with_id(written.id@)) {
        None
    } else {
        Some(
            Ledger {
                entries: ledger.entries.push(
                    new_entry(
                        context.user_id,
                        written,
                        state,
                        supersedes_id,
                        conflict_group_id,
                        context.schema_version,
                        context.now,
                    ),
                ),
                ..ledger
            },
        )
    }
}

/// The tables after the sources of an entry were written.
pub open spec fn with_sources(
    ledger: Ledger,
    entry_id: Seq<char>,
    written: CommitMemoryEntryRow,
    context: WriteContext,
) -> EntryStep {
    EntryStep::Written(
        Ledger {
            sources: sources_seen(ledger.sources, entry_id, written.sources@, context.now),
            ..ledger
        },
    )
}

/// Writes a new entry that nothing stored stands against.
pub open spec fn create_entry(
    ledger: Ledger,
    written: CommitMemoryEntryRow,
    context: WriteContext,
) -> EntryStep {
    if exists_in(ledger.entries, other_active(context.user_id, written.fingerprint@, None)) {
        EntryStep::Stale
    } else {
        match with_new_entry(ledger, written, "active"@, None, None, context) {
            None => EntryStep::Failed(entry_id_taken()),
            Some(next) => with_sources(
                Ledger { added: next.added.push(written.id@), ..next },
                written.id@,
                written,
                context,
            ),
        }
    }
}

/// Writes an entry in the place of a stored one.
pub open spec fn refine_entry(
    ledger: Ledger,
    written: CommitMemoryEntryRow,
    target: ExpectedMemoryEntryRow,
    context: WriteContext,
) -> EntryStep {
    let hit = expected_free(context.user_id, target);
    if exists_in(
        ledger.entries,
        other_active(context.user_id, written.fingerprint@, Some(target.id@)),
    ) || selected(ledger.entries, hit).len() != 1 {
        EntryStep::Stale
    } else {
        with_sources(
            Ledger {
                entries: updated(ledger.entries, hit, refined(written, context.now)),
                refined: ledger.refined.push(target.id@),
                ..ledger
            },
            target.id@,
            written,
            context,
        )
    }
}

/// Writes an entry that takes the place of a stored one.
pub open spec fn supersede_entry(
    ledger: Ledger,
    written: CommitMemoryEntryRow,
    target: ExpectedMemoryEntryRow,
    context: WriteContext,
) -> EntryStep {
    let hit = expected_free(context.user_id, target);
    if exists_in(
        ledger.entries,
        other_active(context.user_id, written.fingerprint@, Some(target.id@)),
    ) || selected(ledger.entries, hit).len() != 1 {
        EntryStep::Stale
    } else {
        let marked = Ledger {
            entries: updated(ledger.entries, hit, superseded(context.now)),
            ..ledger
        };
        match with_new_entry(marked, written, "active"@, Some(target.id@), None, context) {
            None => EntryStep::Failed(entry_id_taken()),
            Some(next) => with_sources(
                Ledger {
                    added: next.added.push(written.id@),
                    superseded: next.superseded.push(target.id@),
                    ..next
                },
                written.id@,
                written,
                context,
            ),
        }
    }
}

/// Marks the stored side of a conflict, unless a user's hand is on it.
pub open spec fn conflict_marked(
    ledger: Ledger,
    target: ExpectedMemoryEntryRow,
    group_id: Seq<char>,
    context: WriteContext,
) -> Option<Ledger> {
    match lookup(ledger.entries, expected(context.user_id, target)) {
        None => None,
        Some(entry) => if is_protected(entry) {
            Some(ledger)
        } else if selected(
            ledger.entries,
            roughly_expected(context.user_id, target),
        ).len() != 1 {
            None
        } else {
            Some(
                Ledger {
                    entries: updated(
                        ledger.entries,
                        roughly_expected(context.user_id, target),
                        conflicting(group_id, context.now),
                    ),
                    conflicts: ledger.conflicts.push(target.id@),
                    ..ledger
                },
            )
        },
    }
}

/// Writes an entry that is in conflict with a stored one.
pub open spec fn conflict_entry(
    ledger: Ledger,
    written: CommitMemoryEntryRow,
    target: ExpectedMemoryEntryRow,
    group_id: Seq<char>,
    context: WriteContext,
) -> EntryStep {
    match conflict_marked(ledger, target, group_id, context) {
        None => EntryStep::Stale,
        Some(marked) => match with_new_entry(
            marked,
            written,
            "conflict"@,
            None,
            Some(group_id),
            context,
        ) {
            None => EntryStep::Failed(entry_id_taken()),
            Some(next) => with_sources(
                Ledger { conflicts: next.conflicts.push(written.id@), ..next },
                written.id@,
                written,
                context,
            ),
        },
    }
}

/// Whether an entry to be written says what the stored one does.
pub open spec fn says_the_same(
    written: CommitMemoryEntryRow,
    target: ExpectedMemoryEntryRow,
) -> bool {
    &&& target.fingerprint@ == written.fingerprint@
    &&& opt_text(target.project_id) == opt_text(written.project_id)
    &&& opt_text(target.workspace_key) == opt_text(written.workspace_key)
    &&& opt_text(target.content) == Some(written.content@)
}

/// Adds sources to a stored entry that a user's hand is on and that says the
/// same.
pub open spec fn attach_sources(
    ledger: Ledger,
    written: CommitMemoryEntryRow,
    target: ExpectedMemoryEntryRow,
    context: WriteContext,
) -> EntryStep {
    if !says_the_same(written, target) || !exists_in(
        ledger.entries,
        expected_protected(context.user_id, target),
    ) {
        EntryStep::Stale
    } else {
        with_sources(
            Ledger { refined: ledger.refined.push(target.id@), ..ledger },
            target.id@,
            written,
            context,
        )
    }
}

/// Writes an entry as its transition says.
pub open spec fn write_transition(
    ledger: Ledger,
    written: CommitMemoryEntryRow,
    context: WriteContext,
) -> EntryStep {
    match written.transition {
        CommitMemoryEntryTransition::Create => create_entry(ledger, written, context),
        CommitMemoryEntryTransition::Refine { target } => refine_entry(
            ledger,
            written,
            target,
            context,
        ),
        CommitMemoryEntryTransition::Supersede { target } => supersede_entry(
            ledger,
            written,
            target,
            context,
        ),
        CommitMemoryEntryTransition::Conflict { target, conflict_group_id } => conflict_entry(
            ledger,
            written,
            target,
            conflict_group_id@,
            context,
        ),
        CommitMemoryEntryTransition::AttachSource { target } => attach_sources(
            ledger,
            written,
            target,
            context,
        ),
    }
}

/// What becomes of an entry whose target, if it has one, is the user's and is
/// expected to be active.
pub open spec fn write_admitted(
    conversations: Seq<ConversationRow<Seq<char>>>,
    messages: Seq<TurnMessageRow<Seq<char>>>,
    ledger: Ledger,
    written: CommitMemoryEntryRow,
    context: WriteContext,
) -> EntryStep {
    if exists_in(
        ledger.entries,
        identity_in_state(context.user_id, written.fingerprint@, "deleted"@),
    ) {
        EntryStep::Written(ledger)
    } else {
        match sources_check(conversations, messages, context.user_id, written.sources@) {
            Err(error) => EntryStep::Failed(error),
            Ok(()) => write_transition(ledger, written, context),
        }
    }
}

/// What writing one entry of an update comes to. An entry whose identity was
/// deleted is passed over.
pub open spec fn write_entry(
    conversations: Seq<ConversationRow<Seq<char>>>,
    messages: Seq<TurnMessageRow<Seq<char>>>,
    ledger: Ledger,
    written: CommitMemoryEntryRow,
    context: WriteContext,
) -> EntryStep {
    match target_of(written.transition) {
        None => write_admitted(conversations, messages, ledger, written, context),
        Some(target) => match lookup(ledger.entries, entry_with_id(target.id@)) {
            Some(entry) => if entry.user_id != context.user_id {
                EntryStep::Failed(entry_missing(target.id@))
            } else if target.state@ != "active"@ {
                EntryStep::Stale
            } else {
                write_admitted(conversations, messages, ledger, written, context)
            },
            None => EntryStep::Failed(entry_missing(target.id@)),
        },
    }
}

/// What writing the entries of an update one after the other comes to.
pub open spec fn write_entries(
    conversations: Seq<ConversationRow<Seq<char>>>,
    messages: Seq<TurnMessageRow<Seq<char>>>,
    ledger: Ledger,
    written: Seq<CommitMemoryEntryRow>,
    context: WriteContext,
) -> EntryStep
    decreases written.len(),
{
    if written.len() == 0 {
        EntryStep::Written(ledger)
    } else {
        match write_entries(conversations, messages, ledger, written.drop_last(), context) {
            EntryStep::Written(next) => write_entry(
                conversations,
                messages,
                next,
                written.last(),
                context,
            ),
            other => other,
        }
    }
}

/// Whether the revision of a stored entry that is to be changed can be raised.
pub open spec fn target_fits(written: CommitMemoryEntryRow) -> bool {
    match target_of(written.transition) {
        Some(target) => target.revision < i64::MAX,
        None => true,
    }
}

// ----------------------------------------------------------------------------
// The same in running code
// ----------------------------------------------------------------------------

/// The entry and source tables while an update is written.
pub struct LedgerRows {
    pub entries: Vec<MemoryEntryDbRow>,
    pub sources: Vec<MemorySourceRow>,
    pub added: Vec<String>,
    pub refined: Vec<String>,
    pub superseded: Vec<String>,
    pub conflicts: Vec<String>,
}

impl View for LedgerRows {
    type V = Ledger;

    open spec fn view(&self) -> Ledger {
        Ledger {
            entries: model(self.entries@),
            sources: model(self.sources@),
            added: texts(self.added@),
            refined: texts(self.refined@),
            superseded: texts(self.superseded@),
            conflicts: texts(self.conflicts@),
        }
    }
}

/// Whether writing was carried out as `expected` says: `true` where the tables
/// are the new ones, `false` where what is stored is stale.
pub open spec fn wrote(expected: EntryStep, result: Result<bool, DbError>, after: Ledger) -> bool {
    match expected {
        EntryStep::Written(ledger) => result == Ok::<bool, DbError>(true) && after == ledger,
        EntryStep::Stale => result == Ok::<bool, DbError>(false),
        EntryStep::Failed(wanted) => result matches Err(error) && error@ == wanted,
    }
}

fn add_id(ids: &mut Vec<String>, id: &str)
    ensures
        texts(final(ids)@) == texts(old(ids)@).push(id@),
{
    let ghost before = ids@;
    ids.push(id.to_owned());
    assert(texts(ids@) =~= texts(before).push(id@));
}

fn is_roughly_expected(
    entry: &MemoryEntryDbRow,
    user_id: &str,
    target: &ExpectedMemoryEntryRow,
) -> (yes:
    bool)
    ensures
        yes == roughly_expected(user_id@, *target)(entry@),
{
    same(entry.id.as_str(), target.id.as_str()) && same(entry.user_id.as_str(), user_id) && same(
        entry.state.as_str(),
        "active",
    ) && entry.revision == target.revision && same(
        entry.fingerprint.as_str(),
        target.fingerprint.as_str(),
    ) && same_opt(&entry.project_id, &target.project_id) && same_opt(
        &entry.workspace_key,
        &target.workspace_key,
    )
}

fn is_expected(
    entry: &MemoryEntryDbRow,
    user_id: &str,
    target: &ExpectedMemoryEntryRow,
) -> (yes: bool)
    ensures
        yes == expected(user_id@, *target)(entry@),
{
    is_roughly_expected(entry, user_id, target) && same_opt(&entry.content, &target.content)
}

/// Decides whether another active entry has an identity.
fn has_other_active(
    entries: &Vec<MemoryEntryDbRow>,
    user_id: &str,
    fingerprint: &str,
    excluded: Option<&str>,
) -> (yes: bool)
    ensures
        yes == exists_in(
            model(entries@),
            other_active(user_id@, fingerprint@, opt_str(excluded)),
        ),
{
    let ghost hit = other_active(user_id@, fingerprint@, opt_str(excluded));
    any_where(
        entries,
        |entry: &MemoryEntryDbRow| -> (yes: bool)
            ensures yes == hit(entry@)
            {
                same(entry.user_id.as_str(), user_id) && same(
                    entry.fingerprint.as_str(),
                    fingerprint,
                ) && same(entry.state.as_str(), "active") && match excluded {
                    Some(id) => !same(entry.id.as_str(), id),
                    None => true,
                }
            },
        Ghost(hit),
    )
}

/// Decides whether a user has an entry of an identity in a state.
pub fn has_identity(
    entries: &Vec<MemoryEntryDbRow>,
    user_id: &str,
    fingerprint: &str,
    state: &str,
) -> (yes: bool)
    ensures
        yes == exists_in(model(entries@), identity_in_state(user_id@, fingerprint@, state@)),
{
    any_where(
        entries,
        |entry: &MemoryEntryDbRow| -> (yes: bool)
            ensures yes == identity_in_state(user_id@, fingerprint@, state@)(entry@)
            {
                same(entry.user_id.as_str(), user_id) && same(
                    entry.fingerprint.as_str(),
                    fingerprint,
                ) && same(entry.state.as_str(), state)
            },
        Ghost(identity_in_state(user_id@, fingerprint@, state@)),
    )
}

impl LedgerRows {
    /// Adds a new entry; `false` where its id is taken.
    fn insert_entry(
        &mut self,
        written: &CommitMemoryEntryRow,
        state: &str,
        supersedes_id: Option<String>,
        conflict_group_id: Option<String>,
        user_id: &str,
        schema_version: i64,
        now: i64,
    ) -> (done: bool)
        ensures
            match with_new_entry(
                old(self)@,
                *written,
                state@,
                opt_text(supersedes_id),
                opt_text(conflict_group_id),
                WriteContext { user_id: user_id@, schema_version, now },
            ) {
                Some(ledger) => done && final(self)@ == ledger,
                None => !done,
            },
    {
        let id = written.id.as_str();
        let taken = any_where(
            &self.entries,
            |entry: &MemoryEntryDbRow| -> (yes: bool)
                ensures yes == entry_with_id(id@)(entry@)
                { same(entry.id.as_str(), id) },
            Ghost(entry_with_id(id@)),
        );
        if taken {
            return false;
        }
        let entry = MemoryEntryDbRow {
            id: written.id.clone(),
            user_id: user_id.to_owned(),
            project_id: copy_opt(&written.project_id),
            workspace_key: copy_opt(&written.workspace_key),
            kind: written.kind.clone(),
            stable_key: written.stable_key.clone(),
            fingerprint: written.fingerprint.clone(),
            content: Some(written.content.clone()),
            state: state.to_owned(),
            pinned: false,
            user_edited: false,
            revision: 0,
            supersedes_id,
            conflict_group_id,
            schema_version,
            deleted_at: None,
            created_at: now,
            updated_at: now,
        };
        let ghost before = self.entries@;
        self.entries.push(entry);
        assert(model(self.entries@) =~= model(before).push(entry@));
        true
    }

    /// Writes the entry in the place of a stored one.
    fn refine(
        &mut self,
        written: &CommitMemoryEntryRow,
        target: &ExpectedMemoryEntryRow,
        user_id: &str,
        schema_version: i64,
        now: i64,
    ) -> (result: Result<bool, DbError>)
        requires
            target.revision < i64::MAX,
        ensures
            wrote(
                refine_entry(
                    old(self)@,
                    *written,
                    *target,
                    WriteContext { user_id: user_id@, schema_version, now },
                ),
                result,
                final(self)@,
            ),
    {
        if has_other_active(
            &self.entries,
            user_id,
            written.fingerprint.as_str(),
            Some(target.id.as_str()),
        ) {
            return Ok(false);
        }
        let ghost hit = expected_free(user_id@, *target);
        let count: u64 = update_where(
            &mut self.entries,
            |entry: &MemoryEntryDbRow| -> (yes: bool)
                ensures yes == hit(entry@)
                { is_expected(entry, user_id, target) && !entry.pinned && !entry.user_edited },
            |entry: &MemoryEntryDbRow| -> (next: MemoryEntryDbRow)
                requires entry.revision < i64::MAX
                ensures next@ == refined(*written, now)(entry@)
                {
                    MemoryEntryDbRow {
                        project_id: copy_opt(&written.project_id),
                        workspace_key: copy_opt(&written.workspace_key),
                        kind: written.kind.clone(),
                        stable_key: written.stable_key.clone(),
                        fingerprint: written.fingerprint.clone(),
                        content: Some(written.content.clone()),
                        revision: entry.revision + 1,
                        updated_at: now,
                        ..entry.duplicate()
                    }
                },
            Ghost(hit),
            Ghost(refined(*written, now)),
        );
        if count != 1 {
            return Ok(false);
        }
        add_id(&mut self.refined, target.id.as_str());
        upsert_sources(&mut self.sources, target.id.as_str(), &written.sources, now);
        Ok(true)
    }

    /// Writes the entry so that it takes the place of a stored one.
    fn supersede(
        &mut self,
        written: &CommitMemoryEntryRow,
        target: &ExpectedMemoryEntryRow,
        user_id: &str,
        schema_version: i64,
        now: i64,
    ) -> (result: Result<bool, DbError>)
        requires
            target.revision < i64::MAX,
        ensures
            wrote(
                supersede_entry(
                    old(self)@,
                    *written,
                    *target,
                    WriteContext { user_id: user_id@, schema_version, now },
                ),
                result,
                final(self)@,
            ),
    {
        if has_other_active(
            &self.entries,
            user_id,
            written.fingerprint.as_str(),
            Some(target.id.as_str()),
        ) {
            return Ok(false);
        }
        let ghost hit = expected_free(user_id@, *target);
        let count: u64 = update_where(
            &mut self.entries,
            |entry: &MemoryEntryDbRow| -> (yes: bool)
                ensures yes == hit(entry@)
                { is_expected(entry, user_id, target) && !entry.pinned && !entry.user_edited },
            |entry: &MemoryEntryDbRow| -> (next: MemoryEntryDbRow)
                requires entry.revision < i64::MAX
                ensures next@ == superseded(now)(entry@)
                {
                    MemoryEntryDbRow {
                        state: "superseded".to_owned(),
                        revision: entry.revision + 1,
                        updated_at: now,
                        ..entry.duplicate()
                    }
                },
            Ghost(hit),
            Ghost(superseded(now)),
        );
        if count != 1 {
            return Ok(false);
        }
        if !self.insert_entry(
            written,
            "active",
            Some(target.id.clone()),
            None,
            user_id,
            schema_version,
            now,
        ) {
            return Err(DbError::Query("UNIQUE constraint failed: memory_entries.id".to_owned()));
        }
        add_id(&mut self.added, written.id.as_str());
        add_id(&mut self.superseded, target.id.as_str());
        upsert_sources(&mut self.sources, written.id.as_str(), &written.sources, now);
        Ok(true)
    }

    /// Marks the stored side of a conflict; `false` where it is stale.
    fn mark_conflict(
        &mut self,
        target: &ExpectedMemoryEntryRow,
        group_id: &str,
        user_id: &str,
        schema_version: i64,
        now: i64,
    ) -> (done: bool)
        requires
            target.revision < i64::MAX,
        ensures
            match conflict_marked(
                old(self)@,
                *target,
                group_id@,
                WriteContext { user_id: user_id@, schema_version, now },
            ) {
                Some(ledger) => done && final(self)@ == ledger,
                None => !done,
            },
    {
        let found = find_where(
            &self.entries,
            |entry: &MemoryEntryDbRow| -> (yes: bool)
                ensures yes == expected(user_id@, *target)(entry@)
                { is_expected(entry, user_id, target) },
            Ghost(expected(user_id@, *target)),
        );
        let at: usize = match found {
            Some(at) => at,
            None => {
                return false;
            },
        };
        if self.entries[at].pinned || self.entries[at].user_edited {
            return true;
        }
        let ghost hit = roughly_expected(user_id@, *target);
        let count: u64 = update_where(
            &mut self.entries,
            |entry: &MemoryEntryDbRow| -> (yes: bool)
                ensures yes == hit(entry@)
                { is_roughly_expected(entry, user_id, target) },
            |entry: &MemoryEntryDbRow| -> (next: MemoryEntryDbRow)
                requires entry.revision < i64::MAX
                ensures next@ == conflicting(group_id@, now)(entry@)
                {
                    MemoryEntryDbRow {
                        state: "conflict".to_owned(),
                        conflict_group_id: Some(group_id.to_owned()),
                        revision: entry.revision + 1,
                        updated_at: now,
                        ..entry.duplicate()
                    }
                },
            Ghost(hit),
            Ghost(conflicting(group_id@, now)),
        );
        if count != 1 {
            return false;
        }
        add_id(&mut self.conflicts, target.id.as_str());
        true
    }

    /// Writes the entry as its transition says.
    fn write_transition(
        &mut self,
        written: &CommitMemoryEntryRow,
        user_id: &str,
        schema_version: i64,
        now: i64,
    ) -> (result: Result<bool, DbError>)
        requires
            target_fits(*written),
        ensures
            wrote(
                write_transition(
                    old(self)@,
                    *written,
                    WriteContext { user_id: user_id@, schema_version, now },
                ),
                result,
                final(self)@,
            ),
    {
        match &written.transition {
            CommitMemoryEntryTransition::Create => {
                if has_other_active(&self.entries, user_id, written.fingerprint.as_str(), None) {
                    return Ok(false);
                }
                if !self.insert_entry(written, "active", None, None, user_id, schema_version, now) {
                    return Err(
                        DbError::Query("UNIQUE constraint failed: memory_entries.id".to_owned()),
                    );
                }
                add_id(&mut self.added, written.id.as_str());
                upsert_sources(&mut self.sources, written.id.as_str(), &written.sources, now);
                Ok(true)
            },
            CommitMemoryEntryTransition::Refine { target } => self.refine(
                written,
                target,
                user_id,
                schema_version,
                now,
            ),
            CommitMemoryEntryTransition::Supersede { target } => self.supersede(
                written,
                target,
                user_id,
                schema_version,
                now,
            ),
            CommitMemoryEntryTransition::Conflict { target, conflict_group_id } => {
                if !self.mark_conflict(
                    target,
                    conflict_group_id.as_str(),
                    user_id,
                    schema_version,
                    now,
                ) {
                    return Ok(false);
                }
                if !self.insert_entry(
                    written,
                    "conflict",
                    None,
                    Some(conflict_group_id.clone()),
                    user_id,
                    schema_version,
                    now,
                ) {
                    return Err(
                        DbError::Query("UNIQUE constraint failed: memory_entries.id".to_owned()),
                    );
                }
                add_id(&mut self.conflicts, written.id.as_str());
                upsert_sources(&mut self.sources, written.id.as_str(), &written.sources, now);
                Ok(true)
            },
            CommitMemoryEntryTransition::AttachSource { target } => {
                let same_words = same(target.fingerprint.as_str(), written.fingerprint.as_str())
                    && same_opt(&target.project_id, &written.project_id) && same_opt(
                    &target.workspace_key,
                    &written.workspace_key,
                ) && is_some_text(&target.content, written.content.as_str());
                if !same_words {
                    return Ok(false);
                }
                let there = any_where(
                    &self.entries,
                    |entry: &MemoryEntryDbRow| -> (yes: bool)
                        ensures yes == expected_protected(user_id@, *target)(entry@)
                        {
                            is_expected(entry, user_id, target) && (entry.pinned
                                || entry.user_edited)
                        },
                    Ghost(expected_protected(user_id@, *target)),
                );
                if !there {
                    return Ok(false);
                }
                add_id(&mut self.refined, target.id.as_str());
                upsert_sources(&mut self.sources, target.id.as_str(), &written.sources, now);
                Ok(true)
            },
        }
    }

    /// Writes one entry of an update.
    pub fn write_entry(
        &mut self,
        conversations: &Vec<ConversationRow>,
        messages: &Vec<TurnMessageRow>,
        written: &CommitMemoryEntryRow,
        user_id: &str,
        schema_version: i64,
        now: i64,
    ) -> (result: Result<bool, DbError>)
        requires
            target_fits(*written),
        ensures
            wrote(
                write_entry(
                    model(conversations@),
                    model(messages@),
                    old(self)@,
                    *written,
                    WriteContext { user_id: user_id@, schema_version, now },
                ),
                result,
                final(self)@,
            ),
    {
        let target: Option<&ExpectedMemoryEntryRow> = match &written.transition {
            CommitMemoryEntryTransition::Create => None,
            CommitMemoryEntryTransition::Refine { target } => Some(target),
            CommitMemoryEntryTransition::Supersede { target } => Some(target),
            CommitMemoryEntryTransition::Conflict { target, conflict_group_id: _ } => Some(target),
            CommitMemoryEntryTransition::AttachSource { target } => Some(target),
        };
        match target {
            None => {},
            Some(target) => {
                let id = target.id.as_str();
                let found = find_where(
                    &self.entries,
                    |entry: &MemoryEntryDbRow| -> (yes: bool)
                        ensures yes == entry_with_id(id@)(entry@)
                        { same(entry.id.as_str(), id) },
                    Ghost(entry_with_id(id@)),
                );
                let owned = match found {
                    Some(at) => same(self.entries[at].user_id.as_str(), user_id),
                    None => false,
                };
                if !owned {
                    return Err(not_found("Memory entry '", id, "' not found"));
                }
                if !same(target.state.as_str(), "active") {
                    return Ok(false);
                }
            },
        }
        if has_identity(&self.entries, user_id, written.fingerprint.as_str(), "deleted") {
            return Ok(true);
        }
        match validate_sources(conversations, messages, user_id, &written.sources) {
            Err(error) => Err(error),
            Ok(()) => self.write_transition(written, user_id, schema_version, now),
        }
    }

    /// Writes the entries of an update one after the other.
    pub fn write_entries(
        &mut self,
        conversations: &Vec<ConversationRow>,
        messages: &Vec<TurnMessageRow>,
        written: &Vec<CommitMemoryEntryRow>,
        user_id: &str,
        schema_version: i64,
        now: i64,
    ) -> (result: Result<bool, DbError>)
        requires
            forall|i: int| 0 <= i < written.len() ==> target_fits(#[trigger] written[i]),
        ensures
            wrote(
                write_entries(
                    model(conversations@),
                    model(messages@),
                    old(self)@,
                    written@,
                    WriteContext { user_id: user_id@, schema_version, now },
                ),
                result,
                final(self)@,
            ),
    {
        let ghost start = self@;
        let ghost context = WriteContext { user_id: user_id@, schema_version, now };
        let mut i: usize = 0;
        while i < written.len()
            invariant
                i <= written.len(),
                start == old(self)@,
                context == (WriteContext { user_id: user_id@, schema_version, now }),
                forall|k: int| 0 <= k < written.len() ==> target_fits(#[trigger] written[k]),
                write_entries(
                    model(conversations@),
                    model(messages@),
                    start,
                    written@.take(i as int),
                    context,
                ) == EntryStep::Written(self@),
            decreases written.len() - i,
        {
            proof {
                let next = written@.take(i as int + 1);
                assert(next.drop_last() =~= written@.take(i as int));
                assert(next.last() == written[i as int]);
            }
            let step = self.write_entry(
                conversations,
                messages,
                &written[i],
                user_id,
                schema_version,
                now,
            );
            match step {
                Ok(true) => {},
                other => {
                    proof {
                        lemma_write_stops(
                            model(conversations@),
                            model(messages@),
                            start,
                            written@,
                            context,
                            i as int + 1,
                        );
                    }
                    return other;
                },
            }
            i = i + 1;
        }
        assert(written@.take(i as int) =~= written@);
        Ok(true)
    }
}

proof fn lemma_write_stops(
    conversations: Seq<ConversationRow<Seq<char>>>,
    messages: Seq<TurnMessageRow<Seq<char>>>,
    ledger: Ledger,
    written: Seq<CommitMemoryEntryRow>,
    context: WriteContext,
    size: int,
)
    requires
        0 <= size <= written.len(),
        !(write_entries(conversations, messages, ledger, written.take(size), context)
            is Written),
    ensures
        write_entries(conversations, messages, ledger, written, context) == write_entries(
            conversations,
            messages,
            ledger,
            written.take(size),
            context,
        ),
    decreases written.len() - size,
{
    if size == written.len() {
        assert(written.take(size) =~= written);
    } else {
        assert(written.take(size + 1).drop_last() =~= written.take(size));
        lemma_write_stops(conversations, messages, ledger, written, context, size + 1);
    }
}

} // verus!

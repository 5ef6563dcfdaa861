//! What a user does to entries by hand: edit one, settle a conflict, delete one.
use crate::error::{conflict, conflict_of, not_found, DbError};
use crate::memory::commands::{
    ResolveMemoryConflictActionRow, ResolveMemoryConflictRow, UpdateMemoryEntryRow,
};
use crate::memory::entries::{entry_with_sources, remembered, source_for, Entry, Source};
use crate::memory::evidence::{
    content_hash, derive_memory_fingerprint, fingerprint_of, memory_entry_content_hash,
};
use crate::memory::finalize::{entry_of, find_entry};
use crate::memory::ledger::{entry_id_taken, entry_with_id, has_identity, identity_in_state};
use crate::memory::rows::{MemoryEntryDbRow, MemoryEntryRow, MemorySourceRow, RememberedEntry};
use crate::memory::store::{entry_missing, missing_row, row_missing, MemoryStore, StoreModel};
use crate::table::{
    any_where, copy_rows, delete_where, exists_in, find_where, lookup, model, ordered, removed,
    select_where, selected, sort_rows, update_where, updated, Record,
};
use crate::text::{
    before, borrow_opt, copy_opt, decimal, decimal_of, followed, is_some_text, joined, opt_str,
    opt_text, same, same_opt, text_before,
};
use vstd::prelude::*;

verus! {

// ----------------------------------------------------------------------------
// Editing an entry
// ----------------------------------------------------------------------------

/// The scope after an edit: the new one where one is given.
pub open spec fn scope_after(wanted: Option<Option<String>>, current: Option<Seq<char>>) -> Option<
    Seq<char>,
> {
    match wanted {
        Some(scope) => opt_text(scope),
        None => current,
    }
}

/// Whether an edit moves an entry to another scope.
pub open spec fn moves(input: UpdateMemoryEntryRow, current: Entry) -> bool {
    scope_after(input.project_id, current.project_id) != current.project_id || scope_after(
        input.workspace_key,
        current.workspace_key,
    ) != current.workspace_key
}

/// The user's other entries of an identity that bar it: active or deleted ones.
pub open spec fn bars(user_id: Seq<char>, fingerprint: Seq<char>, id: Seq<char>) -> spec_fn(
    Entry,
) -> bool {
    |entry: Entry|
        entry.user_id == user_id && entry.fingerprint == fingerprint && entry.id != id && (
        entry.state == "active"@ || entry.state == "deleted"@)
}

/// The identity of an entry after an edit.
pub open spec fn identity_after(
    entries: Seq<Entry>,
    input: UpdateMemoryEntryRow,
    current: Entry,
) -> Result<Seq<char>, DbError<Seq<char>>> {
    if moves(input, current) {
        match opt_text(input.new_fingerprint) {
            None => Err(DbError::Conflict("Memory scope edits require a rederived fingerprint"@)),
            Some(supplied) => if supplied != fingerprint_of(
                input.user_id@,
                scope_after(input.project_id, current.project_id),
                scope_after(input.workspace_key, current.workspace_key),
                current.kind,
                current.stable_key,
            ) {
                Err(DbError::Conflict("Memory scope fingerprint does not match identity"@))
            } else if exists_in(entries, bars(input.user_id@, supplied, input.id@)) {
                Err(DbError::Conflict("Memory scope identity is already active or tombstoned"@))
            } else {
                Ok(supplied)
            },
        }
    } else {
        match opt_text(input.new_fingerprint) {
            Some(supplied) => if supplied != current.fingerprint {
                Err(DbError::Conflict("Memory fingerprint cannot change without a scope edit"@))
            } else {
                Ok(current.fingerprint)
            },
            None => Ok(current.fingerprint),
        }
    }
}

/// The row that an edit was checked against.
pub open spec fn as_checked(current: Entry) -> spec_fn(Entry) -> bool {
    |entry: Entry|
        entry.id == current.id && entry.user_id == current.user_id && entry.state == current.state
            && entry.revision == current.revision && entry.fingerprint == current.fingerprint
}

/// An edited entry.
pub open spec fn edited(
    input: UpdateMemoryEntryRow,
    current: Entry,
    fingerprint: Seq<char>,
) -> spec_fn(
    Entry,
) -> Entry {
    |entry: Entry|
        MemoryEntryDbRow {
            content: match opt_text(input.content) {
                Some(text) => Some(text),
                None => entry.content,
            },
            user_edited: entry.user_edited || input.content is Some || moves(input, current),
            pinned: match input.pinned {
                Some(flag) => flag,
                None => entry.pinned,
            },
            project_id: scope_after(input.project_id, current.project_id),
            workspace_key: scope_after(input.workspace_key, current.workspace_key),
            fingerprint,
            revision: (entry.revision + 1) as i64,
            updated_at: input.now,
            ..entry
        }
}

/// The entry that an edit is about, if the edit may be made, and its identity
/// after the edit.
pub open spec fn edit_check(entries: Seq<Entry>, input: UpdateMemoryEntryRow) -> Result<
    (Entry, Seq<char>),
    DbError<Seq<char>>,
> {
    match lookup(entries, entry_of(input.id@, input.user_id@)) {
        None => Err(entry_missing(input.id@)),
        Some(current) => if current.state == "deleted"@ {
            Err(DbError::Conflict("Deleted Memory entry '"@ + input.id@ + "' cannot be updated"@))
        } else if current.revision != input.expected_revision || current.state
            != input.expected_state@ {
            Err(
                DbError::Conflict(
                    "Memory entry '"@ + input.id@ + "' revision or state changed"@,
                ),
            )
        } else {
            match identity_after(entries, input, current) {
                Err(error) => Err(error),
                Ok(fingerprint) => Ok((current, fingerprint)),
            }
        },
    }
}

/// The entries after an edit.
pub open spec fn entries_edited(
    entries: Seq<Entry>,
    input: UpdateMemoryEntryRow,
    current: Entry,
    fingerprint: Seq<char>,
) -> Seq<Entry> {
    updated(entries, as_checked(current), edited(input, current, fingerprint))
}

// ----------------------------------------------------------------------------
// Settling a conflict
// ----------------------------------------------------------------------------

/// A user's entries of a conflict group.
pub open spec fn in_group(user_id: Seq<char>, group_id: Seq<char>) -> spec_fn(Entry) -> bool {
    |entry: Entry| entry.user_id == user_id && entry.conflict_group_id == Some(group_id)
}

/// A user's entries of a conflict group that are still in conflict.
pub open spec fn in_conflict(user_id: Seq<char>, group_id: Seq<char>) -> spec_fn(Entry) -> bool {
    |entry: Entry| in_group(user_id, group_id)(entry) && entry.state == "conflict"@
}

/// The order of entries by age.
pub open spec fn older_entry() -> spec_fn(Entry, Entry) -> bool {
    |a: Entry, b: Entry|
        a.created_at < b.created_at || (a.created_at == b.created_at && text_before(a.id, b.id))
}

/// The entries that are in conflict with each other, the oldest first.
pub open spec fn members(
    entries: Seq<Entry>,
    user_id: Seq<char>,
    group_id: Seq<char>,
) -> Seq<Entry> {
    ordered(selected(entries, in_conflict(user_id, group_id)), older_entry())
}

/// An entry that lost a conflict.
pub open spec fn set_aside(now: i64) -> spec_fn(Entry) -> Entry {
    |entry: Entry|
        MemoryEntryDbRow {
            state: "superseded"@,
            conflict_group_id: None,
            revision: (entry.revision + 1) as i64,
            updated_at: now,
            ..entry
        }
}

/// An entry that won a conflict, with new content where there is any.
pub open spec fn settled(content: Option<Seq<char>>, now: i64) -> spec_fn(Entry) -> Entry {
    |entry: Entry|
        MemoryEntryDbRow {
            content: match content {
                Some(text) => Some(text),
                None => entry.content,
            },
            state: "active"@,
            user_edited: true,
            conflict_group_id: None,
            revision: (entry.revision + 1) as i64,
            updated_at: now,
            ..entry
        }
}

/// The entries after one of a conflict group won.
pub open spec fn one_settled(
    entries: Seq<Entry>,
    user_id: Seq<char>,
    group_id: Seq<char>,
    winner: Seq<char>,
    content: Option<Seq<char>>,
    now: i64,
) -> Seq<Entry> {
    updated(
        updated(entries, in_group(user_id, group_id), set_aside(now)),
        entry_of(winner, user_id),
        settled(content, now),
    )
}

/// The key that an entry gets when it is kept apart from those it was in
/// conflict with.
pub open spec fn apart_key(group_id: Seq<char>, entry_id: Seq<char>) -> Seq<char> {
    "resolved-"@ + content_hash(Some(group_id + ":"@ + entry_id))
}

/// An entry that is kept apart: active, under an identity of its own.
pub open spec fn kept_apart(user_id: Seq<char>, group_id: Seq<char>, now: i64) -> spec_fn(
    Entry,
) -> Entry {
    |entry: Entry|
        MemoryEntryDbRow {
            stable_key: apart_key(group_id, entry.id),
            fingerprint: fingerprint_of(
                user_id,
                entry.project_id,
                entry.workspace_key,
                entry.kind,
                apart_key(group_id, entry.id),
            ),
            state: "active"@,
            user_edited: true,
            conflict_group_id: None,
            revision: (entry.revision + 1) as i64,
            updated_at: now,
            ..entry
        }
}

/// The entries with an identity.
pub open spec fn with_fingerprint(fingerprint: Seq<char>) -> spec_fn(Entry) -> bool {
    |entry: Entry| entry.fingerprint == fingerprint
}

/// The first entry of each identity.
pub open spec fn first_of_each(list: Seq<Entry>) -> Seq<Entry>
    decreases list.len(),
{
    if list.len() == 0 {
        Seq::empty()
    } else if exists_in(list.drop_last(), with_fingerprint(list.last().fingerprint)) {
        first_of_each(list.drop_last())
    } else {
        first_of_each(list.drop_last()).push(list.last())
    }
}

/// The id of the tombstone of the identity number `index`.
pub open spec fn tombstone_id(prefix: Seq<char>, index: nat) -> Seq<char> {
    if index == 0 {
        prefix
    } else {
        prefix + "-"@ + decimal(index)
    }
}

/// The tombstone of an identity.
pub open spec fn tombstone(id: Seq<char>, user_id: Seq<char>, identity: Entry, now: i64) -> Entry {
    MemoryEntryDbRow {
        id,
        user_id,
        project_id: identity.project_id,
        workspace_key: identity.workspace_key,
        kind: identity.kind,
        stable_key: identity.stable_key,
        fingerprint: identity.fingerprint,
        content: None,
        state: "deleted"@,
        pinned: false,
        user_edited: false,
        revision: 0,
        supersedes_id: None,
        conflict_group_id: None,
        schema_version: identity.schema_version,
        deleted_at: Some(now),
        created_at: now,
        updated_at: now,
    }
}

/// The entries with a tombstone for each identity that has none.
pub open spec fn entombed(
    entries: Seq<Entry>,
    identities: Seq<Entry>,
    user_id: Seq<char>,
    prefix: Seq<char>,
    now: i64,
) -> Result<Seq<Entry>, DbError<Seq<char>>>
    decreases identities.len(),
{
    if identities.len() == 0 {
        Ok(entries)
    } else {
        match entombed(entries, identities.drop_last(), user_id, prefix, now) {
            Err(error) => Err(error),
            Ok(list) => {
                let identity = identities.last();
                let id = tombstone_id(prefix, (identities.len() - 1) as nat);
                if exists_in(list, identity_in_state(user_id, identity.fingerprint, "deleted"@)) {
                    Ok(list)
                } else if exists_in(list, entry_with_id(id)) {
                    Err(entry_id_taken())
                } else {
                    Ok(list.push(tombstone(id, user_id, identity, now)))
                }
            },
        }
    }
}

/// The conflict that an entry is in: its group and the entries in it.
pub open spec fn conflict_check(
    entries: Seq<Entry>,
    user_id: Seq<char>,
    entry_id: Seq<char>,
) -> Result<
    (Seq<char>, Seq<Entry>),
    DbError<Seq<char>>,
> {
    match lookup(entries, entry_of(entry_id, user_id)) {
        None => Err(entry_missing(entry_id)),
        Some(anchor) => if anchor.state != "conflict"@ {
            Err(DbError::Conflict("Memory entry is not in an unresolved conflict"@))
        } else {
            match anchor.conflict_group_id {
                None => Err(DbError::Conflict("Memory conflict is missing its group"@)),
                Some(group_id) => {
                    let list = members(entries, user_id, group_id);
                    if list.len() < 2 {
                        Err(DbError::Conflict("Memory conflict no longer has multiple versions"@))
                    } else {
                        Ok((group_id, list))
                    }
                },
            }
        },
    }
}

/// The entries after a conflict was settled.
pub open spec fn conflict_settled(
    entries: Seq<Entry>,
    input: ResolveMemoryConflictRow,
    group_id: Seq<char>,
    list: Seq<Entry>,
) -> Result<Seq<Entry>, DbError<Seq<char>>> {
    let user_id = input.user_id@;
    match input.action {
        ResolveMemoryConflictActionRow::Select { selected_entry_id } => if exists_in(
            list,
            entry_with_id(selected_entry_id@),
        ) {
            Ok(one_settled(entries, user_id, group_id, selected_entry_id@, None, input.now))
        } else {
            Err(entry_missing(selected_entry_id@))
        },
        ResolveMemoryConflictActionRow::Merge { content } => Ok(
            one_settled(entries, user_id, group_id, input.entry_id@, Some(content@), input.now),
        ),
        ResolveMemoryConflictActionRow::KeepSeparate { tombstone_id_prefix } => entombed(
            updated(
                entries,
                in_conflict(user_id, group_id),
                kept_apart(user_id, group_id, input.now),
            ),
            first_of_each(list),
            user_id,
            tombstone_id_prefix@,
            input.now,
        ),
    }
}

/// The user's entries of the ids of a list, with their sources.
pub open spec fn gathered(
    entries: Seq<Entry>,
    sources: Seq<Source>,
    list: Seq<Entry>,
    user_id: Seq<char>,
) -> Result<Seq<RememberedEntry>, DbError<Seq<char>>>
    decreases list.len(),
{
    if list.len() == 0 {
        Ok(Seq::empty())
    } else {
        match gathered(entries, sources, list.drop_last(), user_id) {
            Err(error) => Err(error),
            Ok(found) => match lookup(entries, entry_of(list.last().id, user_id)) {
                None => Err(row_missing()),
                Some(entry) => Ok(found.push(remembered(entry, sources))),
            },
        }
    }
}

/// What settling a conflict comes to: the entries after it, and those that were
/// in conflict as they are then.
pub open spec fn resolve_step(store: StoreModel, input: ResolveMemoryConflictRow) -> Result<
    (Seq<Entry>, Seq<RememberedEntry>),
    DbError<Seq<char>>,
> {
    match conflict_check(store.entries, input.user_id@, input.entry_id@) {
        Err(error) => Err(error),
        Ok((group_id, list)) => match conflict_settled(store.entries, input, group_id, list) {
            Err(error) => Err(error),
            Ok(entries) => match gathered(entries, store.sources, list, input.user_id@) {
                Err(error) => Err(error),
                Ok(found) => Ok((entries, found)),
            },
        },
    }
}

/// How often an entry's revision grows when one of a conflict group wins.
pub open spec fn settling_steps(
    entry: Entry,
    user_id: Seq<char>,
    group_id: Seq<char>,
    winner: Seq<char>,
) -> int {
    let aside: int = if in_group(user_id, group_id)(entry) {
        1
    } else {
        0
    };
    if entry_of(winner, user_id)(entry) {
        aside + 1
    } else {
        aside
    }
}

/// How often an entry's revision grows when a conflict is settled.
pub open spec fn resolving_steps(
    entry: Entry,
    input: ResolveMemoryConflictRow,
    group_id: Seq<char>,
    list: Seq<Entry>,
) -> int {
    let user_id = input.user_id@;
    match input.action {
        ResolveMemoryConflictActionRow::Select { selected_entry_id } => if exists_in(
            list,
            entry_with_id(selected_entry_id@),
        ) {
            settling_steps(entry, user_id, group_id, selected_entry_id@)
        } else {
            0
        },
        ResolveMemoryConflictActionRow::Merge { content } => settling_steps(
            entry,
            user_id,
            group_id,
            input.entry_id@,
        ),
        ResolveMemoryConflictActionRow::KeepSeparate { tombstone_id_prefix } => if in_conflict(
            user_id,
            group_id,
        )(entry) {
            1
        } else {
            0
        },
    }
}

/// Whether the revisions of the entries that settling a conflict changes can
/// grow as often as it changes them.
pub open spec fn revisions_can_grow(entries: Seq<Entry>, input: ResolveMemoryConflictRow) -> bool {
    conflict_check(entries, input.user_id@, input.entry_id@) matches Ok((group_id, list))
        ==> forall|i: int|
        0 <= i < entries.len() ==> (#[trigger] entries[i]).revision + resolving_steps(
            entries[i],
            input,
            group_id,
            list,
        ) <= i64::MAX
}

// ----------------------------------------------------------------------------
// Deleting an entry
// ----------------------------------------------------------------------------

/// A deleted entry: its content and what it was linked to are gone, its identity
/// stays.
pub open spec fn deleted(now: i64) -> spec_fn(Entry) -> Entry {
    |entry: Entry|
        MemoryEntryDbRow {
            content: None,
            state: "deleted"@,
            pinned: false,
            user_edited: false,
            supersedes_id: None,
            conflict_group_id: None,
            revision: (entry.revision + 1) as i64,
            deleted_at: Some(now),
            updated_at: now,
            ..entry
        }
}

/// Whether an entry is there for a user.
pub open spec fn owns_entry(entries: Seq<Entry>, user_id: Seq<char>, entry_id: Seq<char>) -> bool {
    lookup(entries, entry_with_id(entry_id)) matches Some(entry) && entry.user_id == user_id
}

/// The store after an entry was deleted.
pub open spec fn entry_deleted(
    store: StoreModel,
    user_id: Seq<char>,
    entry_id: Seq<char>,
    now: i64,
) -> StoreModel {
    StoreModel {
        entries: updated(store.entries, entry_of(entry_id, user_id), deleted(now)),
        sources: removed(store.sources, source_for(entry_id)),
        ..store
    }
}

// ----------------------------------------------------------------------------
// The same in running code
// ----------------------------------------------------------------------------

fn choose_scope(
    wanted: &Option<Option<String>>,
    current: &Option<String>,
) -> (scope: Option<String>)
    ensures
        opt_text(scope) == scope_after(*wanted, opt_text(*current)),
{
    match wanted {
        Some(scope) => copy_opt(scope),
        None => copy_opt(current),
    }
}

fn is_barred(
    entries: &Vec<MemoryEntryDbRow>,
    user_id: &str,
    fingerprint: &str,
    id: &str,
) -> (yes: bool)
    ensures
        yes == exists_in(model(entries@), bars(user_id@, fingerprint@, id@)),
{
    any_where(
        entries,
        |entry: &MemoryEntryDbRow| -> (yes: bool)
            ensures yes == bars(user_id@, fingerprint@, id@)(entry@)
            {
                same(entry.user_id.as_str(), user_id) && same(
                    entry.fingerprint.as_str(),
                    fingerprint,
                ) && !same(entry.id.as_str(), id) && (same(entry.state.as_str(), "active") || same(
                    entry.state.as_str(),
                    "deleted",
                ))
            },
        Ghost(bars(user_id@, fingerprint@, id@)),
    )
}

/// Decides an entry's identity after an edit.
fn decide_identity(
    entries: &Vec<MemoryEntryDbRow>,
    input: &UpdateMemoryEntryRow,
    current: &MemoryEntryDbRow,
    moved: bool,
    project_id: &Option<String>,
    workspace_key: &Option<String>,
) -> (result: Result<String, DbError>)
    requires
        moved == moves(*input, current@),
        opt_text(*project_id) == scope_after(input.project_id, current@.project_id),
        opt_text(*workspace_key) == scope_after(input.workspace_key, current@.workspace_key),
    ensures
        match (result, identity_after(model(entries@), *input, current@)) {
            (Ok(text), Ok(wanted)) => text@ == wanted,
            (Err(error), Err(wanted)) => error@ == wanted,
            _ => false,
        },
{
    if moved {
        match &input.new_fingerprint {
            None => Err(conflict("Memory scope edits require a rederived fingerprint")),
            Some(supplied) => {
                let derived = derive_memory_fingerprint(
                    input.user_id.as_str(),
                    borrow_opt(project_id),
                    borrow_opt(workspace_key),
                    current.kind.as_str(),
                    current.stable_key.as_str(),
                );
                if !same(supplied.as_str(), derived.as_str()) {
                    Err(conflict("Memory scope fingerprint does not match identity"))
                } else if is_barred(
                    entries,
                    input.user_id.as_str(),
                    supplied.as_str(),
                    input.id.as_str(),
                ) {
                    Err(conflict("Memory scope identity is already active or tombstoned"))
                } else {
                    Ok(supplied.clone())
                }
            },
        }
    } else {
        match &input.new_fingerprint {
            Some(supplied) => if !same(supplied.as_str(), current.fingerprint.as_str()) {
                Err(conflict("Memory fingerprint cannot change without a scope edit"))
            } else {
                Ok(current.fingerprint.clone())
            },
            None => Ok(current.fingerprint.clone()),
        }
    }
}

fn sort_by_age(list: Vec<MemoryEntryDbRow>) -> (sorted: Vec<MemoryEntryDbRow>)
    ensures
        model(sorted@) == ordered(model(list@), older_entry()),
{
    sort_rows(
        list,
        |a: &MemoryEntryDbRow, b: &MemoryEntryDbRow| -> (yes: bool)
            ensures yes == older_entry()(a@, b@)
            {
                a.created_at < b.created_at || (a.created_at == b.created_at && before(
                    a.id.as_str(),
                    b.id.as_str(),
                ))
            },
        Ghost(older_entry()),
    )
}

fn is_in_group(entry: &MemoryEntryDbRow, user_id: &str, group_id: &str) -> (yes: bool)
    ensures
        yes == in_group(user_id@, group_id@)(entry@),
{
    same(entry.user_id.as_str(), user_id) && is_some_text(&entry.conflict_group_id, group_id)
}

fn collect_members(entries: &Vec<MemoryEntryDbRow>, user_id: &str, group_id: &str) -> (list: Vec<
    MemoryEntryDbRow,
>)
    ensures
        model(list@) == members(model(entries@), user_id@, group_id@),
{
    let hits = select_where(
        entries,
        |entry: &MemoryEntryDbRow| -> (yes: bool)
            ensures yes == in_conflict(user_id@, group_id@)(entry@)
            { is_in_group(entry, user_id, group_id) && same(entry.state.as_str(), "conflict") },
        Ghost(in_conflict(user_id@, group_id@)),
    );
    sort_by_age(hits)
}

/// Lets one entry of a conflict group win.
fn settle_one(
    entries: &mut Vec<MemoryEntryDbRow>,
    user_id: &str,
    group_id: &str,
    winner: &str,
    content: Option<&str>,
    now: i64,
)
    requires
        forall|i: int|
            0 <= i < old(entries).len() ==> (#[trigger] old(entries)[i]).revision + settling_steps(
                old(entries)[i]@,
                user_id@,
                group_id@,
                winner@,
            ) <= i64::MAX,
    ensures
        model(final(entries)@) == one_settled(
            model(old(entries)@),
            user_id@,
            group_id@,
            winner@,
            opt_str(content),
            now,
        ),
{
    let ghost group = in_group(user_id@, group_id@);
    let ghost start = model(entries@);
    assert forall|i: int| 0 <= i < entries.len() && group((#[trigger] entries[i])@)
        implies entries[i].revision
        < i64::MAX by {
        assert(model(entries@)[i] == entries[i]@);
    }
    let _aside: u64 = update_where(
        entries,
        |entry: &MemoryEntryDbRow| -> (yes: bool)
            ensures yes == group(entry@)
            { is_in_group(entry, user_id, group_id) },
        |entry: &MemoryEntryDbRow| -> (next: MemoryEntryDbRow)
            requires entry.revision < i64::MAX
            ensures next@ == set_aside(now)(entry@)
            {
                MemoryEntryDbRow {
                    state: "superseded".to_owned(),
                    conflict_group_id: None,
                    revision: entry.revision + 1,
                    updated_at: now,
                    ..entry.duplicate()
                }
            },
        Ghost(group),
        Ghost(set_aside(now)),
    );
    let ghost middle = model(entries@);
    let ghost hit = entry_of(winner@, user_id@);
    let ghost wanted = opt_str(content);
    assert forall|i: int| 0 <= i < entries.len() && hit((#[trigger] entries[i])@)
        implies entries[i].revision
        < i64::MAX by {
        assert(middle[i] == entries[i]@);
        assert(middle.len() == start.len());
        assert(start[i].user_id == user_id@);
    }
    let _won: u64 = update_where(
        entries,
        |entry: &MemoryEntryDbRow| -> (yes: bool)
            ensures yes == hit(entry@)
            { same(entry.id.as_str(), winner) && same(entry.user_id.as_str(), user_id) },
        |entry: &MemoryEntryDbRow| -> (next: MemoryEntryDbRow)
            requires entry.revision < i64::MAX
            ensures next@ == settled(wanted, now)(entry@)
            {
                MemoryEntryDbRow {
                    content: match content {
                        Some(text) => Some(text.to_owned()),
                        None => copy_opt(&entry.content),
                    },
                    state: "active".to_owned(),
                    user_edited: true,
                    conflict_group_id: None,
                    revision: entry.revision + 1,
                    updated_at: now,
                    ..entry.duplicate()
                }
            },
        Ghost(hit),
        Ghost(settled(wanted, now)),
    );
}

fn make_apart_key(group_id: &str, entry_id: &str) -> (key: String)
    ensures
        key@ == apart_key(group_id@, entry_id@),
{
    let place = joined(group_id, ":", entry_id);
    let hash = memory_entry_content_hash(Some(place.as_str()));
    followed("resolved-", hash.as_str())
}

fn keep_apart(
    entry: &MemoryEntryDbRow,
    user_id: &str,
    group_id: &str,
    now: i64,
) -> (next: MemoryEntryDbRow)
    requires
        entry.revision < i64::MAX,
    ensures
        next@ == kept_apart(user_id@, group_id@, now)(entry@),
{
    let stable_key = make_apart_key(group_id, entry.id.as_str());
    let fingerprint = derive_memory_fingerprint(
        user_id,
        borrow_opt(&entry.project_id),
        borrow_opt(&entry.workspace_key),
        entry.kind.as_str(),
        stable_key.as_str(),
    );
    MemoryEntryDbRow {
        stable_key,
        fingerprint,
        state: "active".to_owned(),
        user_edited: true,
        conflict_group_id: None,
        revision: entry.revision + 1,
        updated_at: now,
        ..entry.duplicate()
    }
}

/// Collects the first entry of each identity.
fn collect_identities(list: &Vec<MemoryEntryDbRow>) -> (identities: Vec<MemoryEntryDbRow>)
    ensures
        model(identities@) == first_of_each(model(list@)),
{
    let ghost rows = model(list@);
    let mut identities: Vec<MemoryEntryDbRow> = Vec::new();
    let mut i: usize = 0;
    assert(model(identities@) =~= first_of_each(rows.take(0)));
    while i < list.len()
        invariant
            i <= list.len(),
            rows == model(list@),
            model(identities@) == first_of_each(rows.take(i as int)),
        decreases list.len() - i,
    {
        let ghost head = rows.take(i as int);
        let ghost next = rows.take(i as int + 1);
        assert(next.drop_last() =~= head);
        let fingerprint = list[i].fingerprint.as_str();
        assert(next.last() == list[i as int]@);
        let ghost hit = with_fingerprint(fingerprint@);
        let mut seen = false;
        let mut k: usize = 0;
        while k < i && !seen
            invariant
                k <= i < list.len(),
                rows == model(list@),
                head == rows.take(i as int),
                hit == with_fingerprint(fingerprint@),
                seen ==> exists_in(head, hit),
                !seen ==> forall|m: int| 0 <= m < k ==> !hit(#[trigger] head[m]),
            decreases i - k,
        {
            assert(head[k as int] == list[k as int]@);
            if same(list[k].fingerprint.as_str(), fingerprint) {
                assert(hit(head[k as int]));
                seen = true;
            }
            k = k + 1;
        }
        if !seen {
            let row = list[i].duplicate();
            let ghost before_push = identities@;
            identities.push(row);
            assert(model(identities@) =~= model(before_push).push(row@));
        }
        i = i + 1;
    }
    assert(rows.take(i as int) =~= rows);
    identities
}

proof fn lemma_entombed_stops(
    entries: Seq<Entry>,
    identities: Seq<Entry>,
    count: int,
    user_id: Seq<char>,
    prefix: Seq<char>,
    now: i64,
)
    requires
        0 <= count <= identities.len(),
        entombed(entries, identities.take(count), user_id, prefix, now) is Err,
    ensures
        entombed(entries, identities, user_id, prefix, now) == entombed(
            entries,
            identities.take(count),
            user_id,
            prefix,
            now,
        ),
    decreases identities.len(),
{
    if count == identities.len() {
        assert(identities.take(count) =~= identities);
    } else {
        assert(identities.drop_last().take(count) =~= identities.take(count));
        lemma_entombed_stops(entries, identities.drop_last(), count, user_id, prefix, now);
    }
}

/// Adds a tombstone for each identity that has none.
fn entomb(
    entries: &mut Vec<MemoryEntryDbRow>,
    identities: &Vec<MemoryEntryDbRow>,
    user_id: &str,
    prefix: &str,
    now: i64,
) -> (result: Result<(), DbError>)
    ensures
        match entombed(model(old(entries)@), model(identities@), user_id@, prefix@, now) {
            Ok(list) => result is Ok && model(final(entries)@) == list,
            Err(wanted) => result matches Err(error) && error@ == wanted,
        },
{
    let ghost start = model(entries@);
    let ghost rows = model(identities@);
    let mut i: usize = 0;
    assert(rows.take(0).len() == 0);
    while i < identities.len()
        invariant
            i <= identities.len(),
            start == model(old(entries)@),
            rows == model(identities@),
            entombed(start, rows.take(i as int), user_id@, prefix@, now) == Ok::<
                Seq<Entry>,
                DbError<Seq<char>>,
            >(model(entries@)),
        decreases identities.len() - i,
    {
        let ghost next = rows.take(i as int + 1);
        assert(next.drop_last() =~= rows.take(i as int));
        let identity = &identities[i];
        assert(next.last() == identity@);
        let id = if i == 0 {
            prefix.to_owned()
        } else {
            let number = decimal_of(i);
            joined(prefix, "-", number.as_str())
        };
        assert(id@ == tombstone_id(prefix@, i as nat));
        if !has_identity(entries, user_id, identity.fingerprint.as_str(), "deleted") {
            let taken = any_where(
                entries,
                |entry: &MemoryEntryDbRow| -> (yes: bool)
                    ensures yes == entry_with_id(id@)(entry@)
                    { same(entry.id.as_str(), id.as_str()) },
                Ghost(entry_with_id(id@)),
            );
            if taken {
                proof {
                    lemma_entombed_stops(start, rows, i as int + 1, user_id@, prefix@, now);
                }
                return Err(
                    DbError::Query("UNIQUE constraint failed: memory_entries.id".to_owned()),
                );
            }
            let row = MemoryEntryDbRow {
                id,
                user_id: user_id.to_owned(),
                project_id: copy_opt(&identity.project_id),
                workspace_key: copy_opt(&identity.workspace_key),
                kind: identity.kind.clone(),
                stable_key: identity.stable_key.clone(),
                fingerprint: identity.fingerprint.clone(),
                content: None,
                state: "deleted".to_owned(),
                pinned: false,
                user_edited: false,
                revision: 0,
                supersedes_id: None,
                conflict_group_id: None,
                schema_version: identity.schema_version,
                deleted_at: Some(now),
                created_at: now,
                updated_at: now,
            };
            let ghost before_push = entries@;
            entries.push(row);
            assert(model(entries@) =~= model(before_push).push(row@));
        }
        i = i + 1;
    }
    assert(rows.take(i as int) =~= rows);
    Ok(())
}

proof fn lemma_gathered_stops(
    entries: Seq<Entry>,
    sources: Seq<Source>,
    list: Seq<Entry>,
    count: int,
    user_id: Seq<char>,
)
    requires
        0 <= count <= list.len(),
        gathered(entries, sources, list.take(count), user_id) is Err,
    ensures
        gathered(entries, sources, list, user_id) == gathered(
            entries,
            sources,
            list.take(count),
            user_id,
        ),
    decreases list.len(),
{
    if count == list.len() {
        assert(list.take(count) =~= list);
    } else {
        assert(list.drop_last().take(count) =~= list.take(count));
        lemma_gathered_stops(entries, sources, list.drop_last(), count, user_id);
    }
}

/// Gathers the user's entries of the ids of a list, with their sources.
fn gather(
    entries: &Vec<MemoryEntryDbRow>,
    sources: &Vec<MemorySourceRow>,
    list: &Vec<MemoryEntryDbRow>,
    user_id: &str,
) -> (result: Result<Vec<MemoryEntryRow>, DbError>)
    ensures
        match (result, gathered(model(entries@), model(sources@), model(list@), user_id@)) {
            (Ok(rows), Ok(wanted)) => model(rows@) == wanted,
            (Err(error), Err(wanted)) => error@ == wanted,
            _ => false,
        },
{
    let ghost rows = model(list@);
    let mut found: Vec<MemoryEntryRow> = Vec::new();
    let mut i: usize = 0;
    assert(rows.take(0).len() == 0);
    assert(model(found@) =~= Seq::empty());
    while i < list.len()
        invariant
            i <= list.len(),
            rows == model(list@),
            gathered(model(entries@), model(sources@), rows.take(i as int), user_id@) == Ok::<
                Seq<RememberedEntry>,
                DbError<Seq<char>>,
            >(model(found@)),
        decreases list.len() - i,
    {
        let ghost next = rows.take(i as int + 1);
        assert(next.drop_last() =~= rows.take(i as int));
        assert(next.last() == list[i as int]@);
        match find_entry(entries, list[i].id.as_str(), user_id) {
            None => {
                proof {
                    lemma_gathered_stops(
                        model(entries@),
                        model(sources@),
                        rows,
                        i as int + 1,
                        user_id@,
                    );
                }
                return Err(missing_row());
            },
            Some(at) => {
                let row = entry_with_sources(&entries[at], sources);
                let ghost before_push = found@;
                found.push(row);
                assert(model(found@) =~= model(before_push).push(row@));
            },
        }
        i = i + 1;
    }
    assert(rows.take(i as int) =~= rows);
    Ok(found)
}

impl MemoryStore {
    /// Edits an entry, if it is as the user saw it.
    pub fn update_entry(&mut self, input: &UpdateMemoryEntryRow) -> (result: Result<
        MemoryEntryRow,
        DbError,
    >)
        requires
            input.expected_revision < i64::MAX,
        ensures
            match edit_check(old(self)@.entries, *input) {
                Err(wanted) => {
                    &&& result matches Err(error) && error@ == wanted
                    &&& final(self)@ == old(self)@
                },
                Ok((current, fingerprint)) => {
                    &&& result matches Ok(row) && row@ == remembered(
                        edited(*input, current, fingerprint)(current),
                        old(self)@.sources,
                    )
                    &&& final(self)@ == (StoreModel {
                        entries: entries_edited(
                            old(self)@.entries,
                            *input,
                            current,
                            fingerprint,
                        ),
                        ..old(self)@
                    })
                },
            },
    {
        let at: usize = match find_entry(&self.entries, input.id.as_str(), input.user_id.as_str()) {
            Some(at) => at,
            None => {
                return Err(not_found("Memory entry '", input.id.as_str(), "' not found"));
            },
        };
        let current = self.entries[at].duplicate();
        if same(current.state.as_str(), "deleted") {
            return Err(
                conflict_of("Deleted Memory entry '", input.id.as_str(), "' cannot be updated"),
            );
        }
        if current.revision != input.expected_revision || !same(
            current.state.as_str(),
            input.expected_state.as_str(),
        ) {
            return Err(
                conflict_of("Memory entry '", input.id.as_str(), "' revision or state changed"),
            );
        }
        let project_id = choose_scope(&input.project_id, &current.project_id);
        let workspace_key = choose_scope(&input.workspace_key, &current.workspace_key);
        let moved = !same_opt(&project_id, &current.project_id) || !same_opt(
            &workspace_key,
            &current.workspace_key,
        );
        let fingerprint = match decide_identity(
            &self.entries,
            input,
            &current,
            moved,
            &project_id,
            &workspace_key,
        ) {
            Ok(fingerprint) => fingerprint,
            Err(error) => {
                return Err(error);
            },
        };
        let ghost hit = as_checked(current@);
        let ghost change = edited(*input, current@, fingerprint@);
        let ghost start = self.entries@;
        let _count: u64 = update_where(
            &mut self.entries,
            |entry: &MemoryEntryDbRow| -> (yes: bool)
                ensures yes == hit(entry@)
                {
                    same(entry.id.as_str(), current.id.as_str()) && same(
                        entry.user_id.as_str(),
                        current.user_id.as_str(),
                    ) && same(entry.state.as_str(), current.state.as_str()) && entry.revision
                        == current.revision && same(
                        entry.fingerprint.as_str(),
                        current.fingerprint.as_str(),
                    )
                },
            |entry: &MemoryEntryDbRow| -> (next: MemoryEntryDbRow)
                requires
                    entry.revision < i64::MAX,
                    moved == moves(*input, current@),
                    opt_text(project_id) == scope_after(input.project_id, current@.project_id),
                    opt_text(workspace_key) == scope_after(
                        input.workspace_key,
                        current@.workspace_key,
                    )
                ensures next@ == change(entry@)
                {
                    MemoryEntryDbRow {
                        content: match &input.content {
                            Some(text) => Some(text.clone()),
                            None => copy_opt(&entry.content),
                        },
                        user_edited: entry.user_edited || input.content.is_some() || moved,
                        pinned: match input.pinned {
                            Some(flag) => flag,
                            None => entry.pinned,
                        },
                        project_id: copy_opt(&project_id),
                        workspace_key: copy_opt(&workspace_key),
                        fingerprint: fingerprint.clone(),
                        revision: entry.revision + 1,
                        updated_at: input.now,
                        ..entry.duplicate()
                    }
                },
            Ghost(hit),
            Ghost(change),
        );
        proof {
            assert(model(self.entries@).len() == model(start).len());
            assert(model(start)[at as int] == current@);
            assert(model(self.entries@)[at as int] == change(current@));
        }
        Ok(entry_with_sources(&self.entries[at], &self.sources))
    }

    /// Settles a conflict: one entry wins, one is written anew, or all are kept
    /// apart. Gives the entries that were in conflict as they are then.
    pub fn resolve_conflict(&mut self, input: &ResolveMemoryConflictRow) -> (result: Result<
        Vec<MemoryEntryRow>,
        DbError,
    >)
        requires
            revisions_can_grow(old(self)@.entries, *input),
        ensures
            match resolve_step(old(self)@, *input) {
                Err(wanted) => {
                    &&& result matches Err(error) && error@ == wanted
                    &&& final(self)@ == old(self)@
                },
                Ok((entries, found)) => {
                    &&& result matches Ok(rows) && model(rows@) == found
                    &&& final(self)@ == (StoreModel { entries, ..old(self)@ })
                },
            },
    {
        let user_id = input.user_id.as_str();
        let anchor: usize = match find_entry(&self.entries, input.entry_id.as_str(), user_id) {
            Some(at) => at,
            None => {
                return Err(not_found("Memory entry '", input.entry_id.as_str(), "' not found"));
            },
        };
        if !same(self.entries[anchor].state.as_str(), "conflict") {
            return Err(conflict("Memory entry is not in an unresolved conflict"));
        }
        let group_id = match &self.entries[anchor].conflict_group_id {
            Some(group_id) => group_id.clone(),
            None => {
                return Err(conflict("Memory conflict is missing its group"));
            },
        };
        let list = collect_members(&self.entries, user_id, group_id.as_str());
        assert(model(list@).len() == list.len());
        if list.len() < 2 {
            return Err(conflict("Memory conflict no longer has multiple versions"));
        }
        let mut entries = copy_rows(&self.entries);
        assert forall|i: int| 0 <= i < entries.len() implies (#[trigger] entries[i]).revision
            + resolving_steps(entries[i]@, *input, group_id@, model(list@)) <= i64::MAX by {
            assert(model(entries@)[i] == entries[i]@);
        }
        match &input.action {
            ResolveMemoryConflictActionRow::Select { selected_entry_id } => {
                let known = any_where(
                    &list,
                    |entry: &MemoryEntryDbRow| -> (yes: bool)
                        ensures yes == entry_with_id(selected_entry_id@)(entry@)
                        { same(entry.id.as_str(), selected_entry_id.as_str()) },
                    Ghost(entry_with_id(selected_entry_id@)),
                );
                if !known {
                    return Err(
                        not_found("Memory entry '", selected_entry_id.as_str(), "' not found"),
                    );
                }
                settle_one(
                    &mut entries,
                    user_id,
                    group_id.as_str(),
                    selected_entry_id.as_str(),
                    None,
                    input.now,
                );
            },
            ResolveMemoryConflictActionRow::Merge { content } => {
                settle_one(
                    &mut entries,
                    user_id,
                    group_id.as_str(),
                    input.entry_id.as_str(),
                    Some(content.as_str()),
                    input.now,
                );
            },
            ResolveMemoryConflictActionRow::KeepSeparate { tombstone_id_prefix } => {
                let ghost hit = in_conflict(user_id@, group_id@);
                assert forall|i: int|
                    0 <= i < entries.len() && hit((#[trigger] entries[i])@)
                        implies entries[i].revision
                    < i64::MAX by {
                    assert(model(entries@)[i] == entries[i]@);
                }
                let _count: u64 = update_where(
                    &mut entries,
                    |entry: &MemoryEntryDbRow| -> (yes: bool)
                        ensures yes == hit(entry@)
                        {
                            is_in_group(entry, user_id, group_id.as_str()) && same(
                                entry.state.as_str(),
                                "conflict",
                            )
                        },
                    |entry: &MemoryEntryDbRow| -> (next: MemoryEntryDbRow)
                        requires entry.revision < i64::MAX
                        ensures next@ == kept_apart(user_id@, group_id@, input.now)(entry@)
                        { keep_apart(entry, user_id, group_id.as_str(), input.now) },
                    Ghost(hit),
                    Ghost(kept_apart(user_id@, group_id@, input.now)),
                );
                let identities = collect_identities(&list);
                match entomb(
                    &mut entries,
                    &identities,
                    user_id,
                    tombstone_id_prefix.as_str(),
                    input.now,
                ) {
                    Ok(()) => {},
                    Err(error) => {
                        return Err(error);
                    },
                }
            },
        }
        match gather(&entries, &self.sources, &list, user_id) {
            Err(error) => Err(error),
            Ok(found) => {
                self.entries = entries;
                Ok(found)
            },
        }
    }

    /// Deletes an entry: its content and its sources go, its identity stays.
    pub fn delete_entry(&mut self, user_id: &str, entry_id: &str, now: i64) -> (result: Result<
        (),
        DbError,
    >)
        requires
            forall|i: int|
                0 <= i < old(self)@.entries.len() && entry_of(entry_id@, user_id@)(
                    #[trigger] old(self)@.entries[i],
                ) ==> old(self)@.entries[i].revision < i64::MAX,
        ensures
            if owns_entry(old(self)@.entries, user_id@, entry_id@) {
                result is Ok && final(self)@ == entry_deleted(
                    old(self)@,
                    user_id@,
                    entry_id@,
                    now,
                )
            } else {
                (result matches Err(error) && error@ == entry_missing(entry_id@)) && final(self)@
                    == old(self)@
            },
    {
        let found = find_where(
            &self.entries,
            |entry: &MemoryEntryDbRow| -> (yes: bool)
                ensures yes == entry_with_id(entry_id@)(entry@)
                { same(entry.id.as_str(), entry_id) },
            Ghost(entry_with_id(entry_id@)),
        );
        let owned = match found {
            Some(at) => same(self.entries[at].user_id.as_str(), user_id),
            None => false,
        };
        if !owned {
            return Err(not_found("Memory entry '", entry_id, "' not found"));
        }
        let _sources: u64 = delete_where(
            &mut self.sources,
            |source: &MemorySourceRow| -> (yes: bool)
                ensures yes == source_for(entry_id@)(source@)
                { same(source.memory_entry_id.as_str(), entry_id) },
            Ghost(source_for(entry_id@)),
        );
        let ghost hit = entry_of(entry_id@, user_id@);
        assert forall|i: int| 0 <= i < self.entries.len() && hit((#[trigger] self.entries[i])@)
            implies self.entries[i].revision
            < i64::MAX by {
            assert(old(self)@.entries[i] == self.entries[i]@);
        }
        let _count: u64 = update_where(
            &mut self.entries,
            |entry: &MemoryEntryDbRow| -> (yes: bool)
                ensures yes == hit(entry@)
                { same(entry.id.as_str(), entry_id) && same(entry.user_id.as_str(), user_id) },
            |entry: &MemoryEntryDbRow| -> (next: MemoryEntryDbRow)
                requires entry.revision < i64::MAX
                ensures next@ == deleted(now)(entry@)
                {
                    MemoryEntryDbRow {
                        content: None,
                        state: "deleted".to_owned(),
                        pinned: false,
                        user_edited: false,
                        supersedes_id: None,
                        conflict_group_id: None,
                        revision: entry.revision + 1,
                        deleted_at: Some(now),
                        updated_at: now,
                        ..entry.duplicate()
                    }
                },
            Ghost(hit),
            Ghost(deleted(now)),
        );
        Ok(())
    }
}

} // verus!

//! What a user's edits do to entries, field by field.
use crate::memory::commands::{
    ResolveMemoryConflictActionRow, ResolveMemoryConflictRow, UpdateMemoryEntryRow,
};
use crate::memory::edits::{
    bars, conflict_check, conflict_settled, edit_check, entombed, entries_edited, entry_deleted,
    first_of_each, gathered, in_conflict, kept_apart, older_entry, owns_entry, resolve_step,
};
use crate::memory::entries::{source_for, sources_for, Entry, Source};
use crate::memory::evidence::fingerprint_of;
use crate::memory::finalize::entry_of;
use crate::memory::ledger::entry_with_id;
use crate::memory::ledger_laws::entries_apart;
use crate::memory::store::StoreModel;
use crate::table::{
    exists_in, law_ordered, law_removed, law_selected, lemma_lookup, lookup, orders, selected,
    updated,
};
use crate::text::{lemma_text_order, lemma_text_transitive, opt_text, text_before};
use vstd::prelude::*;

verus! {

// ----------------------------------------------------------------------------
// Settling a conflict
// ----------------------------------------------------------------------------

/// Whether an entry kept whose it is, its kind, key and scope, and where it comes
/// from.
pub open spec fn keeps_identity(before: Entry, after: Entry) -> bool {
    &&& after.id == before.id
    &&& after.user_id == before.user_id
    &&& after.project_id == before.project_id
    &&& after.workspace_key == before.workspace_key
    &&& after.kind == before.kind
    &&& after.stable_key == before.stable_key
    &&& after.fingerprint == before.fingerprint
    &&& after.pinned == before.pinned
    &&& after.supersedes_id == before.supersedes_id
    &&& after.schema_version == before.schema_version
    &&& after.deleted_at == before.deleted_at
    &&& after.created_at == before.created_at
}

/// Whether an entry won a conflict: it is active, no longer disputed, counts as
/// edited, and says what it is to say.
pub open spec fn has_won(before: Entry, after: Entry, content: Option<Seq<char>>, now: i64) -> bool {
    &&& keeps_identity(before, after)
    &&& after.content == content
    &&& after.state == "active"@
    &&& after.user_edited
    &&& after.conflict_group_id is None
    &&& after.updated_at == now
    &&& before.revision < i64::MAX - 1 ==> before.revision < after.revision <= before.revision + 2
}

/// Whether an entry lost a conflict: it says what it said, but is superseded and
/// no longer disputed.
pub open spec fn has_lost(before: Entry, after: Entry, now: i64) -> bool {
    &&& keeps_identity(before, after)
    &&& after.content == before.content
    &&& after.state == "superseded"@
    &&& after.user_edited == before.user_edited
    &&& after.conflict_group_id is None
    &&& after.updated_at == now
    &&& before.revision < i64::MAX ==> after.revision == before.revision + 1
}

/// Whether one entry won its conflict group, the others of the group lost, and
/// every entry beside them is as it was.
pub open spec fn one_has_won(
    before: Seq<Entry>,
    after: Seq<Entry>,
    user: Seq<char>,
    group_id: Seq<char>,
    winner: Seq<char>,
    merged: Option<Seq<char>>,
    now: i64,
) -> bool {
    &&& after.len() == before.len()
    &&& forall|i: int|
        0 <= i < before.len() ==> {
            let old = before[i];
            let new = #[trigger] after[i];
            if old.id == winner && old.user_id == user {
                has_won(
                    old,
                    new,
                    if merged is Some {
                        merged
                    } else {
                        old.content
                    },
                    now,
                )
            } else if old.user_id == user && old.conflict_group_id == Some(group_id) {
                has_lost(old, new, now)
            } else {
                new == old
            }
        }
}

/// Whether each entry of a conflict is active for itself: it says what it said,
/// under a key of its own, and counts as edited. Every other entry is as it was,
/// and what is new is a tombstone of the user's.
pub open spec fn all_are_apart(
    before: Seq<Entry>,
    after: Seq<Entry>,
    user: Seq<char>,
    group_id: Seq<char>,
    now: i64,
) -> bool {
    &&& after.len() >= before.len()
    &&& forall|i: int|
        0 <= i < before.len() ==> {
            let old = before[i];
            let new = #[trigger] after[i];
            if old.user_id == user && old.conflict_group_id == Some(group_id) && old.state
                == "conflict"@ {
                &&& new.id == old.id
                &&& new.user_id == old.user_id
                &&& new.project_id == old.project_id
                &&& new.workspace_key == old.workspace_key
                &&& new.kind == old.kind
                &&& new.content == old.content
                &&& new.pinned == old.pinned
                &&& new.created_at == old.created_at
                &&& new.state == "active"@
                &&& new.user_edited
                &&& new.conflict_group_id is None
                &&& new.updated_at == now
                &&& new.fingerprint == fingerprint_of(
                    user,
                    new.project_id,
                    new.workspace_key,
                    new.kind,
                    new.stable_key,
                )
                &&& old.revision < i64::MAX ==> new.revision == old.revision + 1
            } else {
                new == old
            }
        }
    &&& forall|i: int|
        before.len() <= i < after.len() ==> {
            let new = #[trigger] after[i];
            &&& new.user_id == user
            &&& new.state == "deleted"@
            &&& new.content is None
            &&& new.deleted_at == Some(now)
            &&& new.conflict_group_id is None
            &&& !new.pinned
        }
}

proof fn lemma_entombed_adds(
    entries: Seq<Entry>,
    identities: Seq<Entry>,
    user: Seq<char>,
    prefix: Seq<char>,
    now: i64,
)
    ensures
        entombed(entries, identities, user, prefix, now) matches Ok(after) ==> {
            &&& after.len() >= entries.len()
            &&& forall|i: int| 0 <= i < entries.len() ==> #[trigger] after[i] == entries[i]
            &&& forall|i: int|
                entries.len() <= i < after.len() ==> {
                    let new = #[trigger] after[i];
                    &&& new.user_id == user
                    &&& new.state == "deleted"@
                    &&& new.content is None
                    &&& new.deleted_at == Some(now)
                    &&& new.conflict_group_id is None
                    &&& !new.pinned
                }
        },
    decreases identities.len(),
{
    if identities.len() > 0 {
        lemma_entombed_adds(entries, identities.drop_last(), user, prefix, now);
    }
}

/// A conflict is settled as the user says. The selected version is active with
/// the content, kind, key and scope that it had; a merged one has the merged
/// text; every other version is superseded with its content as it was. Kept
/// apart, each is active for itself. No other entry changes.
pub proof fn law_conflict_is_settled(store: StoreModel, input: ResolveMemoryConflictRow)
    ensures
        resolve_step(store, input) matches Ok((after, _)) ==> (conflict_check(
            store.entries,
            input.user_id@,
            input.entry_id@,
        ) matches Ok((group_id, _)) && match input.action {
            ResolveMemoryConflictActionRow::Select { selected_entry_id } => one_has_won(
                store.entries,
                after,
                input.user_id@,
                group_id,
                selected_entry_id@,
                None,
                input.now,
            ),
            ResolveMemoryConflictActionRow::Merge { content } => one_has_won(
                store.entries,
                after,
                input.user_id@,
                group_id,
                input.entry_id@,
                Some(content@),
                input.now,
            ),
            ResolveMemoryConflictActionRow::KeepSeparate { tombstone_id_prefix } => all_are_apart(
                store.entries,
                after,
                input.user_id@,
                group_id,
                input.now,
            ),
        }),
{
    if let Ok((after, found)) = resolve_step(store, input) {
        let user = input.user_id@;
        let (group_id, list) = conflict_check(store.entries, user, input.entry_id@)->Ok_0;
        match input.action {
            ResolveMemoryConflictActionRow::KeepSeparate { tombstone_id_prefix } => {
                let apart = updated(
                    store.entries,
                    in_conflict(user, group_id),
                    kept_apart(user, group_id, input.now),
                );
                lemma_entombed_adds(
                    apart,
                    first_of_each(list),
                    user,
                    tombstone_id_prefix@,
                    input.now,
                );
                assert forall|i: int| 0 <= i < store.entries.len() implies apart[i] == (
                #[trigger] after[i]) by {}
            },
            _ => {},
        }
    }
}

proof fn lemma_age_order()
    ensures
        orders(older_entry()),
{
    let less = older_entry();
    assert forall|a: Entry, b: Entry| #[trigger] less(a, b) implies !less(b, a) by {
        lemma_text_order(a.id, b.id);
    }
    assert forall|a: Entry, b: Entry, c: Entry| #[trigger] less(a, c) && !less(b, c)
        implies #[trigger] less(
        a,
        b,
    ) by {
        lemma_text_order(a.id, b.id);
        lemma_text_order(a.id, c.id);
        lemma_text_order(b.id, c.id);
        if text_before(a.id, c.id) && text_before(c.id, b.id) {
            lemma_text_transitive(a.id, c.id, b.id);
        }
    }
}

/// The conflict of an entry is the group that the entry, the user's and disputed,
/// names: at least two versions, and exactly the user's disputed entries of the
/// group. A selected version is one of them.
pub proof fn law_conflict_has_its_versions(store: StoreModel, input: ResolveMemoryConflictRow)
    ensures
        conflict_check(store.entries, input.user_id@, input.entry_id@) matches Ok((group_id, list))
            ==> {
            &&& exists|i: int|
                0 <= i < store.entries.len() && (#[trigger] store.entries[i]).id == input.entry_id@
                    && store.entries[i].user_id == input.user_id@ && store.entries[i].state
                    == "conflict"@ && store.entries[i].conflict_group_id == Some(group_id)
            &&& list.len() >= 2
            &&& forall|entry: Entry| #[trigger]
                list.contains(entry) == (store.entries.contains(entry) && entry.user_id
                    == input.user_id@ && entry.conflict_group_id == Some(group_id) && entry.state
                    == "conflict"@)
        },
        resolve_step(store, input) matches Ok(_) ==> (input.action matches
            ResolveMemoryConflictActionRow::Select { selected_entry_id } ==> exists|i: int|
            0 <= i < store.entries.len() && (#[trigger] store.entries[i]).id == selected_entry_id@
                && store.entries[i].user_id == input.user_id@ && store.entries[i].state
                == "conflict"@),
{
    let user = input.user_id@;
    let entries = store.entries;
    if let Ok((group_id, list)) = conflict_check(entries, user, input.entry_id@) {
        let hit = entry_of(input.entry_id@, user);
        lemma_lookup(entries, hit);
        let anchor = lookup(entries, hit)->0;
        let k = choose|k: int| 0 <= k < entries.len() && entries[k] == anchor;
        assert(entries[k].id == input.entry_id@);
        let some = selected(entries, in_conflict(user, group_id));
        law_selected(entries, in_conflict(user, group_id));
        lemma_age_order();
        law_ordered(some, older_entry());
        assert forall|entry: Entry| #[trigger]
            list.contains(entry) == (entries.contains(entry) && entry.user_id == user
                && entry.conflict_group_id == Some(group_id) && entry.state == "conflict"@) by {
            assert(list.contains(entry) == some.contains(entry));
        }
        if resolve_step(store, input) is Ok {
            if let ResolveMemoryConflictActionRow::Select { selected_entry_id } = input.action {
                let x = choose|x: int|
                    0 <= x < list.len() && (#[trigger] list[x]).id == selected_entry_id@;
                assert(list.contains(list[x]));
                let i = choose|i: int| 0 <= i < entries.len() && entries[i] == list[x];
                assert(entries[i].id == selected_entry_id@);
            }
        }
    }
}

/// What settling a conflict gives back is, for each version in its order, the
/// user's entry of that id as it is afterwards.
pub proof fn law_settled_versions_are_given(store: StoreModel, input: ResolveMemoryConflictRow)
    ensures
        resolve_step(store, input) matches Ok((after, found)) ==> (conflict_check(
            store.entries,
            input.user_id@,
            input.entry_id@,
        ) matches Ok((_, list)) && found.len() == list.len() && forall|i: int|
            0 <= i < found.len() ==> (#[trigger] found[i]).entry.id == list[i].id
                && found[i].entry.user_id == input.user_id@ && after.contains(found[i].entry)),
{
    if let Ok((after, found)) = resolve_step(store, input) {
        let (group_id, list) = conflict_check(store.entries, input.user_id@, input.entry_id@)->Ok_0;
        lemma_gathered(after, store.sources, list, input.user_id@);
    }
}

proof fn lemma_gathered(
    entries: Seq<Entry>,
    sources: Seq<Source>,
    list: Seq<Entry>,
    user: Seq<char>,
)
    ensures
        gathered(entries, sources, list, user) matches Ok(found) ==> found.len() == list.len()
            && forall|i: int|
            0 <= i < found.len() ==> (#[trigger] found[i]).entry.id == list[i].id
                && found[i].entry.user_id == user && entries.contains(found[i].entry),
    decreases list.len(),
{
    if list.len() > 0 {
        let head = list.drop_last();
        lemma_gathered(entries, sources, head, user);
        lemma_lookup(entries, entry_of(list.last().id, user));
        if let Ok(found) = gathered(entries, sources, list, user) {
            let before = gathered(entries, sources, head, user)->Ok_0;
            assert forall|i: int| 0 <= i < found.len() implies (#[trigger] found[i]).entry.id
                == list[i].id && found[i].entry.user_id == user && entries.contains(
                found[i].entry,
            ) by {
                if i < before.len() {
                    assert(found[i] == before[i]);
                    assert(head[i] == list[i]);
                }
            }
        }
    }
}

// ----------------------------------------------------------------------------
// Editing and deleting an entry
// ----------------------------------------------------------------------------

/// An edit needs the entry as the user knows it: theirs, not deleted, in the
/// revision and state that they name.
pub proof fn law_edit_is_of_the_known_entry(entries: Seq<Entry>, input: UpdateMemoryEntryRow)
    ensures
        edit_check(entries, input) matches Ok((current, fingerprint)) ==> {
            &&& entries.contains(current)
            &&& current.id == input.id@
            &&& current.user_id == input.user_id@
            &&& current.state != "deleted"@
            &&& current.state == input.expected_state@
            &&& current.revision == input.expected_revision
            &&& input.project_id is None && input.workspace_key is None ==> fingerprint
                == current.fingerprint
            &&& fingerprint != current.fingerprint ==> opt_text(input.new_fingerprint) == Some(
                fingerprint,
            ) && forall|i: int|
                0 <= i < entries.len() && (#[trigger] entries[i]).user_id == input.user_id@
                    && entries[i].fingerprint == fingerprint && entries[i].id != input.id@
                    ==> entries[i].state != "active"@ && entries[i].state != "deleted"@
        },
{
    lemma_lookup(entries, entry_of(input.id@, input.user_id@));
    if let Ok((current, fingerprint)) = edit_check(entries, input) {
        if fingerprint != current.fingerprint {
            let bar = bars(input.user_id@, fingerprint, input.id@);
            assert(!exists_in(entries, bar));
            assert forall|i: int|
                0 <= i < entries.len() && (#[trigger] entries[i]).user_id == input.user_id@
                    && entries[i].fingerprint == fingerprint && entries[i].id != input.id@
                implies entries[i].state != "active"@ && entries[i].state != "deleted"@ by {
                assert(!bar(entries[i]));
            }
        }
    }
}

/// An edit writes what the user gives and leaves the rest of the entry alone: the
/// content, the pin and the scope are the given ones where there are any. An edit
/// of content or scope is remembered as one. No other entry changes.
pub proof fn law_edit_writes_what_is_given(
    entries: Seq<Entry>,
    input: UpdateMemoryEntryRow,
    current: Entry,
    fingerprint: Seq<char>,
    at: int,
)
    requires
        edit_check(entries, input) matches Ok((row, identity)) && row == current && identity
            == fingerprint,
        entries_apart(entries),
        input.expected_revision < i64::MAX,
        0 <= at < entries.len(),
    ensures
        ({
            let after = entries_edited(entries, input, current, fingerprint);
            let old = entries[at];
            let new = after[at];
            &&& after.len() == entries.len()
            &&& if old.id == input.id@ {
                &&& old == current
                &&& new.id == old.id
                &&& new.user_id == old.user_id
                &&& new.kind == old.kind
                &&& new.stable_key == old.stable_key
                &&& new.state == old.state
                &&& new.created_at == old.created_at
                &&& new.deleted_at == old.deleted_at
                &&& new.schema_version == old.schema_version
                &&& new.supersedes_id == old.supersedes_id
                &&& new.conflict_group_id == old.conflict_group_id
                &&& new.fingerprint == fingerprint
                &&& new.revision == old.revision + 1
                &&& new.updated_at == input.now
                &&& new.content == match input.content {
                    Some(text) => Some(text@),
                    None => old.content,
                }
                &&& new.pinned == match input.pinned {
                    Some(flag) => flag,
                    None => old.pinned,
                }
                &&& new.project_id == match input.project_id {
                    Some(scope) => opt_text(scope),
                    None => old.project_id,
                }
                &&& new.workspace_key == match input.workspace_key {
                    Some(scope) => opt_text(scope),
                    None => old.workspace_key,
                }
                &&& new.user_edited == (old.user_edited || input.content is Some || new.project_id
                    != old.project_id || new.workspace_key != old.workspace_key)
            } else {
                new == old
            }
        }),
{
    let hit = entry_of(input.id@, input.user_id@);
    lemma_lookup(entries, hit);
    let k = choose|k: int| 0 <= k < entries.len() && entries[k] == current;
    if at < k {
        assert(entries[at].id != entries[k].id);
    }
    if k < at {
        assert(entries[k].id != entries[at].id);
    }
}

/// A deleted entry loses its content, its sources and its pin, and stays as a
/// tombstone of its identity; no other entry and no other source changes.
pub proof fn law_deletion_leaves_a_tombstone(
    store: StoreModel,
    user: Seq<char>,
    entry_id: Seq<char>,
    now: i64,
)
    ensures
        owns_entry(store.entries, user, entry_id) ==> exists|i: int|
            0 <= i < store.entries.len() && (#[trigger] store.entries[i]).id == entry_id
                && store.entries[i].user_id == user,
        ({
            let after = entry_deleted(store, user, entry_id, now);
            &&& after.entries.len() == store.entries.len()
            &&& forall|i: int|
                0 <= i < store.entries.len() ==> {
                    let old = store.entries[i];
                    let new = #[trigger] after.entries[i];
                    if old.id == entry_id && old.user_id == user {
                        &&& new.id == old.id
                        &&& new.user_id == old.user_id
                        &&& new.project_id == old.project_id
                        &&& new.workspace_key == old.workspace_key
                        &&& new.kind == old.kind
                        &&& new.stable_key == old.stable_key
                        &&& new.fingerprint == old.fingerprint
                        &&& new.created_at == old.created_at
                        &&& new.content is None
                        &&& new.state == "deleted"@
                        &&& !new.pinned
                        &&& !new.user_edited
                        &&& new.conflict_group_id is None
                        &&& new.supersedes_id is None
                        &&& new.deleted_at == Some(now)
                        &&& new.updated_at == now
                        &&& old.revision < i64::MAX ==> new.revision == old.revision + 1
                    } else {
                        new == old
                    }
                }
            &&& forall|row: Source| #[trigger]
                after.sources.contains(row) == (store.sources.contains(row) && row.memory_entry_id
                    != entry_id)
            &&& after == (StoreModel {
                entries: after.entries,
                sources: after.sources,
                ..store
            })
        }),
{
    law_removed(store.sources, source_for(entry_id));
    lemma_lookup(store.entries, entry_with_id(entry_id));
    if owns_entry(store.entries, user, entry_id) {
        let row = lookup(store.entries, entry_with_id(entry_id))->0;
        let k = choose|k: int| 0 <= k < store.entries.len() && store.entries[k] == row;
        assert(store.entries[k].id == entry_id);
    }
}

// ----------------------------------------------------------------------------
// What is owed
// ----------------------------------------------------------------------------

/// Where an edit leaves an entry: where it is told to, or where it was.
pub open spec fn goes_where(wanted: Option<Option<String>>, old: Option<Seq<char>>) -> Option<
    Seq<char>,
> {
    if wanted is Some {
        opt_text(wanted->0)
    } else {
        old
    }
}

/// An entry that an edit moves has the identity that it has in its new place, and
/// no other that is active or deleted has it; one that stays keeps its own.
pub proof fn law_moved_entry_has_its_identity(entries: Seq<Entry>, input: UpdateMemoryEntryRow)
    ensures
        edit_check(entries, input) matches Ok((current, fingerprint)) ==> {
            let project = goes_where(input.project_id, current.project_id);
            let workspace = goes_where(input.workspace_key, current.workspace_key);
            &&& project == current.project_id && workspace == current.workspace_key ==> fingerprint
                == current.fingerprint
            &&& project != current.project_id || workspace != current.workspace_key ==> fingerprint
                == fingerprint_of(
                input.user_id@,
                project,
                workspace,
                current.kind,
                current.stable_key,
            ) && forall|i: int|
                0 <= i < entries.len() && (#[trigger] entries[i]).user_id == input.user_id@
                    && entries[i].fingerprint == fingerprint && entries[i].id != input.id@
                    ==> entries[i].state != "active"@ && entries[i].state != "deleted"@
        },
{
    if let Ok((current, fingerprint)) = edit_check(entries, input) {
        let bar = bars(input.user_id@, fingerprint, input.id@);
        if !exists_in(entries, bar) {
            assert forall|i: int|
                0 <= i < entries.len() && (#[trigger] entries[i]).user_id == input.user_id@
                    && entries[i].fingerprint == fingerprint && entries[i].id != input.id@
                implies entries[i].state != "active"@ && entries[i].state != "deleted"@ by {
                assert(!bar(entries[i]));
            }
        }
    }
}

/// An edit of an entry of the user's that is not deleted, and that is as the user
/// knows it, is accepted: where the entry stays, and where it moves under the
/// identity of its new place and nobody has that.
pub proof fn law_edit_is_owed(entries: Seq<Entry>, input: UpdateMemoryEntryRow, at: int)
    requires
        entries_apart(entries),
        0 <= at < entries.len(),
        entries[at].id == input.id@,
        entries[at].user_id == input.user_id@,
        entries[at].state != "deleted"@,
        entries[at].state == input.expected_state@,
        entries[at].revision == input.expected_revision,
        ({
            let project = goes_where(input.project_id, entries[at].project_id);
            let workspace = goes_where(input.workspace_key, entries[at].workspace_key);
            ||| project == entries[at].project_id && workspace == entries[at].workspace_key && (
            input.new_fingerprint is None || input.new_fingerprint->0@ == entries[at].fingerprint)
            ||| (project != entries[at].project_id || workspace != entries[at].workspace_key)
                && opt_text(input.new_fingerprint) == Some(
                fingerprint_of(
                    input.user_id@,
                    project,
                    workspace,
                    entries[at].kind,
                    entries[at].stable_key,
                ),
            ) && forall|i: int|
                0 <= i < entries.len() && (#[trigger] entries[i]).user_id == input.user_id@
                    && Some(entries[i].fingerprint) == opt_text(input.new_fingerprint)
                    && entries[i].id != input.id@ ==> entries[i].state != "active"@
                    && entries[i].state != "deleted"@
        }),
    ensures
        edit_check(entries, input) matches Ok((current, _)) && current == entries[at],
{
    let hit = entry_of(input.id@, input.user_id@);
    lemma_lookup(entries, hit);
    assert(hit(entries[at]));
    let current = lookup(entries, hit)->0;
    let k = choose|k: int| 0 <= k < entries.len() && entries[k] == current;
    assert(entries[k].id == entries[at].id);
    assert(k == at);
    if let Some(supplied) = opt_text(input.new_fingerprint) {
        let bar = bars(input.user_id@, supplied, input.id@);
        if exists_in(entries, bar) {
            let i = choose|i: int| 0 <= i < entries.len() && bar(#[trigger] entries[i]);
            assert(entries[i].fingerprint == supplied);
        }
    }
}

/// The versions that settling a conflict gives come with their sources.
pub proof fn law_settled_versions_have_sources(store: StoreModel, input: ResolveMemoryConflictRow)
    ensures
        resolve_step(store, input) matches Ok((_, found)) ==> forall|i: int|
            0 <= i < found.len() ==> (#[trigger] found[i]).sources == sources_for(
                store.sources,
                found[i].entry.id,
            ),
{
    if let Ok((after, found)) = resolve_step(store, input) {
        let (group_id, list) = conflict_check(store.entries, input.user_id@, input.entry_id@)->Ok_0;
        lemma_gathered_sources(after, store.sources, list, input.user_id@);
    }
}

proof fn lemma_gathered_sources(
    entries: Seq<Entry>,
    sources: Seq<Source>,
    list: Seq<Entry>,
    user: Seq<char>,
)
    ensures
        gathered(entries, sources, list, user) matches Ok(found) ==> forall|i: int|
            0 <= i < found.len() ==> (#[trigger] found[i]).sources == sources_for(
                sources,
                found[i].entry.id,
            ),
    decreases list.len(),
{
    if list.len() > 0 {
        let head = list.drop_last();
        lemma_gathered_sources(entries, sources, head, user);
        if let Ok(found) = gathered(entries, sources, list, user) {
            let before = gathered(entries, sources, head, user)->Ok_0;
            assert forall|i: int| 0 <= i < found.len() implies (#[trigger] found[i]).sources
                == sources_for(sources, found[i].entry.id) by {
                if i < before.len() {
                    assert(found[i] == before[i]);
                }
            }
        }
    }
}

proof fn lemma_all_gathered(
    entries: Seq<Entry>,
    sources: Seq<Source>,
    list: Seq<Entry>,
    user: Seq<char>,
)
    requires
        forall|i: int|
            0 <= i < list.len() ==> exists_in(
                entries,
                #[trigger] entry_of(list[i].id, user),
            ),
    ensures
        gathered(entries, sources, list, user) is Ok,
    decreases list.len(),
{
    if list.len() > 0 {
        let head = list.drop_last();
        assert forall|i: int| 0 <= i < head.len() implies exists_in(
            entries,
            #[trigger] entry_of(head[i].id, user),
        ) by {
            assert(head[i] == list[i]);
            assert(exists_in(entries, entry_of(list[i].id, user)));
        }
        lemma_all_gathered(entries, sources, head, user);
        assert(list[list.len() - 1] == list.last());
        assert(exists_in(entries, entry_of(list[list.len() - 1].id, user)));
        lemma_lookup(entries, entry_of(list.last().id, user));
    }
}

/// A conflict that can be settled is settled: by merging its versions always, and
/// by selecting one wherever the selected one is a version of it.
pub proof fn law_settling_is_owed(store: StoreModel, input: ResolveMemoryConflictRow)
    requires
        conflict_check(store.entries, input.user_id@, input.entry_id@) is Ok,
        input.action is Merge || (input.action matches
            ResolveMemoryConflictActionRow::Select { selected_entry_id } && exists|i: int|
            0 <= i < conflict_check(store.entries, input.user_id@, input.entry_id@)->Ok_0.1.len()
                && (#[trigger] conflict_check(
                store.entries,
                input.user_id@,
                input.entry_id@,
            )->Ok_0.1[i]).id == selected_entry_id@),
    ensures
        resolve_step(store, input) is Ok,
{
    let user = input.user_id@;
    let (group_id, list) = conflict_check(store.entries, user, input.entry_id@)->Ok_0;
    if let ResolveMemoryConflictActionRow::Select { selected_entry_id } = input.action {
        let i = choose|i: int| 0 <= i < list.len() && (#[trigger] list[i]).id == selected_entry_id@;
        assert(entry_with_id(selected_entry_id@)(list[i]));
    }
    let entries = conflict_settled(store.entries, input, group_id, list)->Ok_0;
    law_conflict_has_its_versions(store, input);
    assert forall|i: int| 0 <= i < list.len() implies exists_in(
        entries,
        #[trigger] entry_of(list[i].id, user),
    ) by {
        assert(list.contains(list[i]));
        let k = choose|k: int| 0 <= k < store.entries.len() && store.entries[k] == list[i];
        assert(entry_of(list[i].id, user)(entries[k]));
    }
    lemma_all_gathered(entries, store.sources, list, user);
}

} // verus!

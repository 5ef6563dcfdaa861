//! What each way of writing an entry does to the tables, field by field.
use crate::error::DbError;
use crate::memory::commands::{
    CommitMemoryEntryRow, CommitMemoryEntryTransition, CommitMemorySourceRow, CommitMemoryUpdateRow,
    ExpectedMemoryEntryRow,
};
use crate::memory::commit::{commit_step, CommitOutcome, PersistedEntries};
use crate::memory::commit_laws::{lemma_only_one, lemma_states_differ, lemma_write_spares};
use crate::memory::edits::{conflict_check, in_conflict, members, older_entry};
use crate::memory::entries::Entry;
use crate::memory::finalize::entry_of;
use crate::memory::ledger::{
    conflict_marked, entry_with_id, expected, expected_free, expected_protected, identity_in_state,
    other_active, roughly_expected, source_of, source_seen, sources_seen, write_entries,
    write_entry, EntryStep, Ledger, Source, WriteContext,
};
use crate::memory::rows::{ConversationRow, TurnMessageRow};
use crate::memory::store::StoreModel;
use crate::table::{
    exists_in, first_at, law_ordered, law_selected, lemma_lookup, lemma_lookup_first, lookup,
    orders, selected,
};
use crate::text::{lemma_text_order, lemma_text_transitive, opt_text, text_before};
use vstd::prelude::*;

verus! {

// ----------------------------------------------------------------------------
// One entry
// ----------------------------------------------------------------------------

/// Whether a stored entry says what a written one does, for its user.
pub open spec fn says_written(entry: Entry, written: CommitMemoryEntryRow, user: Seq<char>) -> bool {
    &&& entry.user_id == user
    &&& entry.project_id == opt_text(written.project_id)
    &&& entry.workspace_key == opt_text(written.workspace_key)
    &&& entry.kind == written.kind@
    &&& entry.stable_key == written.stable_key@
    &&& entry.fingerprint == written.fingerprint@
    &&& entry.content == Some(written.content@)
}

/// Whether a stored entry is a written one's own new row.
pub open spec fn is_new(entry: Entry, written: CommitMemoryEntryRow, context: WriteContext) -> bool {
    &&& says_written(entry, written, context.user_id)
    &&& entry.id == written.id@
    &&& !entry.pinned
    &&& !entry.user_edited
    &&& entry.revision == 0
    &&& entry.schema_version == context.schema_version
    &&& entry.deleted_at is None
    &&& entry.created_at == context.now
    &&& entry.updated_at == context.now
}

/// Whether a stored entry is what a writer believes it to be: the user's, active,
/// and in its revision, identity, scope and content as the writer has it.
pub open spec fn is_believed(
    entry: Entry,
    target: ExpectedMemoryEntryRow,
    user: Seq<char>,
) -> bool {
    &&& entry.id == target.id@
    &&& entry.user_id == user
    &&& entry.state == "active"@
    &&& entry.revision == target.revision
    &&& entry.fingerprint == target.fingerprint@
    &&& entry.project_id == opt_text(target.project_id)
    &&& entry.workspace_key == opt_text(target.workspace_key)
    &&& entry.content == opt_text(target.content)
}

/// Whether an entry kept what it says, whose it is and who put a hand on it.
pub open spec fn keeps_its_word(before: Entry, after: Entry) -> bool {
    &&& after.id == before.id
    &&& after.user_id == before.user_id
    &&& after.project_id == before.project_id
    &&& after.workspace_key == before.workspace_key
    &&& after.kind == before.kind
    &&& after.stable_key == before.stable_key
    &&& after.fingerprint == before.fingerprint
    &&& after.content == before.content
    &&& after.pinned == before.pinned
    &&& after.user_edited == before.user_edited
    &&& after.schema_version == before.schema_version
    &&& after.supersedes_id == before.supersedes_id
    &&& after.deleted_at == before.deleted_at
    &&& after.created_at == before.created_at
}

/// Whether entries are as they were but for the one at a place.
pub open spec fn changed_at(before: Seq<Entry>, after: Seq<Entry>, at: int) -> bool {
    &&& 0 <= at < before.len()
    &&& before.len() <= after.len()
    &&& forall|i: int| 0 <= i < before.len() && i != at ==> #[trigger] after[i] == before[i]
}

/// Whether entries are all as they were.
pub open spec fn unchanged(before: Seq<Entry>, after: Seq<Entry>) -> bool {
    &&& before.len() <= after.len()
    &&& forall|i: int| 0 <= i < before.len() ==> #[trigger] after[i] == before[i]
}

/// Whether the user has deleted an entry of this identity.
pub open spec fn is_buried(entries: Seq<Entry>, user: Seq<char>, fingerprint: Seq<char>) -> bool {
    exists|i: int|
        0 <= i < entries.len() && (#[trigger] entries[i]).user_id == user && entries[i].fingerprint
            == fingerprint && entries[i].state == "deleted"@
}

/// Whether the user has an active entry of this identity, but for one id.
pub open spec fn is_active_elsewhere(
    entries: Seq<Entry>,
    user: Seq<char>,
    fingerprint: Seq<char>,
    but: Option<Seq<char>>,
) -> bool {
    exists|i: int|
        0 <= i < entries.len() && (#[trigger] entries[i]).user_id == user && entries[i].fingerprint
            == fingerprint && entries[i].state == "active"@ && but != Some(entries[i].id)
}

/// What creating an entry does: it adds the entry, active and on its own.
pub open spec fn created(
    before: Ledger,
    after: Ledger,
    written: CommitMemoryEntryRow,
    context: WriteContext,
) -> bool {
    let last = after.entries.last();
    &&& !is_active_elsewhere(before.entries, context.user_id, written.fingerprint@, None)
    &&& unchanged(before.entries, after.entries)
    &&& after.entries.len() == before.entries.len() + 1
    &&& is_new(last, written, context)
    &&& last.state == "active"@
    &&& last.supersedes_id is None
    &&& last.conflict_group_id is None
    &&& after.added == before.added.push(written.id@)
    &&& after.refined == before.refined
    &&& after.superseded == before.superseded
    &&& after.conflicts == before.conflicts
}

/// What refining an entry does: the believed one, which no user's hand is on,
/// says in its place what the written one does.
pub open spec fn was_refined(
    before: Ledger,
    after: Ledger,
    written: CommitMemoryEntryRow,
    target: ExpectedMemoryEntryRow,
    context: WriteContext,
    at: int,
) -> bool {
    let old = before.entries[at];
    let new = after.entries[at];
    &&& !is_active_elsewhere(
        before.entries,
        context.user_id,
        written.fingerprint@,
        Some(target.id@),
    )
    &&& changed_at(before.entries, after.entries, at)
    &&& after.entries.len() == before.entries.len()
    &&& is_believed(old, target, context.user_id)
    &&& !old.pinned && !old.user_edited
    &&& says_written(new, written, context.user_id)
    &&& new.id == target.id@
    &&& new.state == "active"@
    &&& !new.pinned && !new.user_edited
    &&& new.revision == target.revision + 1
    &&& new.schema_version == old.schema_version
    &&& new.supersedes_id == old.supersedes_id
    &&& new.conflict_group_id == old.conflict_group_id
    &&& new.deleted_at == old.deleted_at
    &&& new.created_at == old.created_at
    &&& new.updated_at == context.now
    &&& after.added == before.added
    &&& after.refined == before.refined.push(target.id@)
    &&& after.superseded == before.superseded
    &&& after.conflicts == before.conflicts
}

/// What superseding an entry does: the believed one, which no user's hand is on,
/// keeps what it says but is no longer active; the written one is added, active,
/// and names the one whose place it takes.
pub open spec fn was_superseded(
    before: Ledger,
    after: Ledger,
    written: CommitMemoryEntryRow,
    target: ExpectedMemoryEntryRow,
    context: WriteContext,
    at: int,
) -> bool {
    let old = before.entries[at];
    let new = after.entries[at];
    let last = after.entries.last();
    &&& !is_active_elsewhere(
        before.entries,
        context.user_id,
        written.fingerprint@,
        Some(target.id@),
    )
    &&& changed_at(before.entries, after.entries, at)
    &&& after.entries.len() == before.entries.len() + 1
    &&& is_believed(old, target, context.user_id)
    &&& !old.pinned && !old.user_edited
    &&& keeps_its_word(old, new)
    &&& new.conflict_group_id == old.conflict_group_id
    &&& new.state == "superseded"@
    &&& new.revision == target.revision + 1
    &&& new.updated_at == context.now
    &&& is_new(last, written, context)
    &&& last.state == "active"@
    &&& last.supersedes_id == Some(target.id@)
    &&& last.conflict_group_id is None
    &&& after.added == before.added.push(written.id@)
    &&& after.refined == before.refined
    &&& after.superseded == before.superseded.push(target.id@)
    &&& after.conflicts == before.conflicts
}

/// What a conflict does: the believed one keeps what it says and, unless a user's
/// hand is on it, goes into the conflict group; the written one is added to the
/// group. Neither is active in the end but for one that a user's hand is on.
pub open spec fn was_disputed(
    before: Ledger,
    after: Ledger,
    written: CommitMemoryEntryRow,
    target: ExpectedMemoryEntryRow,
    group_id: Seq<char>,
    context: WriteContext,
    at: int,
) -> bool {
    let old = before.entries[at];
    let new = after.entries[at];
    let last = after.entries.last();
    &&& changed_at(before.entries, after.entries, at)
    &&& after.entries.len() == before.entries.len() + 1
    &&& is_believed(old, target, context.user_id)
    &&& is_new(last, written, context)
    &&& last.state == "conflict"@
    &&& last.conflict_group_id == Some(group_id)
    &&& last.supersedes_id is None
    &&& after.added == before.added
    &&& after.refined == before.refined
    &&& after.superseded == before.superseded
    &&& if old.pinned || old.user_edited {
        &&& new == old
        &&& after.conflicts == before.conflicts.push(written.id@)
    } else {
        &&& keeps_its_word(old, new)
        &&& new.state == "conflict"@
        &&& new.conflict_group_id == Some(group_id)
        &&& new.revision == target.revision + 1
        &&& new.updated_at == context.now
        &&& after.conflicts == before.conflicts.push(target.id@).push(written.id@)
    }
}

/// What attaching sources does: nothing to the entries. The believed entry has a
/// user's hand on it and says what the written one does.
pub open spec fn was_attached(
    before: Ledger,
    after: Ledger,
    written: CommitMemoryEntryRow,
    target: ExpectedMemoryEntryRow,
    context: WriteContext,
    at: int,
) -> bool {
    let old = before.entries[at];
    &&& 0 <= at < before.entries.len()
    &&& after.entries == before.entries
    &&& is_believed(old, target, context.user_id)
    &&& old.pinned || old.user_edited
    &&& old.fingerprint == written.fingerprint@
    &&& old.project_id == opt_text(written.project_id)
    &&& old.workspace_key == opt_text(written.workspace_key)
    &&& old.content == Some(written.content@)
    &&& after.added == before.added
    &&& after.refined == before.refined.push(target.id@)
    &&& after.superseded == before.superseded
    &&& after.conflicts == before.conflicts
}

/// Whether writing one entry did what its transition is for.
pub open spec fn was_written(
    before: Ledger,
    after: Ledger,
    written: CommitMemoryEntryRow,
    context: WriteContext,
) -> bool {
    match written.transition {
        CommitMemoryEntryTransition::Create => created(before, after, written, context),
        CommitMemoryEntryTransition::Refine { target } => exists|at: int| #[trigger]
            was_refined(before, after, written, target, context, at),
        CommitMemoryEntryTransition::Supersede { target } => exists|at: int| #[trigger]
            was_superseded(before, after, written, target, context, at),
        CommitMemoryEntryTransition::Conflict { target, conflict_group_id } => exists|at: int|
            #[trigger]
            was_disputed(before, after, written, target, conflict_group_id@, context, at),
        CommitMemoryEntryTransition::AttachSource { target } => exists|at: int| #[trigger]
            was_attached(before, after, written, target, context, at),
    }
}

/// The id of the stored entry that a written one's sources are filed under.
pub open spec fn filed_under(written: CommitMemoryEntryRow) -> Seq<char> {
    match written.transition {
        CommitMemoryEntryTransition::Refine { target } => target.id@,
        CommitMemoryEntryTransition::AttachSource { target } => target.id@,
        _ => written.id@,
    }
}

proof fn lemma_one_found(entries: Seq<Entry>, hit: spec_fn(Entry) -> bool) -> (at: int)
    requires
        selected(entries, hit).len() == 1,
    ensures
        0 <= at < entries.len(),
        hit(entries[at]),
        forall|i: int| 0 <= i < entries.len() && i != at ==> !hit(#[trigger] entries[i]),
{
    law_selected(entries, hit);
    let some = selected(entries, hit);
    assert(some.contains(some[0]));
    let at = choose|at: int| 0 <= at < entries.len() && entries[at] == some[0];
    assert forall|i: int| 0 <= i < entries.len() && i != at implies !hit(#[trigger] entries[i]) by {
        if hit(entries[i]) {
            lemma_only_one(entries, hit, i, at);
        }
    }
    at
}

/// An entry whose identity the user has deleted is passed over; any other entry
/// that is written does to the entries what its transition is for.
pub proof fn law_entry_is_written(
    conversations: Seq<ConversationRow<Seq<char>>>,
    messages: Seq<TurnMessageRow<Seq<char>>>,
    ledger: Ledger,
    written: CommitMemoryEntryRow,
    context: WriteContext,
)
    requires
        written.transition matches CommitMemoryEntryTransition::Refine { target } ==> target.revision
            < i64::MAX,
        written.transition matches CommitMemoryEntryTransition::Supersede { target }
            ==> target.revision < i64::MAX,
        written.transition matches CommitMemoryEntryTransition::Conflict { target, .. }
            ==> target.revision < i64::MAX,
    ensures
        write_entry(conversations, messages, ledger, written, context) matches EntryStep::Written(
            after,
        ) ==> if is_buried(ledger.entries, context.user_id, written.fingerprint@) {
            after == ledger
        } else {
            was_written(ledger, after, written, context)
        },
{
    let entries = ledger.entries;
    let user = context.user_id;
    if let EntryStep::Written(after) = write_entry(
        conversations,
        messages,
        ledger,
        written,
        context,
    ) {
        let gone = identity_in_state(user, written.fingerprint@, "deleted"@);
        if is_buried(entries, user, written.fingerprint@) {
            let i = choose|i: int|
                0 <= i < entries.len() && (#[trigger] entries[i]).user_id == user
                    && entries[i].fingerprint == written.fingerprint@ && entries[i].state
                    == "deleted"@;
            assert(gone(entries[i]));
        } else {
            assert(!exists_in(entries, gone)) by {
                if exists_in(entries, gone) {
                    let i = choose|i: int| 0 <= i < entries.len() && gone(#[trigger] entries[i]);
                    assert(entries[i].state == "deleted"@);
                }
            }
            match written.transition {
                CommitMemoryEntryTransition::Create => {
                    lemma_not_elsewhere(entries, user, written.fingerprint@, None);
                },
                CommitMemoryEntryTransition::Refine { target } => {
                    let at = lemma_one_found(entries, expected_free(user, target));
                    lemma_not_elsewhere(entries, user, written.fingerprint@, Some(target.id@));
                    assert(was_refined(ledger, after, written, target, context, at));
                },
                CommitMemoryEntryTransition::Supersede { target } => {
                    let at = lemma_one_found(entries, expected_free(user, target));
                    lemma_not_elsewhere(entries, user, written.fingerprint@, Some(target.id@));
                    assert(was_superseded(ledger, after, written, target, context, at));
                },
                CommitMemoryEntryTransition::Conflict { target, conflict_group_id } => {
                    let hit = expected(user, target);
                    lemma_lookup(entries, hit);
                    let entry = lookup(entries, hit)->0;
                    let k = choose|k: int| 0 <= k < entries.len() && entries[k] == entry;
                    if !(entry.pinned || entry.user_edited) {
                        let at = lemma_one_found(entries, roughly_expected(user, target));
                        assert(k == at);
                    }
                    assert(was_disputed(
                        ledger,
                        after,
                        written,
                        target,
                        conflict_group_id@,
                        context,
                        k,
                    ));
                },
                CommitMemoryEntryTransition::AttachSource { target } => {
                    let hit = expected_protected(user, target);
                    let k = choose|k: int| 0 <= k < entries.len() && hit(#[trigger] entries[k]);
                    assert(was_attached(ledger, after, written, target, context, k));
                },
            }
        }
    }
}

proof fn lemma_not_elsewhere(
    entries: Seq<Entry>,
    user: Seq<char>,
    fingerprint: Seq<char>,
    but: Option<Seq<char>>,
)
    ensures
        is_active_elsewhere(entries, user, fingerprint, but) ==> exists_in(
            entries,
            other_active(user, fingerprint, but),
        ),
{
    if is_active_elsewhere(entries, user, fingerprint, but) {
        let i = choose|i: int|
            0 <= i < entries.len() && (#[trigger] entries[i]).user_id == user
                && entries[i].fingerprint == fingerprint && entries[i].state == "active"@ && but
                != Some(entries[i].id);
        assert(other_active(user, fingerprint, but)(entries[i]));
    }
}

// ----------------------------------------------------------------------------
// Sources
// ----------------------------------------------------------------------------

/// Whether a row is a given source of an entry.
pub open spec fn is_source(row: Source, entry_id: Seq<char>, source: CommitMemorySourceRow) -> bool {
    row.memory_entry_id == entry_id && row.conversation_id == source.conversation_id@
        && row.turn_id == source.turn_id@
}

/// Filing sources under an entry keeps every source where it is and as it was
/// first seen, and leaves those alone that were not given again. What it adds is
/// the entry's, and seen for the first time now.
pub proof fn law_sources_are_kept(
    rows: Seq<Source>,
    entry_id: Seq<char>,
    sources: Seq<CommitMemorySourceRow>,
    now: i64,
)
    ensures
        ({
            let after = sources_seen(rows, entry_id, sources, now);
            &&& rows.len() <= after.len()
            &&& forall|i: int|
                0 <= i < rows.len() ==> {
                    let row = #[trigger] after[i];
                    &&& row.memory_entry_id == rows[i].memory_entry_id
                    &&& row.conversation_id == rows[i].conversation_id
                    &&& row.turn_id == rows[i].turn_id
                    &&& row.first_observed_at == rows[i].first_observed_at
                    &&& row == rows[i] || (row.last_observed_at == now && row.memory_entry_id
                        == entry_id)
                }
            &&& forall|i: int|
                rows.len() <= i < after.len() ==> {
                    let row = #[trigger] after[i];
                    row.memory_entry_id == entry_id && row.first_observed_at == now
                        && row.last_observed_at == now
                }
        }),
    decreases sources.len(),
{
    if sources.len() > 0 {
        let head = sources.drop_last();
        law_sources_are_kept(rows, entry_id, head, now);
        let before = sources_seen(rows, entry_id, head, now);
        let after = sources_seen(rows, entry_id, sources, now);
        assert(after == source_seen(before, entry_id, sources.last(), now));
        assert forall|i: int| 0 <= i < before.len() implies {
            let row = #[trigger] after[i];
            &&& row.memory_entry_id == before[i].memory_entry_id
            &&& row.conversation_id == before[i].conversation_id
            &&& row.turn_id == before[i].turn_id
            &&& row.first_observed_at == before[i].first_observed_at
            &&& row == before[i] || (row.last_observed_at == now && row.memory_entry_id
                == entry_id)
        } by {}
    }
}

/// A source that was not among those given is as it was.
pub proof fn law_other_sources_are_left(
    rows: Seq<Source>,
    entry_id: Seq<char>,
    sources: Seq<CommitMemorySourceRow>,
    now: i64,
    at: int,
)
    requires
        0 <= at < rows.len(),
        forall|k: int| 0 <= k < sources.len() ==> !is_source(rows[at], entry_id, #[trigger] sources[k]),
    ensures
        sources_seen(rows, entry_id, sources, now).len() >= rows.len(),
        sources_seen(rows, entry_id, sources, now)[at] == rows[at],
    decreases sources.len(),
{
    law_sources_are_kept(rows, entry_id, sources, now);
    if sources.len() > 0 {
        let head = sources.drop_last();
        assert forall|k: int| 0 <= k < head.len() implies !is_source(
            rows[at],
            entry_id,
            #[trigger] head[k],
        ) by {
            assert(head[k] == sources[k]);
        }
        law_other_sources_are_left(rows, entry_id, head, now, at);
        assert(!is_source(rows[at], entry_id, sources[sources.len() - 1]));
    }
}

/// Each source that was given is filed under the entry, seen last now; the one
/// given last with the messages that it names.
pub proof fn law_sources_are_filed(
    rows: Seq<Source>,
    entry_id: Seq<char>,
    sources: Seq<CommitMemorySourceRow>,
    now: i64,
    at: int,
)
    requires
        0 <= at < sources.len(),
    ensures
        exists|i: int|
            0 <= i < sources_seen(rows, entry_id, sources, now).len() && is_filed(
                #[trigger] sources_seen(rows, entry_id, sources, now)[i],
                entry_id,
                sources,
                at,
                now,
            ),
    decreases sources.len(),
{
    let head = sources.drop_last();
    let last = sources.last();
    let before = sources_seen(rows, entry_id, head, now);
    let after = sources_seen(rows, entry_id, sources, now);
    assert(after == source_seen(before, entry_id, last, now));
    if at < head.len() {
        law_sources_are_filed(rows, entry_id, head, now, at);
        assert(head[at] == sources[at]);
        let i = choose|i: int|
            0 <= i < before.len() && is_filed(#[trigger] before[i], entry_id, head, at, now);
        assert(is_filed(after[i], entry_id, sources, at, now));
    } else {
        let hit = source_of(entry_id, last.conversation_id@, last.turn_id@);
        if exists_in(before, hit) {
            let i = choose|i: int| 0 <= i < before.len() && hit(#[trigger] before[i]);
            assert(is_filed(after[i], entry_id, sources, at, now));
        } else {
            assert(is_filed(after[before.len() as int], entry_id, sources, at, now));
        }
    }
}

/// Whether a row is the source number `at` of those given, as it was filed.
pub open spec fn is_filed(
    row: Source,
    entry_id: Seq<char>,
    sources: Seq<CommitMemorySourceRow>,
    at: int,
    now: i64,
) -> bool {
    &&& is_source(row, entry_id, sources[at])
    &&& row.last_observed_at == now
    &&& at == sources.len() - 1 ==> row.message_ids_json == sources[at].message_ids_json@
}

/// An entry that is written, and not passed over, has its sources filed under the
/// entry that it became; no other source changes.
pub proof fn law_entry_has_its_sources(
    conversations: Seq<ConversationRow<Seq<char>>>,
    messages: Seq<TurnMessageRow<Seq<char>>>,
    ledger: Ledger,
    written: CommitMemoryEntryRow,
    context: WriteContext,
)
    ensures
        write_entry(conversations, messages, ledger, written, context) matches EntryStep::Written(
            after,
        ) ==> if is_buried(ledger.entries, context.user_id, written.fingerprint@) {
            after.sources == ledger.sources
        } else {
            &&& forall|k: int|
                0 <= k < written.sources@.len() ==> #[trigger] has_source(
                    after.sources,
                    filed_under(written),
                    written.sources@[k],
                )
            &&& forall|i: int|
                0 <= i < ledger.sources.len() && ledger.sources[i].memory_entry_id != filed_under(
                    written,
                ) ==> i < after.sources.len() && #[trigger] after.sources[i] == ledger.sources[i]
            &&& forall|i: int|
                ledger.sources.len() <= i < after.sources.len() ==> (
                #[trigger] after.sources[i]).memory_entry_id == filed_under(written)
        },
{
    let gone = identity_in_state(context.user_id, written.fingerprint@, "deleted"@);
    let entries = ledger.entries;
    if is_buried(entries, context.user_id, written.fingerprint@) {
        let i = choose|i: int|
            0 <= i < entries.len() && (#[trigger] entries[i]).user_id == context.user_id
                && entries[i].fingerprint == written.fingerprint@ && entries[i].state
                == "deleted"@;
        assert(gone(entries[i]));
    } else if exists_in(entries, gone) {
        let i = choose|i: int| 0 <= i < entries.len() && gone(#[trigger] entries[i]);
        assert(entries[i].state == "deleted"@);
    }
    law_sources_are_kept(ledger.sources, filed_under(written), written.sources@, context.now);
    if let EntryStep::Written(after) = write_entry(
        conversations,
        messages,
        ledger,
        written,
        context,
    ) {
        if !is_buried(entries, context.user_id, written.fingerprint@) {
            let id = filed_under(written);
            let given = written.sources@;
            assert(after.sources == sources_seen(ledger.sources, id, given, context.now));
            assert forall|k: int| 0 <= k < given.len() implies #[trigger] has_source(
                after.sources,
                id,
                given[k],
            ) by {
                law_sources_are_filed(ledger.sources, id, given, context.now, k);
                let i = choose|i: int|
                    0 <= i < after.sources.len() && is_filed(
                        #[trigger] after.sources[i],
                        id,
                        given,
                        k,
                        context.now,
                    );
                assert(is_source(after.sources[i], id, given[k]));
            }
        }
    }
}

/// Whether an entry has a source.
pub open spec fn has_source(
    rows: Seq<Source>,
    entry_id: Seq<char>,
    source: CommitMemorySourceRow,
) -> bool {
    exists|i: int| 0 <= i < rows.len() && is_source(#[trigger] rows[i], entry_id, source)
}

// ----------------------------------------------------------------------------
// A whole update
// ----------------------------------------------------------------------------

/// Whether no two entries share an id.
pub open spec fn entries_apart(entries: Seq<Entry>) -> bool {
    forall|i: int, j: int|
        0 <= i < j < entries.len() ==> (#[trigger] entries[i]).id != (#[trigger] entries[j]).id
}

/// Writing an entry makes no tombstone, puts no user's hand on an entry and
/// leaves every entry its id.
proof fn lemma_write_keeps_marks(
    conversations: Seq<ConversationRow<Seq<char>>>,
    messages: Seq<TurnMessageRow<Seq<char>>>,
    ledger: Ledger,
    written: CommitMemoryEntryRow,
    context: WriteContext,
)
    ensures
        write_entry(conversations, messages, ledger, written, context) matches EntryStep::Written(
            next,
        ) ==> {
            &&& next.entries.len() >= ledger.entries.len()
            &&& forall|i: int|
                0 <= i < ledger.entries.len() ==> {
                    let row = #[trigger] next.entries[i];
                    &&& row.id == ledger.entries[i].id
                    &&& row.user_id == ledger.entries[i].user_id
                    &&& row.pinned == ledger.entries[i].pinned
                    &&& row.user_edited == ledger.entries[i].user_edited
                    &&& row.state == "deleted"@ ==> row == ledger.entries[i]
                }
            &&& forall|i: int|
                ledger.entries.len() <= i < next.entries.len() ==> {
                    let row = #[trigger] next.entries[i];
                    !row.pinned && !row.user_edited && row.state != "deleted"@ && row.id
                        == written.id@
                }
            &&& entries_apart(ledger.entries) ==> entries_apart(next.entries)
        },
{
    reveal_strlit("active");
    reveal_strlit("conflict");
    reveal_strlit("superseded");
    reveal_strlit("deleted");
    assert("active"@[0] == 'a' && "conflict"@[0] == 'c' && "superseded"@[0] == 's' && "deleted"@[0]
        == 'd');
    if let EntryStep::Written(next) = write_entry(
        conversations,
        messages,
        ledger,
        written,
        context,
    ) {
        if entries_apart(ledger.entries) {
            assert forall|i: int, j: int| 0 <= i < j < next.entries.len() implies (
            #[trigger] next.entries[i]).id != (#[trigger] next.entries[j]).id by {
                assert(next.entries[i].id == ledger.entries[i].id);
                if j < ledger.entries.len() {
                    assert(next.entries[j].id == ledger.entries[j].id);
                } else {
                    assert(!entry_with_id(written.id@)(ledger.entries[i]));
                }
            }
        }
    }
}

/// Whether an update leaves the two sides of a dispute in one conflict group.
pub open spec fn are_in_dispute(
    entries: Seq<Entry>,
    user: Seq<char>,
    a: Seq<char>,
    b: Seq<char>,
    group_id: Seq<char>,
) -> bool {
    exists|i: int, j: int|
        0 <= i < entries.len() && 0 <= j < entries.len() && is_side(
            #[trigger] entries[i],
            user,
            a,
            group_id,
        ) && is_side(#[trigger] entries[j], user, b, group_id) && a != b
}

/// Whether one of the versions of a conflict has an id.
pub open spec fn has_version(list: Seq<Entry>, id: Seq<char>) -> bool {
    exists|i: int| 0 <= i < list.len() && (#[trigger] list[i]).id == id
}

/// Whether the conflict that is found from an entry is a group with both sides of
/// a dispute in it.
pub open spec fn finds_both(
    entries: Seq<Entry>,
    user: Seq<char>,
    from: Seq<char>,
    a: Seq<char>,
    b: Seq<char>,
    group_id: Seq<char>,
) -> bool {
    conflict_check(entries, user, from) matches Ok((group, list)) && group == group_id
        && has_version(list, a) && has_version(list, b)
}

/// Whether an entry is in conflict, in a group.
pub open spec fn is_side(entry: Entry, user: Seq<char>, id: Seq<char>, group_id: Seq<char>) -> bool {
    entry.id == id && entry.user_id == user && entry.state == "conflict"@
        && entry.conflict_group_id == Some(group_id)
}

proof fn lemma_dispute_stays(
    conversations: Seq<ConversationRow<Seq<char>>>,
    messages: Seq<TurnMessageRow<Seq<char>>>,
    ledger: Ledger,
    written: Seq<CommitMemoryEntryRow>,
    context: WriteContext,
    at: int,
    target: ExpectedMemoryEntryRow,
    group_id: Seq<char>,
)
    requires
        0 <= at < written.len(),
        written[at].transition matches CommitMemoryEntryTransition::Conflict {
            target: expected,
            conflict_group_id,
        } && expected == target && conflict_group_id@ == group_id,
        target.revision < i64::MAX,
        forall|i: int|
            0 <= i < ledger.entries.len() && (#[trigger] ledger.entries[i]).id == target.id@
                ==> !ledger.entries[i].pinned && !ledger.entries[i].user_edited,
        !is_buried(ledger.entries, context.user_id, written[at].fingerprint@),
    ensures
        write_entries(conversations, messages, ledger, written, context) matches EntryStep::Written(
            next,
        ) ==> are_in_dispute(
            next.entries,
            context.user_id,
            target.id@,
            written[at].id@,
            group_id,
        ),
    decreases written.len(),
{
    let head = written.drop_last();
    let user = context.user_id;
    if let EntryStep::Written(before) = write_entries(
        conversations,
        messages,
        ledger,
        head,
        context,
    ) {
        if let EntryStep::Written(next) = write_entry(
            conversations,
            messages,
            before,
            written.last(),
            context,
        ) {
            if at < head.len() {
                assert(head[at] == written[at]);
                lemma_dispute_stays(
                    conversations,
                    messages,
                    ledger,
                    head,
                    context,
                    at,
                    target,
                    group_id,
                );
                lemma_write_spares(conversations, messages, before, written.last(), context);
                lemma_states_differ();
                let (i, j) = choose|i: int, j: int|
                    0 <= i < before.entries.len() && 0 <= j < before.entries.len() && is_side(
                        #[trigger] before.entries[i],
                        user,
                        target.id@,
                        group_id,
                    ) && is_side(#[trigger] before.entries[j], user, written[at].id@, group_id);
                assert(next.entries[i] == before.entries[i] && next.entries[j]
                    == before.entries[j]);
            } else {
                lemma_prefix_keeps_marks(conversations, messages, ledger, head, context);
                assert(!is_buried(before.entries, user, written[at].fingerprint@)) by {
                    if is_buried(before.entries, user, written[at].fingerprint@) {
                        let i = choose|i: int|
                            0 <= i < before.entries.len() && (
                            #[trigger] before.entries[i]).user_id == user
                                && before.entries[i].fingerprint == written[at].fingerprint@
                                && before.entries[i].state == "deleted"@;
                        assert(ledger.entries[i] == before.entries[i]);
                    }
                }
                law_entry_is_written(conversations, messages, before, written[at], context);
                let k = choose|k: int| #[trigger]
                    was_disputed(before, next, written[at], target, group_id, context, k);
                assert(!before.entries[k].pinned && !before.entries[k].user_edited) by {
                    if k < ledger.entries.len() {
                        assert(before.entries[k].id == ledger.entries[k].id);
                    }
                }
                let last = next.entries.len() - 1;
                assert(is_side(next.entries[k], user, target.id@, group_id));
                assert(is_side(next.entries[last], user, written[at].id@, group_id));
                if target.id@ == written[at].id@ {
                    assert(next.entries[k].id == before.entries[k].id);
                    assert(entry_with_id(written[at].id@)(before.entries[k]));
                    assert(entry_with_id(written[at].id@)(next.entries[k]));
                    lemma_write_id_is_free(
                        conversations,
                        messages,
                        before,
                        written[at],
                        context,
                        k,
                    );
                }
            }
        }
    }
}

proof fn lemma_write_id_is_free(
    conversations: Seq<ConversationRow<Seq<char>>>,
    messages: Seq<TurnMessageRow<Seq<char>>>,
    ledger: Ledger,
    written: CommitMemoryEntryRow,
    context: WriteContext,
    at: int,
)
    requires
        written.transition is Conflict,
        !is_buried(ledger.entries, context.user_id, written.fingerprint@),
        0 <= at < ledger.entries.len(),
        ledger.entries[at].id == written.id@,
    ensures
        !(write_entry(conversations, messages, ledger, written, context) is Written),
{
    let gone = identity_in_state(context.user_id, written.fingerprint@, "deleted"@);
    if exists_in(ledger.entries, gone) {
        let i = choose|i: int| 0 <= i < ledger.entries.len() && gone(#[trigger] ledger.entries[i]);
        assert(ledger.entries[i].state == "deleted"@);
    }
    let target = written.transition->Conflict_target;
    let rough = roughly_expected(context.user_id, target);
    let group = written.transition->conflict_group_id@;
    if let Some(marked) = conflict_marked(ledger, target, group, context) {
        assert(marked.entries[at].id == written.id@);
        assert(entry_with_id(written.id@)(marked.entries[at]));
        assert(exists_in(marked.entries, entry_with_id(written.id@)));
    }
}

proof fn lemma_prefix_keeps_marks(
    conversations: Seq<ConversationRow<Seq<char>>>,
    messages: Seq<TurnMessageRow<Seq<char>>>,
    ledger: Ledger,
    written: Seq<CommitMemoryEntryRow>,
    context: WriteContext,
)
    ensures
        write_entries(conversations, messages, ledger, written, context) matches EntryStep::Written(
            next,
        ) ==> {
            &&& next.entries.len() >= ledger.entries.len()
            &&& forall|i: int|
                0 <= i < ledger.entries.len() ==> {
                    let row = #[trigger] next.entries[i];
                    &&& row.id == ledger.entries[i].id
                    &&& row.user_id == ledger.entries[i].user_id
                    &&& row.pinned == ledger.entries[i].pinned
                    &&& row.user_edited == ledger.entries[i].user_edited
                    &&& row.state == "deleted"@ ==> row == ledger.entries[i]
                }
            &&& forall|i: int|
                ledger.entries.len() <= i < next.entries.len() ==> {
                    let row = #[trigger] next.entries[i];
                    !row.pinned && !row.user_edited && row.state != "deleted"@
                }
            &&& entries_apart(ledger.entries) ==> entries_apart(next.entries)
        },
    decreases written.len(),
{
    if written.len() > 0 {
        let head = written.drop_last();
        lemma_prefix_keeps_marks(conversations, messages, ledger, head, context);
        if let EntryStep::Written(before) = write_entries(
            conversations,
            messages,
            ledger,
            head,
            context,
        ) {
            lemma_write_keeps_marks(conversations, messages, before, written.last(), context);
            if let EntryStep::Written(next) = write_entry(
                conversations,
                messages,
                before,
                written.last(),
                context,
            ) {
                assert forall|i: int| 0 <= i < ledger.entries.len() implies {
                    let row = #[trigger] next.entries[i];
                    &&& row.id == ledger.entries[i].id
                    &&& row.user_id == ledger.entries[i].user_id
                    &&& row.pinned == ledger.entries[i].pinned
                    &&& row.user_edited == ledger.entries[i].user_edited
                    &&& row.state == "deleted"@ ==> row == ledger.entries[i]
                } by {
                    assert(before.entries[i].id == ledger.entries[i].id);
                }
                assert forall|i: int| ledger.entries.len() <= i < next.entries.len() implies {
                    let row = #[trigger] next.entries[i];
                    !row.pinned && !row.user_edited && row.state != "deleted"@
                } by {
                    if i < before.entries.len() {
                        assert(!before.entries[i].pinned);
                        assert(next.entries[i].state == "deleted"@ ==> next.entries[i]
                            == before.entries[i]);
                    }
                }
            }
        }
    }
}

proof fn lemma_age_order()
    ensures
        orders(older_entry()),
{
    let less = older_entry();
    assert forall|a: Entry, b: Entry| #[trigger] less(a, b) implies !less(b, a) by {
        lemma_text_order(a.id, b.id);
    }
    assert forall|a: Entry, b: Entry, c: Entry| #[trigger] less(a, c) && !less(b, c)
        implies #[trigger] less(
        a,
        b,
    ) by {
        lemma_text_order(a.id, b.id);
        lemma_text_order(a.id, c.id);
        lemma_text_order(b.id, c.id);
        if text_before(a.id, c.id) && text_before(c.id, b.id) {
            lemma_text_transitive(a.id, c.id, b.id);
        }
    }
}

/// The two sides of a dispute can be settled from either of them: each finds the
/// group, with both sides among the versions.
proof fn lemma_dispute_can_be_settled(
    entries: Seq<Entry>,
    user: Seq<char>,
    a: Seq<char>,
    b: Seq<char>,
    group_id: Seq<char>,
)
    requires
        entries_apart(entries),
        are_in_dispute(entries, user, a, b, group_id),
    ensures
        finds_both(entries, user, a, a, b, group_id),
{
    let (i, j) = choose|i: int, j: int|
        0 <= i < entries.len() && 0 <= j < entries.len() && is_side(
            #[trigger] entries[i],
            user,
            a,
            group_id,
        ) && is_side(#[trigger] entries[j], user, b, group_id);
    let hit = entry_of(a, user);
    assert(first_at(entries, hit, i)) by {
        assert forall|k: int| 0 <= k < i implies !hit(#[trigger] entries[k]) by {
            assert(entries[k].id != entries[i].id);
        }
    }
    lemma_lookup_first(entries, hit, i);
    let some = selected(entries, in_conflict(user, group_id));
    let list = members(entries, user, group_id);
    law_selected(entries, in_conflict(user, group_id));
    lemma_age_order();
    law_ordered(some, older_entry());
    assert(entries.contains(entries[i]) && entries.contains(entries[j]));
    assert(some.contains(entries[i]) && some.contains(entries[j]));
    assert(list.contains(entries[i]) && list.contains(entries[j]));
    let x = choose|x: int| 0 <= x < list.len() && list[x] == entries[i];
    let y = choose|y: int| 0 <= y < list.len() && list[y] == entries[j];
    assert(list[x].id == a && list[y].id == b);
    assert(x != y);
    assert(list.len() >= 2);
    assert(conflict_check(entries, user, a) == Ok::<_, DbError<Seq<char>>>((group_id, list)));
}

/// A dispute that an update raises can be settled: where the update is committed
/// and no user's hand is on the stored side, the stored entry and the written one
/// are both in conflict, in the group that the update names, and from each of
/// them the group is found with both in it.
pub proof fn law_dispute_has_two_sides(
    store: StoreModel,
    input: CommitMemoryUpdateRow,
    persisted: PersistedEntries,
    at: int,
    target: ExpectedMemoryEntryRow,
    group_id: Seq<char>,
)
    requires
        0 <= at < input.entries@.len(),
        input.entries@[at].transition matches CommitMemoryEntryTransition::Conflict {
            target: expected,
            conflict_group_id,
        } && expected == target && conflict_group_id@ == group_id,
        target.revision < i64::MAX,
        entries_apart(store.entries),
        forall|i: int|
            0 <= i < store.entries.len() && (#[trigger] store.entries[i]).id == target.id@
                ==> !store.entries[i].pinned && !store.entries[i].user_edited,
        !is_buried(store.entries, input.user_id@, input.entries@[at].fingerprint@),
    ensures
        commit_step(store, input, persisted) matches Ok(
            CommitOutcome::Committed { store: after, .. },
        ) ==> {
            let old = target.id@;
            let new = input.entries@[at].id@;
            &&& are_in_dispute(after.entries, input.user_id@, old, new, group_id)
            &&& finds_both(after.entries, input.user_id@, old, old, new, group_id)
            &&& finds_both(after.entries, input.user_id@, new, old, new, group_id)
        },
{
    if let Ok(CommitOutcome::Committed { store: after, ledger }) = commit_step(
        store,
        input,
        persisted,
    ) {
        let start = Ledger {
            entries: store.entries,
            sources: store.sources,
            added: Seq::empty(),
            refined: Seq::empty(),
            superseded: Seq::empty(),
            conflicts: Seq::empty(),
        };
        let context = WriteContext {
            user_id: input.user_id@,
            schema_version: input.schema_version,
            now: input.now,
        };
        lemma_dispute_stays(
            store.conversations,
            store.messages,
            start,
            input.entries@,
            context,
            at,
            target,
            group_id,
        );
        lemma_prefix_keeps_marks(
            store.conversations,
            store.messages,
            start,
            input.entries@,
            context,
        );
        let user = input.user_id@;
        let new = input.entries@[at].id@;
        lemma_dispute_can_be_settled(after.entries, user, target.id@, new, group_id);
        let (i, j) = choose|i: int, j: int|
            0 <= i < after.entries.len() && 0 <= j < after.entries.len() && is_side(
                #[trigger] after.entries[i],
                user,
                target.id@,
                group_id,
            ) && is_side(#[trigger] after.entries[j], user, new, group_id);
        assert(is_side(after.entries[j], user, new, group_id));
        lemma_dispute_can_be_settled(after.entries, user, new, target.id@, group_id);
    }
}

} // verus!

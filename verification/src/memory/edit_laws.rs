//! What editing by hand promises: an edit counts once, a settled conflict is over,
//! what was kept apart cannot come back as it was, and a deleted entry is gone.
use crate::error::DbError;
use crate::memory::commands::{
    ResolveMemoryConflictActionRow, ResolveMemoryConflictRow, UpdateMemoryEntryRow,
};
use crate::memory::edits::{
    as_checked, conflict_check, conflict_settled, deleted, edit_check, edited, entombed,
    entries_edited, entry_deleted, first_of_each, in_conflict, in_group, kept_apart, members,
    set_aside, settled, tombstone, tombstone_id, with_fingerprint,
};
use crate::memory::entries::{source_for, Entry, Source};
use crate::memory::finalize::entry_of;
use crate::memory::ledger::identity_in_state;
use crate::memory::store::StoreModel;
use crate::table::{
    exists_in, first_at, law_removed, lemma_lookup, lemma_lookup_first, lookup, updated,
};
use vstd::prelude::*;

verus! {

/// An edit counts once: whoever expects the revision from before it is turned
/// down.
pub proof fn law_edit_counts_once(
    entries: Seq<Entry>,
    input: UpdateMemoryEntryRow,
    current: Entry,
    fingerprint: Seq<char>,
    later: UpdateMemoryEntryRow,
)
    requires
        edit_check(entries, input) == Ok::<(Entry, Seq<char>), DbError<Seq<char>>>(
            (current, fingerprint),
        ),
        input.expected_revision < i64::MAX,
        later.id@ == input.id@,
        later.user_id@ == input.user_id@,
        later.expected_revision == input.expected_revision,
    ensures
        edit_check(entries_edited(entries, input, current, fingerprint), later) is Err,
        lookup(
            entries_edited(entries, input, current, fingerprint),
            entry_of(input.id@, input.user_id@),
        ) == Some(edited(input, current, fingerprint)(current)),
{
    let hit = entry_of(input.id@, input.user_id@);
    let after = entries_edited(entries, input, current, fingerprint);
    lemma_lookup(entries, hit);
    let at = choose|at: int| #[trigger] first_at(entries, hit, at);
    lemma_lookup_first(entries, hit, at);
    assert(as_checked(current)(entries[at]));
    assert(after[at] == edited(input, current, fingerprint)(current));
    assert forall|k: int| 0 <= k < at implies !hit(#[trigger] after[k]) by {
        assert(!hit(entries[k]));
    }
    assert(first_at(after, hit, at));
    lemma_lookup_first(after, hit, at);
}

proof fn lemma_entombed_grows(
    entries: Seq<Entry>,
    identities: Seq<Entry>,
    user_id: Seq<char>,
    prefix: Seq<char>,
    now: i64,
)
    ensures
        entombed(entries, identities, user_id, prefix, now) matches Ok(after) ==> {
            &&& after.len() >= entries.len()
            &&& forall|i: int| 0 <= i < entries.len() ==> #[trigger] after[i] == entries[i]
            &&& forall|i: int|
                entries.len() <= i < after.len() ==> (#[trigger] after[i]).conflict_group_id is None
            &&& forall|k: int|
                0 <= k < identities.len() ==> exists_in(
                    after,
                    identity_in_state(
                        user_id,
                        (#[trigger] identities[k]).fingerprint,
                        "deleted"@,
                    ),
                )
        },
    decreases identities.len(),
{
    if identities.len() > 0 {
        let rest = identities.drop_last();
        lemma_entombed_grows(entries, rest, user_id, prefix, now);
        if let Ok(list) = entombed(entries, rest, user_id, prefix, now) {
            if let Ok(after) = entombed(entries, identities, user_id, prefix, now) {
                let last = identities.last();
                let id = tombstone_id(prefix, (identities.len() - 1) as nat);
                assert forall|k: int| 0 <= k < identities.len() implies exists_in(
                    after,
                    identity_in_state(
                        user_id,
                        (#[trigger] identities[k]).fingerprint,
                        "deleted"@,
                    ),
                ) by {
                    let hit = identity_in_state(user_id, identities[k].fingerprint, "deleted"@);
                    if k < rest.len() {
                        assert(rest[k] == identities[k]);
                        let i = choose|i: int| 0 <= i < list.len() && hit(#[trigger] list[i]);
                        assert(after[i] == list[i]);
                    } else if after.len() > list.len() {
                        assert(after[list.len() as int] == tombstone(id, user_id, last, now));
                        assert(hit(after[list.len() as int]));
                    }
                }
            }
        }
    }
}

proof fn lemma_first_of_each_covers(list: Seq<Entry>, at: int)
    requires
        0 <= at < list.len(),
    ensures
        exists|k: int|
            0 <= k < first_of_each(list).len() && (#[trigger] first_of_each(list)[k]).fingerprint
                == list[at].fingerprint,
    decreases list.len(),
{
    let head = list.drop_last();
    let firsts = first_of_each(list);
    let known = exists_in(head, with_fingerprint(list.last().fingerprint));
    if at < head.len() {
        lemma_first_of_each_covers(head, at);
        let k = choose|k: int|
            0 <= k < first_of_each(head).len() && (#[trigger] first_of_each(head)[k]).fingerprint
                == head[at].fingerprint;
        assert(firsts[k] == first_of_each(head)[k]);
    } else if known {
        let other = choose|i: int|
            0 <= i < head.len() && with_fingerprint(list.last().fingerprint)(#[trigger] head[i]);
        lemma_first_of_each_covers(head, other);
        let k = choose|k: int|
            0 <= k < first_of_each(head).len() && (#[trigger] first_of_each(head)[k]).fingerprint
                == head[other].fingerprint;
        assert(firsts[k].fingerprint == list[at].fingerprint);
    } else {
        assert(firsts[firsts.len() - 1] == list.last());
    }
}

/// A settled conflict is over: no entry of its group is in conflict any more.
pub proof fn law_conflict_is_over(
    entries: Seq<Entry>,
    input: ResolveMemoryConflictRow,
    group_id: Seq<char>,
)
    requires
        conflict_check(entries, input.user_id@, input.entry_id@) matches Ok((group, _)) && group
            == group_id,
    ensures
        conflict_settled(
            entries,
            input,
            group_id,
            members(entries, input.user_id@, group_id),
        ) matches Ok(after) ==> !exists_in(after, in_conflict(input.user_id@, group_id)),
{
    let user_id = input.user_id@;
    let list = members(entries, user_id, group_id);
    if let Ok(after) = conflict_settled(entries, input, group_id, list) {
        match input.action {
            ResolveMemoryConflictActionRow::Select { selected_entry_id } => {
                lemma_one_settled(entries, user_id, group_id, selected_entry_id@, None, input.now);
            },
            ResolveMemoryConflictActionRow::Merge { content } => {
                lemma_one_settled(
                    entries,
                    user_id,
                    group_id,
                    input.entry_id@,
                    Some(content@),
                    input.now,
                );
            },
            ResolveMemoryConflictActionRow::KeepSeparate { tombstone_id_prefix } => {
                let apart = updated(
                    entries,
                    in_conflict(user_id, group_id),
                    kept_apart(user_id, group_id, input.now),
                );
                lemma_entombed_grows(
                    apart,
                    first_of_each(list),
                    user_id,
                    tombstone_id_prefix@,
                    input.now,
                );
                assert forall|i: int| 0 <= i < after.len() implies !in_conflict(user_id, group_id)(
                    #[trigger] after[i],
                ) by {
                    if i < apart.len() {
                        assert(after[i] == apart[i]);
                    }
                }
            },
        }
    }
}

proof fn lemma_one_settled(
    entries: Seq<Entry>,
    user_id: Seq<char>,
    group_id: Seq<char>,
    winner: Seq<char>,
    content: Option<Seq<char>>,
    now: i64,
)
    ensures
        !exists_in(
            updated(
                updated(entries, in_group(user_id, group_id), set_aside(now)),
                entry_of(winner, user_id),
                settled(content, now),
            ),
            in_conflict(user_id, group_id),
        ),
{
    let aside = updated(entries, in_group(user_id, group_id), set_aside(now));
    let after = updated(aside, entry_of(winner, user_id), settled(content, now));
    assert forall|i: int| 0 <= i < after.len() implies !in_conflict(user_id, group_id)(
        #[trigger] after[i],
    ) by {
        assert(!in_group(user_id, group_id)(aside[i]));
    }
}

/// Entries that are kept apart leave nothing behind that could come back: each
/// identity that was in the conflict is a deleted one.
pub proof fn law_kept_apart_is_entombed(
    entries: Seq<Entry>,
    input: ResolveMemoryConflictRow,
    group_id: Seq<char>,
    list: Seq<Entry>,
    at: int,
)
    requires
        input.action is KeepSeparate,
        0 <= at < list.len(),
    ensures
        conflict_settled(entries, input, group_id, list) matches Ok(after) ==> exists_in(
            after,
            identity_in_state(input.user_id@, list[at].fingerprint, "deleted"@),
        ),
{
    let user_id = input.user_id@;
    if let ResolveMemoryConflictActionRow::KeepSeparate { tombstone_id_prefix } = input.action {
        let apart = updated(
            entries,
            in_conflict(user_id, group_id),
            kept_apart(user_id, group_id, input.now),
        );
        let firsts = first_of_each(list);
        lemma_entombed_grows(apart, firsts, user_id, tombstone_id_prefix@, input.now);
        lemma_first_of_each_covers(list, at);
        let k = choose|k: int|
            0 <= k < firsts.len() && (#[trigger] firsts[k]).fingerprint == list[at].fingerprint;
        assert(firsts[k].fingerprint == list[at].fingerprint);
    }
}

/// A deleted entry is gone: it has no content and no source, and no edit brings
/// it back. Every other entry, and its sources, are as they were.
pub proof fn law_deleted_is_gone(
    store: StoreModel,
    user_id: Seq<char>,
    entry_id: Seq<char>,
    now: i64,
    later: UpdateMemoryEntryRow,
)
    requires
        later.id@ == entry_id,
        later.user_id@ == user_id,
    ensures
        ({
            let after = entry_deleted(store, user_id, entry_id, now);
            &&& edit_check(after.entries, later) is Err
            &&& forall|i: int|
                0 <= i < after.entries.len() && entry_of(entry_id, user_id)(
                    #[trigger] after.entries[i],
                ) ==> after.entries[i].content is None && after.entries[i].state == "deleted"@
            &&& forall|i: int|
                0 <= i < store.entries.len() && !entry_of(entry_id, user_id)(store.entries[i])
                    ==> #[trigger] after.entries[i] == store.entries[i]
            &&& forall|row: Source| #[trigger]
                after.sources.contains(row) == (store.sources.contains(row) && !source_for(
                    entry_id,
                )(row))
        }),
{
    let after = entry_deleted(store, user_id, entry_id, now);
    let hit = entry_of(entry_id, user_id);
    law_removed(store.sources, source_for(entry_id));
    assert forall|i: int| 0 <= i < after.entries.len() && hit(#[trigger] after.entries[i]) implies
        after.entries[i].content is None && after.entries[i].state == "deleted"@ by {
        if hit(store.entries[i]) {
            assert(after.entries[i] == deleted(now)(store.entries[i]));
        }
    }
    lemma_lookup(after.entries, hit);
    if let Some(found) = lookup(after.entries, hit) {
        let k = choose|k: int| 0 <= k < after.entries.len() && after.entries[k] == found;
        assert(hit(after.entries[k]));
    }
}

} // verus!

//! What queries for entries give, told by the entries themselves.
use crate::like::holds_like;
use crate::memory::commands::{MemoryCandidateQueryRow, MemoryEntryQueryRow};
use crate::memory::entries::{
    asked_for, candidates, change_set_of, change_sets_for, clamped, closer, earlier_source,
    entry_for, entry_limit, every_entry, found_by_id, found_by_identity, holds_there, listed_before,
    looked_through, query_check, newer_entry, newer_set, newest_of, queried, ranks_before,
    source_for, source_from, sources_for, with_found, ChangeSet, Entry, Source,
};
use crate::memory::finalize::entry_of;
use crate::memory::ledger::{entry_with_id, identity_in_state};
use crate::memory::store::StoreModel;
use crate::table::{
    exists_in, law_least, law_listing, law_ordered, law_selected, lemma_lookup, lookup, ordered,
    orders, page, selected,
};
use crate::text::{lemma_text_order, lemma_text_transitive, opt_text, text_before};
use vstd::prelude::*;
use vstd::utf8::encode_utf8;

verus! {

// ----------------------------------------------------------------------------
// Orders
// ----------------------------------------------------------------------------

proof fn lemma_ranks(a: Entry, b: Entry, c: Entry)
    ensures
        ranks_before(a, b) ==> !ranks_before(b, a),
        ranks_before(a, c) && !ranks_before(b, c) ==> ranks_before(a, b),
{
    lemma_text_order(a.id, b.id);
    lemma_text_order(a.id, c.id);
    lemma_text_order(b.id, c.id);
    if text_before(a.id, c.id) && text_before(c.id, b.id) {
        lemma_text_transitive(a.id, c.id, b.id);
    }
}

proof fn lemma_entry_orders(query: MemoryCandidateQueryRow)
    ensures
        orders(listed_before()),
        orders(closer(query)),
        orders(newer_entry()),
{
    let listed = listed_before();
    let close = closer(query);
    let newer = newer_entry();
    assert forall|a: Entry, b: Entry| #[trigger] listed(a, b) implies !listed(b, a) by {
        lemma_ranks(a, b, a);
    }
    assert forall|a: Entry, b: Entry, c: Entry| #[trigger] listed(a, c) && !listed(b, c)
        implies #[trigger] listed(
        a,
        b,
    ) by {
        lemma_ranks(a, b, c);
    }
    assert forall|a: Entry, b: Entry| #[trigger] close(a, b) implies !close(b, a) by {
        lemma_ranks(a, b, a);
    }
    assert forall|a: Entry, b: Entry, c: Entry| #[trigger] close(a, c) && !close(b, c)
        implies #[trigger] close(
        a,
        b,
    ) by {
        lemma_ranks(a, b, c);
        lemma_ranks(b, a, c);
    }
    assert forall|a: Entry, b: Entry| #[trigger] newer(a, b) implies !newer(b, a) by {
        lemma_text_order(a.id, b.id);
    }
    assert forall|a: Entry, b: Entry, c: Entry| #[trigger] newer(a, c) && !newer(b, c)
        implies #[trigger] newer(
        a,
        b,
    ) by {
        lemma_text_order(a.id, b.id);
        lemma_text_order(a.id, c.id);
        lemma_text_order(b.id, c.id);
        if text_before(a.id, c.id) && text_before(c.id, b.id) {
            lemma_text_transitive(a.id, c.id, b.id);
        }
    }
}

/// Whether an entry does not have to give way to another: a pinned one goes
/// first, then an edited one, then the one that changed last.
pub open spec fn may_stand_before(a: Entry, b: Entry) -> bool {
    &&& b.pinned ==> a.pinned
    &&& a.pinned == b.pinned ==> (b.user_edited ==> a.user_edited)
    &&& a.pinned == b.pinned && a.user_edited == b.user_edited ==> a.updated_at >= b.updated_at
}

// ----------------------------------------------------------------------------
// Recall
// ----------------------------------------------------------------------------

/// Whether an entry may be recalled where a query looks: it is the user's, it is
/// active, and it holds everywhere, in the query's project or in its workspace.
pub open spec fn may_be_recalled(entry: Entry, query: MemoryCandidateQueryRow) -> bool {
    &&& entry.user_id == query.user_id@
    &&& entry.state == "active"@
    &&& {
        ||| entry.project_id is None && entry.workspace_key is None
        ||| entry.project_id is Some && entry.project_id == opt_text(query.project_id)
        ||| entry.workspace_key is Some && entry.workspace_key == opt_text(query.workspace_key)
    }
}

/// Recall gives only entries that may be recalled, at most as many as asked for,
/// and all of them where it gives fewer. One of the query's project comes before
/// any other, and one of its workspace before one that holds everywhere; among
/// those that are as close, none stands before one that goes first.
pub proof fn law_recall_gives_what_holds(store: StoreModel, query: MemoryCandidateQueryRow)
    ensures
        ({
            let list = candidates(store, query);
            &&& list.len() <= (if query.limit == 0 {
                1
            } else {
                query.limit as int
            })
            &&& list.len() <= 200
            &&& forall|i: int|
                0 <= i < list.len() ==> store.entries.contains((#[trigger] list[i]).entry)
                    && may_be_recalled(list[i].entry, query)
            &&& list.len() < query.limit && list.len() < 200 ==> forall|k: int|
                0 <= k < store.entries.len() && may_be_recalled(#[trigger] store.entries[k], query)
                    ==> exists|i: int|
                    0 <= i < list.len() && (#[trigger] list[i]).entry == store.entries[k]
            &&& forall|i: int, j: int|
                0 <= i < j < list.len() ==> goes_before(
                    (#[trigger] list[i]).entry,
                    (#[trigger] list[j]).entry,
                    query,
                )
        }),
{
    let less = closer(query);
    let hit = holds_there(query);
    let rows = page(ordered(selected(store.entries, hit), less), 0, clamped(query.limit));
    let list = candidates(store, query);
    lemma_entry_orders(query);
    law_listing(store.entries, hit, less, 0, clamped(query.limit));
    assert forall|i: int| 0 <= i < list.len() implies store.entries.contains(
        (#[trigger] list[i]).entry,
    ) && may_be_recalled(list[i].entry, query) by {
        assert(list[i].entry == rows[i]);
        assert(hit(rows[i]));
    }
    if list.len() < query.limit && list.len() < 200 {
        assert forall|k: int|
            0 <= k < store.entries.len() && may_be_recalled(
                #[trigger] store.entries[k],
                query,
            ) implies exists|i: int|
            0 <= i < list.len() && (#[trigger] list[i]).entry == store.entries[k] by {
            assert(hit(store.entries[k]));
            assert(store.entries.contains(store.entries[k]));
            assert(rows.contains(store.entries[k]));
            let i = choose|i: int| 0 <= i < rows.len() && rows[i] == store.entries[k];
            assert(list[i].entry == store.entries[k]);
        }
    }
    assert forall|i: int, j: int| 0 <= i < j < list.len() implies goes_before(
        (#[trigger] list[i]).entry,
        (#[trigger] list[j]).entry,
        query,
    ) by {
        assert(list[i].entry == rows[i] && list[j].entry == rows[j]);
        assert(!less(rows[j], rows[i]));
    }
}

/// Whether a candidate stands before another rightly.
pub open spec fn goes_before(a: Entry, b: Entry, query: MemoryCandidateQueryRow) -> bool {
    let a_project = query.project_id is Some && a.project_id == opt_text(query.project_id);
    let b_project = query.project_id is Some && b.project_id == opt_text(query.project_id);
    let a_workspace = query.workspace_key is Some && a.workspace_key == opt_text(
        query.workspace_key,
    );
    let b_workspace = query.workspace_key is Some && b.workspace_key == opt_text(
        query.workspace_key,
    );
    &&& b_project ==> a_project
    &&& !a_project && b_workspace ==> a_workspace
    &&& a_project && b_project ==> may_stand_before(a, b)
    &&& !a_project && !b_project && a_workspace == b_workspace ==> may_stand_before(a, b)
}

// ----------------------------------------------------------------------------
// Queries
// ----------------------------------------------------------------------------

/// Whether an entry has all that a query names, but for the search.
pub open spec fn has_what_is_named(
    entry: Entry,
    query: MemoryEntryQueryRow,
    user: Seq<char>,
    sources: Seq<Source>,
) -> bool {
    &&& entry.user_id == user
    &&& query.kind is Some ==> entry.kind == query.kind->0@
    &&& query.state is Some ==> entry.state == query.state->0@
    &&& query.project_id is Some ==> entry.project_id == Some(query.project_id->0@)
    &&& query.workspace_key is Some ==> entry.workspace_key == Some(query.workspace_key->0@)
    &&& query.created_after is Some ==> entry.created_at >= query.created_after->0
    &&& query.created_before is Some ==> entry.created_at <= query.created_before->0
    &&& query.source_conversation_id is Some ==> exists|i: int|
        0 <= i < sources.len() && (#[trigger] sources[i]).memory_entry_id == entry.id
            && sources[i].conversation_id == query.source_conversation_id->0@
}

/// A query gives only entries that have what it names, at most a page of them,
/// pinned ones first, then edited ones, then the newest; a first page that is not
/// full holds, where there is no search, every entry that has what it names.
pub proof fn law_query_gives_what_is_named(
    store: StoreModel,
    user: Seq<char>,
    query: MemoryEntryQueryRow,
)
    ensures
        ({
            let list = queried(store, user, query);
            &&& list.len() <= 200
            &&& query.limit > 0 ==> list.len() <= query.limit
            &&& forall|i: int|
                0 <= i < list.len() ==> store.entries.contains((#[trigger] list[i]).entry)
                    && has_what_is_named(list[i].entry, query, user, store.sources)
            &&& forall|i: int, j: int|
                0 <= i < j < list.len() ==> may_stand_before(
                    (#[trigger] list[i]).entry,
                    (#[trigger] list[j]).entry,
                )
            &&& query.search is None && query.offset == 0 && list.len() < 200 && (query.limit == 0
                || list.len() < query.limit) ==> forall|k: int|
                0 <= k < store.entries.len() && has_what_is_named(
                    #[trigger] store.entries[k],
                    query,
                    user,
                    store.sources,
                ) ==> exists|i: int|
                    0 <= i < list.len() && (#[trigger] list[i]).entry == store.entries[k]
        }),
{
    let less = listed_before();
    let hit = asked_for(query, user, store.sources);
    let limit = entry_limit(query.limit);
    let rows = page(ordered(selected(store.entries, hit), less), query.offset as nat, limit);
    let list = queried(store, user, query);
    lemma_entry_orders(
        MemoryCandidateQueryRow {
            user_id: query.kind->0,
            project_id: None,
            workspace_key: None,
            limit: 0,
        },
    );
    law_listing(store.entries, hit, less, query.offset as nat, limit);
    assert forall|i: int| 0 <= i < list.len() implies store.entries.contains(
        (#[trigger] list[i]).entry,
    ) && has_what_is_named(list[i].entry, query, user, store.sources) by {
        assert(list[i].entry == rows[i]);
        lemma_asked_for(rows[i], query, user, store.sources);
    }
    assert forall|i: int, j: int| 0 <= i < j < list.len() implies may_stand_before(
        (#[trigger] list[i]).entry,
        (#[trigger] list[j]).entry,
    ) by {
        assert(list[i].entry == rows[i] && list[j].entry == rows[j]);
        assert(!less(rows[j], rows[i]));
    }
    if query.search is None && query.offset == 0 && list.len() < 200 && (query.limit == 0
        || list.len() < query.limit) {
        assert forall|k: int|
            0 <= k < store.entries.len() && has_what_is_named(
                #[trigger] store.entries[k],
                query,
                user,
                store.sources,
            ) implies exists|i: int|
            0 <= i < list.len() && (#[trigger] list[i]).entry == store.entries[k] by {
            lemma_asked_for(store.entries[k], query, user, store.sources);
            assert(store.entries.contains(store.entries[k]));
            assert(rows.contains(store.entries[k]));
            let i = choose|i: int| 0 <= i < rows.len() && rows[i] == store.entries[k];
            assert(list[i].entry == store.entries[k]);
        }
    }
}

proof fn lemma_asked_for(
    entry: Entry,
    query: MemoryEntryQueryRow,
    user: Seq<char>,
    sources: Seq<Source>,
)
    ensures
        asked_for(query, user, sources)(entry) ==> has_what_is_named(entry, query, user, sources),
        query.search is None && has_what_is_named(entry, query, user, sources) ==> asked_for(
            query,
            user,
            sources,
        )(entry),
{
    if let Some(id) = query.source_conversation_id {
        let hit = source_from(entry.id, id@);
        if exists_in(sources, hit) {
            let i = choose|i: int| 0 <= i < sources.len() && hit(#[trigger] sources[i]);
            assert(sources[i].memory_entry_id == entry.id);
        }
        if has_what_is_named(entry, query, user, sources) {
            let i = choose|i: int|
                0 <= i < sources.len() && (#[trigger] sources[i]).memory_entry_id == entry.id
                    && sources[i].conversation_id == id@;
            assert(hit(sources[i]));
        }
    }
}

/// An entry is given with exactly its own sources, those seen first before those
/// seen later.
pub proof fn law_entry_comes_with_its_sources(sources: Seq<Source>, entry_id: Seq<char>)
    ensures
        ({
            let list = sources_for(sources, entry_id);
            &&& forall|row: Source| #[trigger]
                list.contains(row) == (sources.contains(row) && row.memory_entry_id == entry_id)
            &&& forall|i: int, j: int|
                0 <= i < j < list.len() ==> (#[trigger] list[i]).first_observed_at <= (
                #[trigger] list[j]).first_observed_at
        }),
{
    let less = earlier_source();
    let some = selected(sources, source_for(entry_id));
    let list = sources_for(sources, entry_id);
    assert(orders(less)) by {
        assert forall|a: Source, b: Source| #[trigger] less(a, b) implies !less(b, a) by {
            lemma_text_order(a.conversation_id, b.conversation_id);
            lemma_text_order(a.turn_id, b.turn_id);
        }
        assert forall|a: Source, b: Source, c: Source| #[trigger] less(a, c) && !less(b, c)
            implies #[trigger] less(
            a,
            b,
        ) by {
            lemma_text_order(a.conversation_id, b.conversation_id);
            lemma_text_order(a.conversation_id, c.conversation_id);
            lemma_text_order(b.conversation_id, c.conversation_id);
            lemma_text_order(a.turn_id, b.turn_id);
            lemma_text_order(a.turn_id, c.turn_id);
            lemma_text_order(b.turn_id, c.turn_id);
            if text_before(a.conversation_id, c.conversation_id) && text_before(
                c.conversation_id,
                b.conversation_id,
            ) {
                lemma_text_transitive(a.conversation_id, c.conversation_id, b.conversation_id);
            }
            if text_before(a.turn_id, c.turn_id) && text_before(c.turn_id, b.turn_id) {
                lemma_text_transitive(a.turn_id, c.turn_id, b.turn_id);
            }
        }
    }
    law_selected(sources, source_for(entry_id));
    law_ordered(some, less);
    assert forall|row: Source| #[trigger]
        list.contains(row) == (sources.contains(row) && row.memory_entry_id == entry_id) by {
        assert(list.contains(row) == some.contains(row));
    }
    assert forall|i: int, j: int| 0 <= i < j < list.len() implies (
    #[trigger] list[i]).first_observed_at <= (#[trigger] list[j]).first_observed_at by {
        assert(!less(list[j], list[i]));
    }
}

/// An entry is given to its owner alone, as it is stored.
pub proof fn law_entry_is_for_its_owner(store: StoreModel, user: Seq<char>, id: Seq<char>)
    ensures
        entry_for(store, user, id) matches Ok(Some(row)) ==> store.entries.contains(row.entry)
            && row.entry.id == id && row.entry.user_id == user,
        (entry_for(store, user, id) matches Ok(None)) <==> forall|i: int|
            0 <= i < store.entries.len() ==> (#[trigger] store.entries[i]).id != id,
{
    let hit = entry_with_id(id);
    lemma_lookup(store.entries, hit);
    if lookup(store.entries, hit) is None {
        assert forall|i: int| 0 <= i < store.entries.len() implies (#[trigger] store.entries[i]).id
            != id by {
            assert(!hit(store.entries[i]));
        }
    }
}

/// A page of change sets holds only the user's, of the conversation that is asked
/// for, the newest first; a first page that is not full holds all of them.
pub proof fn law_change_sets_are_listed(
    rows: Seq<ChangeSet>,
    user: Seq<char>,
    conversation: Option<String>,
    limit: u32,
    offset: u32,
)
    ensures
        ({
            let list = change_sets_for(rows, user, conversation, limit, offset);
            &&& list.len() <= 200
            &&& limit > 0 ==> list.len() <= limit
            &&& forall|i: int|
                0 <= i < list.len() ==> rows.contains(#[trigger] list[i]) && list[i].user_id == user
                    && (conversation is Some ==> list[i].conversation_id == conversation->0@)
            &&& forall|i: int, j: int|
                0 <= i < j < list.len() ==> (#[trigger] list[i]).created_at >= (
                #[trigger] list[j]).created_at
            &&& offset == 0 && list.len() < limit && list.len() < 200 ==> forall|row: ChangeSet|
                rows.contains(row) && row.user_id == user && (conversation is Some
                    ==> row.conversation_id == conversation->0@) ==> #[trigger] list.contains(row)
        }),
{
    let less = newer_set();
    let hit = change_set_of(user, conversation);
    let list = change_sets_for(rows, user, conversation, limit, offset);
    assert(orders(less)) by {
        assert forall|a: ChangeSet, b: ChangeSet| #[trigger] less(a, b) implies !less(b, a) by {
            lemma_text_order(a.id, b.id);
        }
        assert forall|a: ChangeSet, b: ChangeSet, c: ChangeSet| #[trigger] less(a, c) && !less(b, c)
            implies #[trigger] less(
            a,
            b,
        ) by {
            lemma_text_order(a.id, b.id);
            lemma_text_order(a.id, c.id);
            lemma_text_order(b.id, c.id);
            if text_before(c.id, a.id) && text_before(b.id, c.id) {
                lemma_text_transitive(b.id, c.id, a.id);
            }
        }
    }
    law_listing(rows, hit, less, offset as nat, clamped(limit));
    assert forall|i: int| 0 <= i < list.len() implies rows.contains(#[trigger] list[i])
        && list[i].user_id == user && (conversation is Some ==> list[i].conversation_id
        == conversation->0@) by {
        assert(hit(list[i]));
    }
    assert forall|i: int, j: int| 0 <= i < j < list.len() implies (#[trigger] list[i]).created_at
        >= (#[trigger] list[j]).created_at by {
        assert(!less(list[j], list[i]));
    }
    if offset == 0 && list.len() < limit && list.len() < 200 {
        assert forall|row: ChangeSet|
            rows.contains(row) && row.user_id == user && (conversation is Some
                ==> row.conversation_id == conversation->0@) implies #[trigger] list.contains(
            row,
        ) by {
            assert(hit(row));
        }
    }
}

// ----------------------------------------------------------------------------
// Reconciliation
// ----------------------------------------------------------------------------

proof fn lemma_with_found(list: Seq<Entry>, found: Option<Entry>)
    ensures
        ({
            let after = with_found(list, found);
            &&& list.len() <= after.len()
            &&& forall|i: int| 0 <= i < list.len() ==> #[trigger] after[i] == list[i]
            &&& forall|i: int| list.len() <= i < after.len() ==> Some(#[trigger] after[i]) == found
            &&& found is Some ==> has_id(after, found->0.id)
            &&& forall|id: Seq<char>| has_id(list, id) ==> #[trigger] has_id(after, id)
        }),
{
    let after = with_found(list, found);
    if let Some(entry) = found {
        let hit = entry_with_id(entry.id);
        if exists_in(list, hit) {
            let i = choose|i: int| 0 <= i < list.len() && hit(#[trigger] list[i]);
            assert(after[i].id == entry.id);
        } else {
            assert(after[list.len() as int].id == entry.id);
        }
    }
    assert forall|id: Seq<char>| has_id(list, id) implies #[trigger] has_id(after, id) by {
        let i = choose|i: int| 0 <= i < list.len() && (#[trigger] list[i]).id == id;
        assert(after[i].id == id);
    }
}

/// Whether an entry of a list has an id.
pub open spec fn has_id(list: Seq<Entry>, id: Seq<char>) -> bool {
    exists|i: int| 0 <= i < list.len() && (#[trigger] list[i]).id == id
}

/// Reconciliation by identity gives only the user's active and deleted entries of
/// the identities asked for, and the newest of each.
pub proof fn law_reconciliation_by_identity(
    entries: Seq<Entry>,
    user: Seq<char>,
    fingerprints: Seq<Seq<char>>,
)
    ensures
        ({
            let list = found_by_identity(entries, user, fingerprints);
            &&& forall|i: int|
                0 <= i < list.len() ==> entries.contains(#[trigger] list[i]) && list[i].user_id
                    == user && (list[i].state == "active"@ || list[i].state == "deleted"@)
                    && fingerprints.contains(list[i].fingerprint)
            &&& forall|k: int, m: int|
                0 <= k < fingerprints.len() && 0 <= m < entries.len() && (
                #[trigger] entries[m]).user_id == user && entries[m].fingerprint
                    == #[trigger] fingerprints[k] && (entries[m].state == "active"@
                    || entries[m].state == "deleted"@) ==> has_newest(
                    list,
                    entries,
                    user,
                    fingerprints[k],
                    entries[m].state,
                )
        }),
    decreases fingerprints.len(),
{
    if fingerprints.len() > 0 {
        let head = fingerprints.drop_last();
        let last = fingerprints.last();
        law_reconciliation_by_identity(entries, user, head);
        let before = found_by_identity(entries, user, head);
        let active = newest_of(entries, user, last, "active"@);
        let gone = newest_of(entries, user, last, "deleted"@);
        let middle = with_found(before, active);
        let list = found_by_identity(entries, user, fingerprints);
        lemma_with_found(before, active);
        lemma_with_found(middle, gone);
        lemma_entry_orders(arbitrary());
        law_least(entries, identity_in_state(user, last, "active"@), newer_entry());
        law_least(entries, identity_in_state(user, last, "deleted"@), newer_entry());
        assert(fingerprints[fingerprints.len() - 1] == last);
        assert(fingerprints.contains(last));
        assert forall|i: int| 0 <= i < list.len() implies entries.contains(#[trigger] list[i])
            && list[i].user_id == user && (list[i].state == "active"@ || list[i].state
            == "deleted"@) && fingerprints.contains(list[i].fingerprint) by {
            if i < before.len() {
                assert(list[i] == middle[i] && middle[i] == before[i]);
                assert(head.contains(before[i].fingerprint));
                let k = choose|k: int| 0 <= k < head.len() && head[k] == before[i].fingerprint;
                assert(fingerprints[k] == head[k]);
            } else if i < middle.len() {
                assert(list[i] == middle[i]);
            }
        }
        assert forall|k: int, m: int|
            0 <= k < fingerprints.len() && 0 <= m < entries.len() && (
            #[trigger] entries[m]).user_id == user && entries[m].fingerprint
                == #[trigger] fingerprints[k] && (entries[m].state == "active"@ || entries[m].state
                == "deleted"@) implies has_newest(
            list,
            entries,
            user,
            fingerprints[k],
            entries[m].state,
        ) by {
            let state = entries[m].state;
            if k < head.len() {
                assert(head[k] == fingerprints[k]);
                let key = fingerprints[k];
                assert(has_newest(before, entries, user, key, state));
                let x = choose|x: int| #[trigger]
                    is_newest(before, x, entries, user, key, state);
                assert(has_id(middle, entries[x].id));
                assert(is_newest(list, x, entries, user, key, state));
            } else {
                assert(identity_in_state(user, last, state)(entries[m]));
                let top = newest_of(entries, user, last, state)->0;
                assert(has_id(list, top.id)) by {
                    if state == "active"@ {
                        assert(has_id(middle, top.id));
                    }
                }
                let x = choose|x: int| 0 <= x < entries.len() && entries[x] == top;
                assert forall|m: int|
                    0 <= m < entries.len() && (#[trigger] entries[m]).user_id == user
                        && entries[m].fingerprint == last && entries[m].state
                        == state implies entries[m].updated_at <= entries[x].updated_at by {
                    assert(identity_in_state(user, last, state)(entries[m]));
                    assert(!newer_entry()(entries[m], top));
                }
                assert(is_newest(list, x, entries, user, last, state));
            }
        }
    }
}

/// Whether a list has the user's newest entry of an identity in a state: one that
/// none of them changed after.
pub open spec fn has_newest(
    list: Seq<Entry>,
    entries: Seq<Entry>,
    user: Seq<char>,
    fingerprint: Seq<char>,
    state: Seq<char>,
) -> bool {
    exists|x: int| #[trigger] is_newest(list, x, entries, user, fingerprint, state)
}

/// Whether the entry at a place of a list has the id of a newest one.
pub open spec fn is_newest(
    list: Seq<Entry>,
    x: int,
    entries: Seq<Entry>,
    user: Seq<char>,
    fingerprint: Seq<char>,
    state: Seq<char>,
) -> bool {
    &&& 0 <= x < entries.len()
    &&& has_id(list, entries[x].id)
    &&& entries[x].user_id == user
    &&& entries[x].fingerprint == fingerprint
    &&& entries[x].state == state
    &&& forall|m: int|
        0 <= m < entries.len() && (#[trigger] entries[m]).user_id == user && entries[m].fingerprint
            == fingerprint && entries[m].state == state ==> entries[m].updated_at
            <= entries[x].updated_at
}

/// Reconciliation by id adds the user's entries of the ids asked for, and nothing
/// else.
pub proof fn law_reconciliation_by_id(
    entries: Seq<Entry>,
    user: Seq<char>,
    start: Seq<Entry>,
    ids: Seq<Seq<char>>,
)
    ensures
        ({
            let list = found_by_id(entries, user, start, ids);
            &&& list.len() >= start.len()
            &&& forall|i: int| 0 <= i < start.len() ==> #[trigger] list[i] == start[i]
            &&& forall|i: int|
                start.len() <= i < list.len() ==> entries.contains(#[trigger] list[i])
                    && list[i].user_id == user && ids.contains(list[i].id)
            &&& forall|k: int, m: int|
                0 <= k < ids.len() && 0 <= m < entries.len() && (#[trigger] entries[m]).id
                    == #[trigger] ids[k] && entries[m].user_id == user ==> has_id(list, ids[k])
        }),
    decreases ids.len(),
{
    if ids.len() > 0 {
        let head = ids.drop_last();
        let last = ids.last();
        law_reconciliation_by_id(entries, user, start, head);
        let before = found_by_id(entries, user, start, head);
        let hit = entry_of(last, user);
        let found = lookup(entries, hit);
        let list = found_by_id(entries, user, start, ids);
        lemma_lookup(entries, hit);
        lemma_with_found(before, found);
        assert(ids[ids.len() - 1] == last);
        assert(ids.contains(last));
        assert forall|i: int| start.len() <= i < list.len() implies entries.contains(
            #[trigger] list[i],
        ) && list[i].user_id == user && ids.contains(list[i].id) by {
            if i < before.len() {
                assert(list[i] == before[i]);
                let k = choose|k: int| 0 <= k < head.len() && head[k] == before[i].id;
                assert(ids[k] == head[k]);
            }
        }
        assert forall|k: int, m: int|
            0 <= k < ids.len() && 0 <= m < entries.len() && (#[trigger] entries[m]).id
                == #[trigger] ids[k] && entries[m].user_id == user implies has_id(list, ids[k]) by {
            if k < head.len() {
                assert(head[k] == ids[k]);
                assert(has_id(before, ids[k]));
            } else {
                assert(hit(entries[m]));
            }
        }
    }
}

/// Whether what an entry says holds what is searched for; one that says nothing
/// is searched as an empty text.
pub open spec fn holds_what_is_searched(entry: Entry, query: MemoryEntryQueryRow) -> bool {
    query.search is Some ==> holds_like(
        if entry.content is Some {
            entry.content->0
        } else {
            Seq::empty()
        },
        query.search->0@,
    )
}

/// A search gives only entries that hold what is searched for, and a first page
/// that is not full holds every entry that does and has what the query names. The
/// count of a query is the number of these entries.
pub proof fn law_search_gives_what_holds(
    store: StoreModel,
    user: Seq<char>,
    query: MemoryEntryQueryRow,
)
    ensures
        ({
            let list = queried(store, user, query);
            &&& forall|i: int|
                0 <= i < list.len() ==> holds_what_is_searched((#[trigger] list[i]).entry, query)
            &&& query.offset == 0 && list.len() < 200 && (query.limit == 0 || list.len()
                < query.limit) ==> forall|k: int|
                0 <= k < store.entries.len() && has_what_is_named(
                    #[trigger] store.entries[k],
                    query,
                    user,
                    store.sources,
                ) && holds_what_is_searched(store.entries[k], query) ==> exists|i: int|
                    0 <= i < list.len() && (#[trigger] list[i]).entry == store.entries[k]
        }),
        forall|entry: Entry| #[trigger]
            selected(store.entries, asked_for(query, user, store.sources)).contains(entry)
                <==> store.entries.contains(entry) && has_what_is_named(
                entry,
                query,
                user,
                store.sources,
            ) && holds_what_is_searched(entry, query),
{
    let less = listed_before();
    let hit = asked_for(query, user, store.sources);
    let limit = entry_limit(query.limit);
    let rows = page(ordered(selected(store.entries, hit), less), query.offset as nat, limit);
    let list = queried(store, user, query);
    lemma_entry_orders(arbitrary());
    law_listing(store.entries, hit, less, query.offset as nat, limit);
    law_selected(store.entries, hit);
    assert forall|entry: Entry| #[trigger] hit(entry) == (has_what_is_named(
        entry,
        query,
        user,
        store.sources,
    ) && holds_what_is_searched(entry, query)) by {
        lemma_asked_for(entry, query, user, store.sources);
        lemma_asked_with_search(entry, query, user, store.sources);
    }
    assert forall|i: int| 0 <= i < list.len() implies holds_what_is_searched(
        (#[trigger] list[i]).entry,
        query,
    ) by {
        assert(list[i].entry == rows[i]);
        assert(hit(rows[i]));
    }
    if query.offset == 0 && list.len() < 200 && (query.limit == 0 || list.len() < query.limit) {
        assert forall|k: int|
            0 <= k < store.entries.len() && has_what_is_named(
                #[trigger] store.entries[k],
                query,
                user,
                store.sources,
            ) && holds_what_is_searched(store.entries[k], query) implies exists|i: int|
            0 <= i < list.len() && (#[trigger] list[i]).entry == store.entries[k] by {
            assert(hit(store.entries[k]));
            assert(store.entries.contains(store.entries[k]));
            assert(rows.contains(store.entries[k]));
            let i = choose|i: int| 0 <= i < rows.len() && rows[i] == store.entries[k];
            assert(list[i].entry == store.entries[k]);
        }
    }
}

proof fn lemma_asked_with_search(
    entry: Entry,
    query: MemoryEntryQueryRow,
    user: Seq<char>,
    sources: Seq<Source>,
)
    ensures
        has_what_is_named(entry, query, user, sources) && holds_what_is_searched(entry, query)
            ==> asked_for(query, user, sources)(entry),
        asked_for(query, user, sources)(entry) ==> holds_what_is_searched(entry, query),
{
    if let Some(id) = query.source_conversation_id {
        let hit = source_from(entry.id, id@);
        if has_what_is_named(entry, query, user, sources) {
            let i = choose|i: int|
                0 <= i < sources.len() && (#[trigger] sources[i]).memory_entry_id == entry.id
                    && sources[i].conversation_id == id@;
            assert(hit(sources[i]));
        }
    }
}

/// The list of all entries is that of a query that names nothing, from the start.
pub proof fn law_every_entry_is_asked_for(entry: Entry, user: Seq<char>, sources: Seq<Source>)
    ensures
        has_what_is_named(entry, every_entry(), user, sources) <==> entry.user_id == user,
        holds_what_is_searched(entry, every_entry()),
        every_entry().offset == 0,
        every_entry().limit == 0,
{
}

/// A query is refused only for a user that is not there, or for a pattern that is too
/// long where an entry of the user's has to be looked at; it is answered for every
/// other.
pub proof fn law_query_is_refused(store: StoreModel, user: Seq<char>, query: MemoryEntryQueryRow)
    ensures
        !store.users.contains(user) ==> query_check(store, user, query) is Err,
        store.users.contains(user) && (query.search is None || encode_utf8(query.search->0@).len()
            <= 49_998) ==> query_check(store, user, query) is Ok,
        store.users.contains(user) && (forall|i: int|
            0 <= i < store.entries.len() ==> (#[trigger] store.entries[i]).user_id != user)
            ==> query_check(store, user, query) is Ok,
        store.users.contains(user) && query.search is Some && encode_utf8(query.search->0@).len()
            > 49_998 && query.source_conversation_id is None && (exists|i: int|
            0 <= i < store.entries.len() && has_what_is_named(
                #[trigger] store.entries[i],
                query,
                user,
                store.sources,
            )) ==> query_check(store, user, query) is Err,
{
    let hit = looked_through(query, user);
    if exists_in(store.entries, hit) {
        let i = choose|i: int| 0 <= i < store.entries.len() && hit(#[trigger] store.entries[i]);
        assert(store.entries[i].user_id == user);
    }
    assert forall|i: int|
        0 <= i < store.entries.len() && has_what_is_named(
            #[trigger] store.entries[i],
            query,
            user,
            store.sources,
        ) implies hit(store.entries[i]) by {}
}

} // verus!

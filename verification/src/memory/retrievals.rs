//! Retrievals that were handed out, and the state of a user's import.
use crate::error::{conflict_with, missing, not_found, DbError};
use crate::json::{decode_list, json_text_list, list_read};
use crate::memory::edits::owns_entry;
use crate::memory::entries::Entry;
use crate::memory::forget::{import_of, ImportState, Retrieval};
use crate::memory::ledger::entry_with_id;
use crate::memory::rows::{MemoryEntryDbRow, MemoryImportStateRow, MemoryRetrievalRow};
use crate::memory::store::{
    check_result, conversation_check, ensure_conversation, ensure_user, entry_missing, user_check,
    MemoryStore, StoreModel,
};
use crate::table::{
    any_where, copy_rows, delete_where, exists_in, find_where, first_at, law_removed, lemma_lookup,
    lemma_lookup_first, lookup, model, removed, selected, update_where, updated, Record,
};
use crate::text::{same, texts};
use vstd::prelude::*;

verus! {

/// The retrievals that are over.
pub open spec fn expired(now: i64) -> spec_fn(Retrieval) -> bool {
    |row: Retrieval| row.expires_at <= now
}

/// The retrievals that a new one takes the place of.
pub open spec fn replaced_by(retrieval: Retrieval) -> spec_fn(Retrieval) -> bool {
    |row: Retrieval|
        row.user_id == retrieval.user_id && row.conversation_id == retrieval.conversation_id
            && row.prompt_hash == retrieval.prompt_hash && row.retrieval_version
            == retrieval.retrieval_version
}

/// The retrievals with an id.
pub open spec fn retrieval_with_id(id: Seq<char>) -> spec_fn(Retrieval) -> bool {
    |row: Retrieval| row.id == id
}

/// Whether the user owns each of the first entries; the first that they do not
/// own decides.
pub open spec fn owns_entries(
    entries: Seq<Entry>,
    user_id: Seq<char>,
    ids: Seq<Seq<char>>,
) -> Result<
    (),
    DbError<Seq<char>>,
>
    decreases ids.len(),
{
    if ids.len() == 0 {
        Ok(())
    } else {
        match owns_entries(entries, user_id, ids.drop_last()) {
            Err(error) => Err(error),
            Ok(()) => if owns_entry(entries, user_id, ids.last()) {
                Ok(())
            } else {
                Err(entry_missing(ids.last()))
            },
        }
    }
}

/// Whether the selected entries, as they were read, are the user's.
pub open spec fn selection_check(
    entries: Seq<Entry>,
    user_id: Seq<char>,
    ids: Result<Seq<Seq<char>>, Seq<char>>,
) -> Result<(), DbError<Seq<char>>> {
    match ids {
        Err(error) => Err(DbError::Conflict("Invalid selected Memory IDs: "@ + error)),
        Ok(list) => owns_entries(entries, user_id, list),
    }
}

/// The retrievals that stay when a new one comes.
pub open spec fn staying(rows: Seq<Retrieval>, retrieval: Retrieval) -> Seq<Retrieval> {
    removed(removed(rows, expired(retrieval.created_at)), replaced_by(retrieval))
}

/// What storing a retrieval comes to: the retrievals after it.
pub open spec fn create_step(store: StoreModel, retrieval: Retrieval) -> Result<
    Seq<Retrieval>,
    DbError<Seq<char>>,
> {
    match conversation_check(store.conversations, retrieval.user_id, retrieval.conversation_id) {
        Err(error) => Err(error),
        Ok(()) => match selection_check(
            store.entries,
            retrieval.user_id,
            json_text_list(retrieval.selected_ids_json),
        ) {
            Err(error) => Err(error),
            Ok(()) => {
                let rows = staying(store.retrievals, retrieval);
                if exists_in(rows, retrieval_with_id(retrieval.id)) {
                    Err(DbError::Query("UNIQUE constraint failed: memory_retrievals.id"@))
                } else {
                    Ok(rows.push(retrieval))
                }
            },
        },
    }
}

/// The error for a retrieval that is not the user's.
pub open spec fn retrieval_missing(id: Seq<char>) -> DbError<Seq<char>> {
    missing("Memory retrieval '"@, id, "' not found"@)
}

/// A retrieval for its owner: none where there is none, an error where it is
/// another user's.
pub open spec fn retrieval_for(rows: Seq<Retrieval>, user_id: Seq<char>, id: Seq<char>) -> Result<
    Option<Retrieval>,
    DbError<Seq<char>>,
> {
    match lookup(rows, retrieval_with_id(id)) {
        None => Ok(None),
        Some(row) => if row.user_id == user_id {
            Ok(Some(row))
        } else {
            Err(retrieval_missing(id))
        },
    }
}

/// A user's import that is not over.
pub open spec fn import_running(user_id: Seq<char>) -> spec_fn(ImportState) -> bool {
    |row: ImportState| row.user_id == user_id && !row.completed
}

/// An import's new state.
pub open spec fn import_becomes(state: ImportState) -> spec_fn(ImportState) -> ImportState {
    |row: ImportState| state
}

/// The imports with a user's new state: one that is over stays as it is.
pub open spec fn imports_with(rows: Seq<ImportState>, state: ImportState) -> Seq<ImportState> {
    match lookup(rows, import_of(state.user_id)) {
        Some(_) => updated(rows, import_running(state.user_id), import_becomes(state)),
        None => rows.push(state),
    }
}

/// A user's import after it was given a new state.
pub open spec fn import_after(rows: Seq<ImportState>, state: ImportState) -> ImportState {
    match lookup(rows, import_of(state.user_id)) {
        Some(row) => if row.completed {
            row
        } else {
            state
        },
        None => state,
    }
}

// ----------------------------------------------------------------------------
// The same in running code
// ----------------------------------------------------------------------------

proof fn lemma_owns_stops(entries: Seq<Entry>, user_id: Seq<char>, ids: Seq<Seq<char>>, count: int)
    requires
        0 <= count <= ids.len(),
        owns_entries(entries, user_id, ids.take(count)) is Err,
    ensures
        owns_entries(entries, user_id, ids) == owns_entries(entries, user_id, ids.take(count)),
    decreases ids.len(),
{
    if count == ids.len() {
        assert(ids.take(count) =~= ids);
    } else {
        assert(ids.drop_last().take(count) =~= ids.take(count));
        lemma_owns_stops(entries, user_id, ids.drop_last(), count);
    }
}

fn is_owner(entries: &Vec<MemoryEntryDbRow>, user_id: &str, entry_id: &str) -> (yes: bool)
    ensures
        yes == owns_entry(model(entries@), user_id@, entry_id@),
{
    let found = find_where(
        entries,
        |entry: &MemoryEntryDbRow| -> (yes: bool)
            ensures yes == entry_with_id(entry_id@)(entry@)
            { same(entry.id.as_str(), entry_id) },
        Ghost(entry_with_id(entry_id@)),
    );
    match found {
        Some(at) => same(entries[at].user_id.as_str(), user_id),
        None => false,
    }
}

/// Checks that the selected entries, as they were read, are the user's.
pub fn check_selection_with(
    entries: &Vec<MemoryEntryDbRow>,
    user_id: &str,
    ids: &Result<Vec<String>, String>,
) -> (result: Result<(), DbError>)
    ensures
        check_result(result) == selection_check(
            model(entries@),
            user_id@,
            list_read(*ids),
        ),
{
    let list = match ids {
        Ok(list) => list,
        Err(error) => {
            return Err(conflict_with("Invalid selected Memory IDs: ", error.as_str()));
        },
    };
    let ghost all = texts(list@);
    let mut i: usize = 0;
    assert(all.take(0).len() == 0);
    while i < list.len()
        invariant
            i <= list.len(),
            all == texts(list@),
            list_read(*ids) == Ok::<Seq<Seq<char>>, Seq<char>>(all),
            owns_entries(model(entries@), user_id@, all.take(i as int)) is Ok,
        decreases list.len() - i,
    {
        let ghost next = all.take(i as int + 1);
        assert(next.drop_last() =~= all.take(i as int));
        let id = list[i].as_str();
        assert(next.last() == id@);
        if !is_owner(entries, user_id, id) {
            proof {
                lemma_owns_stops(model(entries@), user_id@, all, i as int + 1);
            }
            return Err(not_found("Memory entry '", id, "' not found"));
        }
        i = i + 1;
    }
    assert(all.take(i as int) =~= all);
    Ok(())
}

impl MemoryStore {
    /// Stores a retrieval. Those that are over go, and so does an earlier one for
    /// the same prompt.
    pub fn create_retrieval(&mut self, retrieval: &MemoryRetrievalRow) -> (result: Result<
        MemoryRetrievalRow,
        DbError,
    >)
        ensures
            match create_step(old(self)@, retrieval@) {
                Err(wanted) => {
                    &&& result matches Err(error) && error@ == wanted
                    &&& final(self)@ == old(self)@
                },
                Ok(retrievals) => {
                    &&& result matches Ok(row) && row@ == retrieval@
                    &&& final(self)@ == (StoreModel { retrievals, ..old(self)@ })
                },
            },
    {
        match ensure_conversation(
            &self.conversations,
            retrieval.user_id.as_str(),
            retrieval.conversation_id.as_str(),
        ) {
            Ok(()) => {},
            Err(error) => {
                return Err(error);
            },
        }
        let ids = decode_list(retrieval.selected_ids_json.as_str());
        match check_selection_with(&self.entries, retrieval.user_id.as_str(), &ids) {
            Ok(()) => {},
            Err(error) => {
                return Err(error);
            },
        }
        let mut rows = copy_rows(&self.retrievals);
        let _over: u64 = delete_where(
            &mut rows,
            |row: &MemoryRetrievalRow| -> (yes: bool)
                ensures yes == expired(retrieval.created_at)(row@)
                { row.expires_at <= retrieval.created_at },
            Ghost(expired(retrieval.created_at)),
        );
        let _replaced: u64 = delete_where(
            &mut rows,
            |row: &MemoryRetrievalRow| -> (yes: bool)
                ensures yes == replaced_by(retrieval@)(row@)
                {
                    same(row.user_id.as_str(), retrieval.user_id.as_str()) && same(
                        row.conversation_id.as_str(),
                        retrieval.conversation_id.as_str(),
                    ) && same(row.prompt_hash.as_str(), retrieval.prompt_hash.as_str()) && same(
                        row.retrieval_version.as_str(),
                        retrieval.retrieval_version.as_str(),
                    )
                },
            Ghost(replaced_by(retrieval@)),
        );
        let taken = any_where(
            &rows,
            |row: &MemoryRetrievalRow| -> (yes: bool)
                ensures yes == retrieval_with_id(retrieval.id@)(row@)
                { same(row.id.as_str(), retrieval.id.as_str()) },
            Ghost(retrieval_with_id(retrieval.id@)),
        );
        if taken {
            return Err(
                DbError::Query("UNIQUE constraint failed: memory_retrievals.id".to_owned()),
            );
        }
        let copy = retrieval.duplicate();
        let ghost before = rows@;
        rows.push(copy);
        assert(model(rows@) =~= model(before).push(retrieval@));
        self.retrievals = rows;
        Ok(retrieval.duplicate())
    }

    /// A retrieval for its owner.
    pub fn get_retrieval(&self, user_id: &str, retrieval_id: &str) -> (result: Result<
        Option<MemoryRetrievalRow>,
        DbError,
    >)
        ensures
            match (result, retrieval_for(self@.retrievals, user_id@, retrieval_id@)) {
                (Ok(None), Ok(None)) => true,
                (Ok(Some(row)), Ok(Some(wanted))) => row@ == wanted,
                (Err(error), Err(wanted)) => error@ == wanted,
                _ => false,
            },
    {
        let found = find_where(
            &self.retrievals,
            |row: &MemoryRetrievalRow| -> (yes: bool)
                ensures yes == retrieval_with_id(retrieval_id@)(row@)
                { same(row.id.as_str(), retrieval_id) },
            Ghost(retrieval_with_id(retrieval_id@)),
        );
        match found {
            None => Ok(None),
            Some(at) => if same(self.retrievals[at].user_id.as_str(), user_id) {
                Ok(Some(self.retrievals[at].duplicate()))
            } else {
                Err(not_found("Memory retrieval '", retrieval_id, "' not found"))
            },
        }
    }

    /// Deletes the retrievals that are over and counts them.
    pub fn delete_expired_retrievals(&mut self, now: i64) -> (count: u64)
        ensures
            final(self)@ == (StoreModel {
                retrievals: removed(old(self)@.retrievals, expired(now)),
                ..old(self)@
            }),
            count == selected(old(self)@.retrievals, expired(now)).len(),
    {
        delete_where(
            &mut self.retrievals,
            |row: &MemoryRetrievalRow| -> (yes: bool)
                ensures yes == expired(now)(row@)
                { row.expires_at <= now },
            Ghost(expired(now)),
        )
    }

    /// The state of a user's import.
    pub fn get_import_state(&self, user_id: &str) -> (result: Result<
        Option<MemoryImportStateRow>,
        DbError,
    >)
        ensures
            match user_check(self@.users, user_id@) {
                Err(wanted) => result matches Err(error) && error@ == wanted,
                Ok(()) => result matches Ok(found) && (match found {
                    Some(row) => Some(row@),
                    None => None,
                }) == lookup(self@.import_states, import_of(user_id@)),
            },
    {
        match ensure_user(&self.users, user_id) {
            Ok(()) => {},
            Err(error) => {
                return Err(error);
            },
        }
        let found = find_where(
            &self.import_states,
            |row: &MemoryImportStateRow| -> (yes: bool)
                ensures yes == import_of(user_id@)(row@)
                { same(row.user_id.as_str(), user_id) },
            Ghost(import_of(user_id@)),
        );
        match found {
            Some(at) => Ok(Some(self.import_states[at].duplicate())),
            None => Ok(None),
        }
    }

    /// Gives a user's import a new state, unless it is over, and gives the state
    /// that it then has.
    pub fn upsert_import_state(&mut self, state: &MemoryImportStateRow) -> (result: Result<
        MemoryImportStateRow,
        DbError,
    >)
        ensures
            match user_check(old(self)@.users, state.user_id@) {
                Err(wanted) => {
                    &&& result matches Err(error) && error@ == wanted
                    &&& final(self)@ == old(self)@
                },
                Ok(()) => {
                    &&& result matches Ok(row) && row@ == import_after(
                        old(self)@.import_states,
                        state@,
                    )
                    &&& final(self)@ == (StoreModel {
                        import_states: imports_with(old(self)@.import_states, state@),
                        ..old(self)@
                    })
                },
            },
    {
        match ensure_user(&self.users, state.user_id.as_str()) {
            Ok(()) => {},
            Err(error) => {
                return Err(error);
            },
        }
        let found = find_where(
            &self.import_states,
            |row: &MemoryImportStateRow| -> (yes: bool)
                ensures yes == import_of(state.user_id@)(row@)
                { same(row.user_id.as_str(), state.user_id.as_str()) },
            Ghost(import_of(state.user_id@)),
        );
        match found {
            None => {
                let copy = state.duplicate();
                let ghost before = self.import_states@;
                self.import_states.push(copy);
                assert(model(self.import_states@) =~= model(before).push(state@));
                Ok(state.duplicate())
            },
            Some(at) => {
                let ghost hit = import_running(state.user_id@);
                let ghost start = self.import_states@;
                let _count: u64 = update_where(
                    &mut self.import_states,
                    |row: &MemoryImportStateRow| -> (yes: bool)
                        ensures yes == hit(row@)
                        { same(row.user_id.as_str(), state.user_id.as_str()) && !row.completed },
                    |row: &MemoryImportStateRow| -> (next: MemoryImportStateRow)
                        ensures next@ == import_becomes(state@)(row@)
                        { state.duplicate() },
                    Ghost(hit),
                    Ghost(import_becomes(state@)),
                );
                proof {
                    assert(model(self.import_states@).len() == model(start).len());
                    assert(model(start)[at as int] == start[at as int]@);
                    assert(model(self.import_states@)[at as int] == import_after(
                        model(start),
                        state@,
                    ));
                }
                Ok(self.import_states[at].duplicate())
            },
        }
    }
}

// ----------------------------------------------------------------------------
// What holds of retrievals and imports
// ----------------------------------------------------------------------------

/// An import that is over never runs again: no new state changes it.
pub proof fn law_import_stays_over(rows: Seq<ImportState>, state: ImportState)
    requires
        lookup(rows, import_of(state.user_id)) matches Some(row) && row.completed,
    ensures
        lookup(imports_with(rows, state), import_of(state.user_id)) == lookup(
            rows,
            import_of(state.user_id),
        ),
{
    let hit = import_of(state.user_id);
    let after = imports_with(rows, state);
    lemma_lookup(rows, hit);
    let at = choose|at: int| #[trigger] first_at(rows, hit, at);
    lemma_lookup_first(rows, hit, at);
    assert forall|k: int| 0 <= k < at implies !hit(#[trigger] after[k]) by {
        assert(!hit(rows[k]));
    }
    assert(hit(after[at]));
    lemma_lookup_first(after, hit, at);
}

/// A stored retrieval is the only one for its prompt, and no stored one was over
/// when it came.
pub proof fn law_retrieval_is_unique(store: StoreModel, retrieval: Retrieval)
    requires
        create_step(store, retrieval) is Ok,
    ensures
        forall|row: Retrieval|
            create_step(store, retrieval)->Ok_0.contains(row) && row != retrieval
                ==> !#[trigger] replaced_by(retrieval)(row)
                    && row.expires_at > retrieval.created_at,
{
    let rows = removed(store.retrievals, expired(retrieval.created_at));
    law_removed(store.retrievals, expired(retrieval.created_at));
    law_removed(rows, replaced_by(retrieval));
    let left = removed(rows, replaced_by(retrieval));
    let all = left.push(retrieval);
    assert forall|row: Retrieval| all.contains(row) && row != retrieval
        implies !#[trigger] replaced_by(
        retrieval,
    )(row) && row.expires_at > retrieval.created_at by {
        let k = choose|k: int| 0 <= k < all.len() && all[k] == row;
        assert(left[k] == row);
        assert(left.contains(row));
        assert(rows.contains(row));
    }
}

} // verus!

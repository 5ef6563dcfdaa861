//! Reading what is remembered: a conversation's summary, entries by id and by
//! what they hold, change sets, and the state of the jobs.
use crate::error::{conflict, not_found, DbError};
use crate::like::{contains_like, holds_like, is_too_long, too_long};
use crate::memory::commands::{
    MemoryCandidateQueryRow, MemoryChangeSetQueryRow, MemoryEntryQueryRow,
};
use crate::memory::finalize::{entry_of, find_entry};
use crate::memory::ledger::{entry_with_id, identity_in_state};
use crate::memory::rows::{
    ConversationMemoryRow, MemoryChangeSetRow, MemoryEntryDbRow, MemoryEntryRow, MemoryJobHealthRow,
    MemoryJobRow, MemorySourceRow, RememberedEntry,
};
use crate::memory::store::{
    conversation_check, ensure_conversation, ensure_user, entry_missing, find_memory, memory_of,
    user_check, MemoryStore, StoreModel,
};
use crate::table::{
    any_where, exists_in, find_where, law_selected, least, least_where, lookup, model, ordered,
    page, select_where, selected, sort_rows, take_page, Record,
};
use crate::text::{
    before, is_some_text, lemma_text_order, lemma_text_transitive, opt_text, same, same_opt,
    text_before, texts,
};
use vstd::prelude::*;

verus! {

/// The model of an entry.
pub type Entry = MemoryEntryDbRow<Seq<char>>;

/// The model of a turn that an entry was drawn from.
pub type Source = MemorySourceRow<Seq<char>>;

/// The model of a change set.
pub type ChangeSet = MemoryChangeSetRow<Seq<char>>;

/// The most rows that one query gives.
pub const MAX_MEMORY_CANDIDATES: u32 = 200;

/// The most fingerprints, and the most ids, that one reconciliation looks up.
pub const MAX_LOOKUPS: usize = 32;

// ----------------------------------------------------------------------------
// Entries with their sources
// ----------------------------------------------------------------------------

/// The sources of an entry.
pub open spec fn source_for(entry_id: Seq<char>) -> spec_fn(Source) -> bool {
    |source: Source| source.memory_entry_id == entry_id
}

/// The order in which an entry's sources are given: by when they were first
/// observed, then by conversation and turn.
pub open spec fn earlier_source() -> spec_fn(Source, Source) -> bool {
    |a: Source, b: Source|
        {
            ||| a.first_observed_at < b.first_observed_at
            ||| a.first_observed_at == b.first_observed_at && (text_before(
                a.conversation_id,
                b.conversation_id,
            ) || (a.conversation_id == b.conversation_id && text_before(a.turn_id, b.turn_id)))
        }
}

/// An entry's sources in order.
pub open spec fn sources_for(sources: Seq<Source>, entry_id: Seq<char>) -> Seq<Source> {
    ordered(selected(sources, source_for(entry_id)), earlier_source())
}

/// An entry with its sources.
pub open spec fn remembered(entry: Entry, sources: Seq<Source>) -> RememberedEntry {
    RememberedEntry { entry, sources: sources_for(sources, entry.id) }
}

/// Entries with their sources.
pub open spec fn all_remembered(entries: Seq<Entry>, sources: Seq<Source>) -> Seq<RememberedEntry> {
    Seq::new(entries.len(), |i: int| remembered(entries[i], sources))
}

/// Collects an entry's sources in order.
pub fn collect_sources(
    sources: &Vec<MemorySourceRow>,
    entry_id: &str,
) -> (list: Vec<MemorySourceRow>)
    ensures
        model(list@) == sources_for(model(sources@), entry_id@),
{
    let hits = select_where(
        sources,
        |source: &MemorySourceRow| -> (yes: bool)
            ensures yes == source_for(entry_id@)(source@)
            { same(source.memory_entry_id.as_str(), entry_id) },
        Ghost(source_for(entry_id@)),
    );
    sort_rows(
        hits,
        |a: &MemorySourceRow, b: &MemorySourceRow| -> (yes: bool)
            ensures yes == earlier_source()(a@, b@)
            {
                a.first_observed_at < b.first_observed_at || (a.first_observed_at
                    == b.first_observed_at && (before(
                    a.conversation_id.as_str(),
                    b.conversation_id.as_str(),
                ) || (same(a.conversation_id.as_str(), b.conversation_id.as_str()) && before(
                    a.turn_id.as_str(),
                    b.turn_id.as_str(),
                ))))
            },
        Ghost(earlier_source()),
    )
}

/// Puts an entry and its sources together.
pub fn entry_with_sources(entry: &MemoryEntryDbRow, sources: &Vec<MemorySourceRow>) -> (row:
    MemoryEntryRow)
    ensures
        row@ == remembered(entry@, model(sources@)),
{
    let list = collect_sources(sources, entry.id.as_str());
    MemoryEntryRow { entry: entry.duplicate(), sources: list }
}

/// Puts entries and their sources together.
pub fn entry_rows_with_sources(
    entries: &Vec<MemoryEntryDbRow>,
    sources: &Vec<MemorySourceRow>,
) -> (list:
    Vec<MemoryEntryRow>)
    ensures
        model(list@) == all_remembered(model(entries@), model(sources@)),
{
    let mut list: Vec<MemoryEntryRow> = Vec::new();
    let mut i: usize = 0;
    while i < entries.len()
        invariant
            i <= entries.len(),
            list.len() == i,
            forall|k: int|
                0 <= k < i ==> (#[trigger] list[k])@ == remembered(
                    entries[k]@,
                    model(sources@),
                ),
        decreases entries.len() - i,
    {
        let row = entry_with_sources(&entries[i], sources);
        list.push(row);
        i = i + 1;
    }
    assert(model(list@) =~= all_remembered(model(entries@), model(sources@)));
    list
}

// ----------------------------------------------------------------------------
// Queries
// ----------------------------------------------------------------------------

/// Whether a value is the wanted one, where one is wanted.
pub open spec fn is_wanted(wanted: Option<String>, value: Seq<char>) -> bool {
    wanted matches Some(text) ==> value == text@
}

/// Whether a value is the wanted one, where one is wanted.
pub open spec fn is_wanted_opt(wanted: Option<String>, value: Option<Seq<char>>) -> bool {
    wanted matches Some(text) ==> value == Some(text@)
}

/// The sources of an entry from a conversation.
pub open spec fn source_from(entry_id: Seq<char>, conversation_id: Seq<char>) -> spec_fn(
    Source,
) -> bool {
    |source: Source|
        source.memory_entry_id == entry_id && source.conversation_id == conversation_id
}

/// The content of an entry that a search looks through.
pub open spec fn searched(entry: Entry) -> Seq<char> {
    match entry.content {
        Some(text) => text,
        None => Seq::empty(),
    }
}

/// The entries that a query asks for, whatever they hold and come from: those
/// whose content is looked through where there is a search.
pub open spec fn looked_through(query: MemoryEntryQueryRow, user_id: Seq<char>) -> spec_fn(
    Entry,
) -> bool {
    |entry: Entry|
        {
            &&& entry.user_id == user_id
            &&& is_wanted(query.kind, entry.kind)
            &&& is_wanted(query.state, entry.state)
            &&& is_wanted_opt(query.project_id, entry.project_id)
            &&& is_wanted_opt(query.workspace_key, entry.workspace_key)
            &&& query.created_after matches Some(time) ==> entry.created_at >= time
            &&& query.created_before matches Some(time) ==> entry.created_at <= time
        }
}

/// The entries that a query asks for.
pub open spec fn asked_for(
    query: MemoryEntryQueryRow,
    user_id: Seq<char>,
    sources: Seq<Source>,
) -> spec_fn(
    Entry,
) -> bool {
    |entry: Entry|
        {
            &&& looked_through(query, user_id)(entry)
            &&& query.source_conversation_id matches Some(id) ==> exists_in(
                sources,
                source_from(entry.id, id@),
            )
            &&& query.search matches Some(pattern) ==> holds_like(searched(entry), pattern@)
        }
}

/// The error for a search whose pattern is too long.
pub open spec fn search_refused() -> DbError<Seq<char>> {
    DbError::Query("LIKE or GLOB pattern too complex"@)
}

/// Whether a query can be answered. The user has to be known, and a search has to
/// be short enough as soon as there is an entry to be looked through.
pub open spec fn query_check(
    store: StoreModel,
    user_id: Seq<char>,
    query: MemoryEntryQueryRow,
) -> Result<(), DbError<Seq<char>>> {
    match user_check(store.users, user_id) {
        Err(error) => Err(error),
        Ok(()) => if (query.search matches Some(pattern) && is_too_long(pattern@)) && exists_in(
            store.entries,
            looked_through(query, user_id),
        ) {
            Err(search_refused())
        } else {
            Ok(())
        },
    }
}

/// The order of entries: pinned ones first, then edited ones, then the newest.
pub open spec fn listed_before() -> spec_fn(Entry, Entry) -> bool {
    |a: Entry, b: Entry| ranks_before(a, b)
}

/// Whether an entry stands before another.
pub open spec fn ranks_before(a: Entry, b: Entry) -> bool {
    if a.pinned != b.pinned {
        a.pinned
    } else if a.user_edited != b.user_edited {
        a.user_edited
    } else if a.updated_at != b.updated_at {
        a.updated_at > b.updated_at
    } else {
        text_before(a.id, b.id)
    }
}

/// How many entries a query gives at most.
pub open spec fn entry_limit(limit: u32) -> nat {
    if limit == 0 || limit > MAX_MEMORY_CANDIDATES {
        MAX_MEMORY_CANDIDATES as nat
    } else {
        limit as nat
    }
}

/// How many change sets or candidates a query gives at most.
pub open spec fn clamped(limit: u32) -> nat {
    if limit == 0 {
        1
    } else if limit > MAX_MEMORY_CANDIDATES {
        MAX_MEMORY_CANDIDATES as nat
    } else {
        limit as nat
    }
}

/// The entries that a query gives.
pub open spec fn queried(store: StoreModel, user_id: Seq<char>, query: MemoryEntryQueryRow) -> Seq<
    RememberedEntry,
> {
    all_remembered(
        page(
            ordered(
                selected(store.entries, asked_for(query, user_id, store.sources)),
                listed_before(),
            ),
            query.offset as nat,
            entry_limit(query.limit),
        ),
        store.sources,
    )
}

/// The query for every entry.
pub open spec fn every_entry() -> MemoryEntryQueryRow {
    MemoryEntryQueryRow {
        search: None,
        kind: None,
        state: None,
        project_id: None,
        workspace_key: None,
        source_conversation_id: None,
        created_after: None,
        created_before: None,
        limit: 0,
        offset: 0,
    }
}

/// An entry for its owner: none where there is none, an error where it is
/// another user's.
pub open spec fn entry_for(store: StoreModel, user_id: Seq<char>, entry_id: Seq<char>) -> Result<
    Option<RememberedEntry>,
    DbError<Seq<char>>,
> {
    match lookup(store.entries, entry_with_id(entry_id)) {
        None => Ok(None),
        Some(entry) => if entry.user_id == user_id {
            Ok(Some(remembered(entry, store.sources)))
        } else {
            Err(entry_missing(entry_id))
        },
    }
}

/// A user's change sets, of one conversation or of all.
pub open spec fn change_set_of(user_id: Seq<char>, conversation_id: Option<String>) -> spec_fn(
    ChangeSet,
) -> bool {
    |row: ChangeSet|
        row.user_id == user_id && is_wanted(conversation_id, row.conversation_id)
}

/// The order of change sets: the newest first.
pub open spec fn newer_set() -> spec_fn(ChangeSet, ChangeSet) -> bool {
    |a: ChangeSet, b: ChangeSet|
        a.created_at > b.created_at || (a.created_at == b.created_at && text_before(b.id, a.id))
}

/// The change sets that a query gives.
pub open spec fn change_sets_for(
    rows: Seq<ChangeSet>,
    user_id: Seq<char>,
    conversation_id: Option<String>,
    limit: u32,
    offset: u32,
) -> Seq<ChangeSet> {
    page(
        ordered(selected(rows, change_set_of(user_id, conversation_id)), newer_set()),
        offset as nat,
        clamped(limit),
    )
}

// ----------------------------------------------------------------------------
// Job states
// ----------------------------------------------------------------------------

/// The model of a job.
pub type Job = MemoryJobRow<Seq<char>>;

/// A user's jobs in a state.
pub open spec fn job_in(user_id: Seq<char>, state: Seq<char>) -> spec_fn(Job) -> bool {
    |job: Job| job.user_id == user_id && job.state == state
}

/// When the last of the user's jobs succeeded.
pub open spec fn last_success(jobs: Seq<Job>, user_id: Seq<char>) -> Option<i64> {
    match least(jobs, job_in(user_id, "succeeded"@), later_job()) {
        Some(job) => Some(job.updated_at),
        None => None,
    }
}

/// The order of jobs by when they last changed, the latest first.
pub open spec fn later_job() -> spec_fn(Job, Job) -> bool {
    |a: Job, b: Job| a.updated_at > b.updated_at
}

/// Whether a list counts the user's jobs by state: each state that one of them
/// is in once, in order, with the number of them that are in it.
pub open spec fn counts_by_state(
    list: Seq<MemoryJobHealthRow<Seq<char>>>,
    jobs: Seq<Job>,
    user_id: Seq<char>,
) -> bool {
    &&& forall|i: int, j: int|
        0 <= i < j < list.len()
            ==> text_before((#[trigger] list[i]).state, (#[trigger] list[j]).state)
    &&& forall|i: int|
        0 <= i < list.len() ==> (#[trigger] list[i]).count == selected(
            jobs,
            job_in(user_id, list[i].state),
        ).len() && list[i].count > 0
    &&& forall|k: int|
        0 <= k < jobs.len() && (#[trigger] jobs[k]).user_id == user_id ==> exists|i: int|
            0 <= i < list.len() && (#[trigger] list[i]).state == jobs[k].state
}

// ----------------------------------------------------------------------------
// The same in running code
// ----------------------------------------------------------------------------

fn wanted_text(wanted: &Option<String>, value: &str) -> (yes: bool)
    ensures
        yes == is_wanted(*wanted, value@),
{
    match wanted {
        Some(text) => same(value, text.as_str()),
        None => true,
    }
}

fn wanted_opt(wanted: &Option<String>, value: &Option<String>) -> (yes: bool)
    ensures
        yes == is_wanted_opt(*wanted, opt_text(*value)),
{
    match wanted {
        Some(text) => is_some_text(value, text.as_str()),
        None => true,
    }
}

fn comes_from(sources: &Vec<MemorySourceRow>, entry_id: &str, conversation_id: &str) -> (yes: bool)
    ensures
        yes == exists_in(model(sources@), source_from(entry_id@, conversation_id@)),
{
    any_where(
        sources,
        |source: &MemorySourceRow| -> (yes: bool)
            ensures yes == source_from(entry_id@, conversation_id@)(source@)
            {
                same(source.memory_entry_id.as_str(), entry_id) && same(
                    source.conversation_id.as_str(),
                    conversation_id,
                )
            },
        Ghost(source_from(entry_id@, conversation_id@)),
    )
}

fn search_finds(pattern: &Option<String>, content: &Option<String>) -> (yes: bool)
    ensures
        yes == (pattern matches Some(text) ==> holds_like(
            match opt_text(*content) {
                Some(found) => found,
                None => Seq::empty(),
            },
            text@,
        )),
{
    match pattern {
        None => true,
        Some(text) => match content {
            Some(found) => contains_like(found.as_str(), text.as_str()),
            None => {
                proof {
                    reveal_strlit("");
                    assert(""@ =~= Seq::<char>::empty());
                }
                contains_like("", text.as_str())
            },
        },
    }
}

fn is_looked_through(
    entry: &MemoryEntryDbRow,
    query: &MemoryEntryQueryRow,
    user_id: &str,
) -> (yes: bool)
    ensures
        yes == looked_through(*query, user_id@)(entry@),
{
    same(entry.user_id.as_str(), user_id) && wanted_text(&query.kind, entry.kind.as_str())
        && wanted_text(&query.state, entry.state.as_str()) && wanted_opt(
        &query.project_id,
        &entry.project_id,
    ) && wanted_opt(&query.workspace_key, &entry.workspace_key) && (match query.created_after {
        Some(time) => entry.created_at >= time,
        None => true,
    }) && (match query.created_before {
        Some(time) => entry.created_at <= time,
        None => true,
    })
}

fn is_asked_for(
    entry: &MemoryEntryDbRow,
    query: &MemoryEntryQueryRow,
    user_id: &str,
    sources: &Vec<MemorySourceRow>,
) -> (yes: bool)
    ensures
        yes == asked_for(*query, user_id@, model(sources@))(entry@),
{
    is_looked_through(entry, query, user_id) && (match &query.source_conversation_id {
        Some(id) => comes_from(sources, entry.id.as_str(), id.as_str()),
        None => true,
    }) && search_finds(&query.search, &entry.content)
}

fn ranks_first(a: &MemoryEntryDbRow, b: &MemoryEntryDbRow) -> (yes: bool)
    ensures
        yes == ranks_before(a@, b@),
{
    if a.pinned != b.pinned {
        a.pinned
    } else if a.user_edited != b.user_edited {
        a.user_edited
    } else if a.updated_at != b.updated_at {
        a.updated_at > b.updated_at
    } else {
        before(a.id.as_str(), b.id.as_str())
    }
}

fn clamp_limit(limit: u32) -> (size: usize)
    ensures
        size == clamped(limit),
{
    if limit == 0 {
        1
    } else if limit > MAX_MEMORY_CANDIDATES {
        MAX_MEMORY_CANDIDATES as usize
    } else {
        limit as usize
    }
}

impl MemoryStore {
    /// What is remembered of a conversation.
    pub fn get_conversation_memory(&self, user_id: &str, conversation_id: &str) -> (result: Result<
        Option<ConversationMemoryRow>,
        DbError,
    >)
        ensures
            match conversation_check(self@.conversations, user_id@, conversation_id@) {
                Err(wanted) => result matches Err(error) && error@ == wanted,
                Ok(()) => result matches Ok(found) && (match found {
                    Some(row) => Some(row@),
                    None => None,
                }) == lookup(self@.memories, memory_of(user_id@, conversation_id@)),
            },
    {
        match ensure_conversation(&self.conversations, user_id, conversation_id) {
            Ok(()) => {},
            Err(error) => {
                return Err(error);
            },
        }
        match find_memory(&self.memories, user_id, conversation_id) {
            Some(at) => Ok(Some(self.memories[at].duplicate())),
            None => Ok(None),
        }
    }

    /// Tests whether a query can be answered.
    fn ensure_query(&self, user_id: &str, query: &MemoryEntryQueryRow) -> (result: Result<
        (),
        DbError,
    >)
        ensures
            match query_check(self@, user_id@, *query) {
                Err(wanted) => result matches Err(error) && error@ == wanted,
                Ok(()) => result is Ok,
            },
    {
        match ensure_user(&self.users, user_id) {
            Ok(()) => {},
            Err(error) => {
                return Err(error);
            },
        }
        let refused = match &query.search {
            Some(pattern) => too_long(pattern.as_str()) && any_where(
                &self.entries,
                |entry: &MemoryEntryDbRow| -> (yes: bool)
                    ensures yes == looked_through(*query, user_id@)(entry@)
                    { is_looked_through(entry, query, user_id) },
                Ghost(looked_through(*query, user_id@)),
            ),
            None => false,
        };
        if refused {
            Err(DbError::Query("LIKE or GLOB pattern too complex".to_owned()))
        } else {
            Ok(())
        }
    }

    /// The entries that a query asks for, in order, a page of them.
    pub fn query_entries(&self, user_id: &str, query: &MemoryEntryQueryRow) -> (result: Result<
        Vec<MemoryEntryRow>,
        DbError,
    >)
        ensures
            match query_check(self@, user_id@, *query) {
                Err(wanted) => result matches Err(error) && error@ == wanted,
                Ok(()) => result matches Ok(list) && model(list@) == queried(
                    self@,
                    user_id@,
                    *query,
                ),
            },
    {
        match self.ensure_query(user_id, query) {
            Ok(()) => {},
            Err(error) => {
                return Err(error);
            },
        }
        let hits = select_where(
            &self.entries,
            |entry: &MemoryEntryDbRow| -> (yes: bool)
                ensures yes == asked_for(*query, user_id@, model(self.sources@))(entry@)
                { is_asked_for(entry, query, user_id, &self.sources) },
            Ghost(asked_for(*query, user_id@, model(self.sources@))),
        );
        let list = sort_rows(
            hits,
            |a: &MemoryEntryDbRow, b: &MemoryEntryDbRow| -> (yes: bool)
                ensures yes == listed_before()(a@, b@)
                { ranks_first(a, b) },
            Ghost(listed_before()),
        );
        let limit: usize = if query.limit == 0 || query.limit > MAX_MEMORY_CANDIDATES {
            MAX_MEMORY_CANDIDATES as usize
        } else {
            query.limit as usize
        };
        let rows = take_page(&list, query.offset as usize, limit);
        Ok(entry_rows_with_sources(&rows, &self.sources))
    }

    /// The user's entries, the first page of them.
    pub fn list_entries(&self, user_id: &str) -> (result: Result<Vec<MemoryEntryRow>, DbError>)
        ensures
            match user_check(self@.users, user_id@) {
                Err(wanted) => result matches Err(error) && error@ == wanted,
                Ok(()) => result matches Ok(list) && model(list@) == queried(
                    self@,
                    user_id@,
                    every_entry(),
                ),
            },
    {
        self.query_entries(user_id, &MemoryEntryQueryRow::default())
    }

    /// How many entries a query asks for.
    pub fn count_entries(&self, user_id: &str, query: &MemoryEntryQueryRow) -> (result: Result<
        u64,
        DbError,
    >)
        ensures
            match query_check(self@, user_id@, *query) {
                Err(wanted) => result matches Err(error) && error@ == wanted,
                Ok(()) => result matches Ok(count) && count == selected(
                    self@.entries,
                    asked_for(*query, user_id@, self@.sources),
                ).len(),
            },
    {
        match self.ensure_query(user_id, query) {
            Ok(()) => {},
            Err(error) => {
                return Err(error);
            },
        }
        let hits = select_where(
            &self.entries,
            |entry: &MemoryEntryDbRow| -> (yes: bool)
                ensures yes == asked_for(*query, user_id@, model(self.sources@))(entry@)
                { is_asked_for(entry, query, user_id, &self.sources) },
            Ghost(asked_for(*query, user_id@, model(self.sources@))),
        );
        let count: usize = hits.len();
        assert(model(hits@).len() == count);
        Ok(count as u64)
    }

    /// An entry for its owner.
    pub fn get_entry(&self, user_id: &str, entry_id: &str) -> (result: Result<
        Option<MemoryEntryRow>,
        DbError,
    >)
        ensures
            match (result, entry_for(self@, user_id@, entry_id@)) {
                (Ok(None), Ok(None)) => true,
                (Ok(Some(row)), Ok(Some(wanted))) => row@ == wanted,
                (Err(error), Err(wanted)) => error@ == wanted,
                _ => false,
            },
    {
        let found = find_where(
            &self.entries,
            |entry: &MemoryEntryDbRow| -> (yes: bool)
                ensures yes == entry_with_id(entry_id@)(entry@)
                { same(entry.id.as_str(), entry_id) },
            Ghost(entry_with_id(entry_id@)),
        );
        match found {
            None => Ok(None),
            Some(at) => if same(self.entries[at].user_id.as_str(), user_id) {
                Ok(Some(entry_with_sources(&self.entries[at], &self.sources)))
            } else {
                Err(not_found("Memory entry '", entry_id, "' not found"))
            },
        }
    }

    /// The change sets that a query asks for, a page of them, and how many there
    /// are in all.
    pub fn query_change_sets(
        &self,
        user_id: &str,
        query: &MemoryChangeSetQueryRow,
    ) -> (result: Result<
        (Vec<MemoryChangeSetRow>, u64),
        DbError,
    >)
        ensures
            match user_check(self@.users, user_id@) {
                Err(wanted) => result matches Err(error) && error@ == wanted,
                Ok(()) => result matches Ok(found) && model(found.0@) == change_sets_for(
                    self@.change_sets,
                    user_id@,
                    query.conversation_id,
                    query.limit,
                    query.offset,
                ) && found.1 == selected(
                    self@.change_sets,
                    change_set_of(user_id@, query.conversation_id),
                ).len(),
            },
    {
        match ensure_user(&self.users, user_id) {
            Ok(()) => {},
            Err(error) => {
                return Err(error);
            },
        }
        let ghost hit = change_set_of(user_id@, query.conversation_id);
        let hits = select_where(
            &self.change_sets,
            |row: &MemoryChangeSetRow| -> (yes: bool)
                ensures yes == hit(row@)
                {
                    same(row.user_id.as_str(), user_id) && wanted_text(
                        &query.conversation_id,
                        row.conversation_id.as_str(),
                    )
                },
            Ghost(hit),
        );
        let total: usize = hits.len();
        assert(model(hits@).len() == total);
        let list = sort_rows(
            hits,
            |a: &MemoryChangeSetRow, b: &MemoryChangeSetRow| -> (yes: bool)
                ensures yes == newer_set()(a@, b@)
                {
                    a.created_at > b.created_at || (a.created_at == b.created_at && before(
                        b.id.as_str(),
                        a.id.as_str(),
                    ))
                },
            Ghost(newer_set()),
        );
        let rows = take_page(&list, query.offset as usize, clamp_limit(query.limit));
        Ok((rows, total as u64))
    }

    /// The user's newest change sets.
    pub fn list_change_sets(&self, user_id: &str, limit: u32) -> (result: Result<
        Vec<MemoryChangeSetRow>,
        DbError,
    >)
        ensures
            match user_check(self@.users, user_id@) {
                Err(wanted) => result matches Err(error) && error@ == wanted,
                Ok(()) => result matches Ok(list) && model(list@) == change_sets_for(
                    self@.change_sets,
                    user_id@,
                    None,
                    limit,
                    0,
                ),
            },
    {
        match self.query_change_sets(
            user_id,
            &MemoryChangeSetQueryRow { conversation_id: None, limit, offset: 0 },
        ) {
            Ok(found) => Ok(found.0),
            Err(error) => Err(error),
        }
    }
}

// ----------------------------------------------------------------------------
// Job states in running code
// ----------------------------------------------------------------------------

/// Counts one more job in a state.
fn count_state(list: &mut Vec<MemoryJobHealthRow>, state: &str, Ghost(jobs): Ghost<Seq<Job>>, Ghost(
    user_id,
): Ghost<Seq<char>>)
    requires
        jobs.len() > 0,
        jobs.last().user_id == user_id,
        jobs.last().state == state@,
        jobs.len() <= i64::MAX,
        counts_by_state(model(old(list)@), jobs.drop_last(), user_id),
    ensures
        counts_by_state(model(final(list)@), jobs, user_id),
{
    let ghost head = jobs.drop_last();
    let ghost rows = model(list@);
    let mut at: usize = 0;
    while at < list.len() && before(list[at].state.as_str(), state)
        invariant
            at <= list.len(),
            rows == model(list@),
            forall|k: int| 0 <= k < at ==> text_before((#[trigger] rows[k]).state, state@),
        decreases list.len() - at,
    {
        assert(rows[at as int] == list[at as int]@);
        at = at + 1;
    }
    proof {
        assert forall|s: Seq<char>| #[trigger]
            selected(jobs, job_in(user_id, s)).len() == selected(head, job_in(user_id, s)).len() + (
        if s == state@ {
            1nat
        } else {
            0nat
        }) by {}
        assert forall|s: Seq<char>| #[trigger] selected(head, job_in(user_id, s)).len()
            <= head.len() by {
            law_selected(head, job_in(user_id, s));
        }
    }
    if at < list.len() && same(list[at].state.as_str(), state) {
        assert(rows[at as int] == list[at as int]@);
        proof {
            assert(rows[at as int].count == selected(head, job_in(user_id, state@)).len());
        }
        let more = MemoryJobHealthRow { state: state.to_owned(), count: list[at].count + 1 };
        list.set(at, more);
        proof {
            let after = model(list@);
            assert(after =~= rows.update(at as int, more@));
            assert forall|i: int| 0 <= i < after.len()
                implies (#[trigger] after[i]).count == selected(
                jobs,
                job_in(user_id, after[i].state),
            ).len() && after[i].count > 0 by {
                if i != at {
                    assert(after[i] == rows[i]);
                    if i < at {
                        assert(text_before(rows[i].state, rows[at as int].state));
                    } else {
                        assert(text_before(rows[at as int].state, rows[i].state));
                    }
                    lemma_text_order(rows[i].state, state@);
                }
            }
            assert forall|i: int, j: int| 0 <= i < j < after.len() implies text_before(
                (#[trigger] after[i]).state,
                (#[trigger] after[j]).state,
            ) by {
                assert(text_before(rows[i].state, rows[j].state));
            }
            assert forall|k: int| 0 <= k < jobs.len() && (#[trigger] jobs[k]).user_id
                == user_id implies exists|i: int|
                0 <= i < after.len() && (#[trigger] after[i]).state == jobs[k].state by {
                if k < head.len() {
                    assert(head[k] == jobs[k]);
                    let i = choose|i: int|
                        0 <= i < rows.len() && (#[trigger] rows[i]).state == head[k].state;
                    assert(after[i].state == jobs[k].state);
                } else {
                    assert(after[at as int].state == jobs[k].state);
                }
            }
        }
    } else {
        let first = MemoryJobHealthRow { state: state.to_owned(), count: 1 };
        proof {
            if at < list.len() {
                assert(rows[at as int] == list[at as int]@);
                lemma_text_order(rows[at as int].state, state@);
            }
            assert forall|i: int| at <= i < rows.len() implies text_before(
                state@,
                (#[trigger] rows[i]).state,
            ) by {
                if i > at {
                    assert(text_before(rows[at as int].state, rows[i].state));
                    lemma_text_transitive(state@, rows[at as int].state, rows[i].state);
                }
            }
            if exists|k: int| 0 <= k < head.len() && job_in(user_id, state@)(#[trigger] head[k]) {
                let k = choose|k: int|
                    0 <= k < head.len() && job_in(user_id, state@)(#[trigger] head[k]);
                let i = choose|i: int|
                    0 <= i < rows.len() && (#[trigger] rows[i]).state == head[k].state;
                lemma_text_order(rows[i].state, state@);
                assert(false);
            }
            lemma_selected_none(head, job_in(user_id, state@));
        }
        list.insert(at, first);
        proof {
            let after = model(list@);
            assert(after =~= rows.insert(at as int, first@));
            assert forall|i: int| 0 <= i < after.len()
                implies (#[trigger] after[i]).count == selected(
                jobs,
                job_in(user_id, after[i].state),
            ).len() && after[i].count > 0 by {
                if i < at {
                    assert(after[i] == rows[i]);
                    lemma_text_order(rows[i].state, state@);
                } else if i > at {
                    assert(after[i] == rows[i - 1]);
                    lemma_text_order(rows[i - 1].state, state@);
                }
            }
            assert forall|i: int, j: int| 0 <= i < j < after.len() implies text_before(
                (#[trigger] after[i]).state,
                (#[trigger] after[j]).state,
            ) by {
                let a = if i < at {
                    i
                } else {
                    i - 1
                };
                let b = if j < at {
                    j
                } else {
                    j - 1
                };
                if i != at {
                    assert(after[i] == rows[a]);
                }
                if j != at {
                    assert(after[j] == rows[b]);
                }
                if i != at && j != at {
                    assert(text_before(rows[a].state, rows[b].state));
                }
            }
            assert forall|k: int| 0 <= k < jobs.len() && (#[trigger] jobs[k]).user_id
                == user_id implies exists|i: int|
                0 <= i < after.len() && (#[trigger] after[i]).state == jobs[k].state by {
                if k < head.len() {
                    assert(head[k] == jobs[k]);
                    let i = choose|i: int|
                        0 <= i < rows.len() && (#[trigger] rows[i]).state == head[k].state;
                    if i < at {
                        assert(after[i] == rows[i]);
                    } else {
                        assert(after[i + 1] == rows[i]);
                    }
                } else {
                    assert(after[at as int].state == jobs[k].state);
                }
            }
        }
    }
}

proof fn lemma_selected_none(jobs: Seq<Job>, hit: spec_fn(Job) -> bool)
    requires
        forall|k: int| 0 <= k < jobs.len() ==> !hit(#[trigger] jobs[k]),
    ensures
        selected(jobs, hit).len() == 0,
    decreases jobs.len(),
{
    if jobs.len() > 0 {
        let head = jobs.drop_last();
        assert forall|k: int| 0 <= k < head.len() implies !hit(#[trigger] head[k]) by {
            assert(head[k] == jobs[k]);
        }
        lemma_selected_none(head, hit);
        assert(!hit(jobs[jobs.len() - 1]));
    }
}

impl MemoryStore {
    /// When the last of the user's jobs succeeded, and how many of their jobs are
    /// in each state.
    pub fn memory_job_health(&self, user_id: &str) -> (result: Result<
        (Option<i64>, Vec<MemoryJobHealthRow>),
        DbError,
    >)
        requires
            self.queue.jobs.len() <= i64::MAX,
        ensures
            match user_check(self@.users, user_id@) {
                Err(wanted) => result matches Err(error) && error@ == wanted,
                Ok(()) => result matches Ok(found) && found.0 == last_success(
                    self@.queue.jobs,
                    user_id@,
                ) && counts_by_state(model(found.1@), self@.queue.jobs, user_id@),
            },
    {
        match ensure_user(&self.users, user_id) {
            Ok(()) => {},
            Err(error) => {
                return Err(error);
            },
        }
        let jobs = &self.queue.jobs;
        let ghost rows = model(jobs@);
        let last = least_where(
            jobs,
            |job: &MemoryJobRow| -> (yes: bool)
                ensures yes == job_in(user_id@, "succeeded"@)(job@)
                {
                    same(job.user_id.as_str(), user_id) && same(job.state.as_str(), "succeeded")
                },
            |a: &MemoryJobRow, b: &MemoryJobRow| -> (yes: bool)
                ensures yes == later_job()(a@, b@)
                { a.updated_at > b.updated_at },
            Ghost(job_in(user_id@, "succeeded"@)),
            Ghost(later_job()),
        );
        let mut list: Vec<MemoryJobHealthRow> = Vec::new();
        let mut i: usize = 0;
        while i < jobs.len()
            invariant
                i <= jobs.len(),
                jobs.len() <= i64::MAX,
                rows == model(jobs@),
                counts_by_state(model(list@), rows.take(i as int), user_id@),
            decreases jobs.len() - i,
        {
            let ghost seen = rows.take(i as int + 1);
            assert(seen.drop_last() =~= rows.take(i as int));
            assert(seen.last() == jobs[i as int]@);
            if same(jobs[i].user_id.as_str(), user_id) {
                count_state(&mut list, jobs[i].state.as_str(), Ghost(seen), Ghost(user_id@));
            } else {
                proof {
                    let now = model(list@);
                    assert forall|k: int| 0 <= k < seen.len() && (#[trigger] seen[k]).user_id
                        == user_id@ implies exists|i: int|
                        0 <= i < now.len() && (#[trigger] now[i]).state == seen[k].state by {
                        assert(seen[k] == rows.take(i as int)[k]);
                    }
                }
            }
            i = i + 1;
        }
        assert(rows.take(i as int) =~= rows);
        Ok(
            (
                match last {
                    Some(at) => Some(jobs[at].updated_at),
                    None => None,
                },
                list,
            ),
        )
    }
}

// ----------------------------------------------------------------------------
// Entries for recall and for reconciliation
// ----------------------------------------------------------------------------

/// Whether an entry holds where a query looks: everywhere, in its project or in
/// its workspace.
pub open spec fn holds_there(query: MemoryCandidateQueryRow) -> spec_fn(Entry) -> bool {
    |entry: Entry|
        {
            &&& entry.user_id == query.user_id@
            &&& entry.state == "active"@
            &&& {
                ||| entry.project_id is None && entry.workspace_key is None
                ||| query.project_id is Some && entry.project_id == opt_text(query.project_id)
                ||| query.workspace_key is Some && entry.workspace_key == opt_text(
                    query.workspace_key,
                )
            }
        }
}

/// How close an entry is to where a query looks.
pub open spec fn closeness(entry: Entry, query: MemoryCandidateQueryRow) -> int {
    if query.project_id is Some && entry.project_id == opt_text(query.project_id) {
        0
    } else if query.workspace_key is Some && entry.workspace_key == opt_text(query.workspace_key) {
        1
    } else {
        2
    }
}

/// The order of candidates: the closest first, then as entries are listed.
pub open spec fn closer(query: MemoryCandidateQueryRow) -> spec_fn(Entry, Entry) -> bool {
    |a: Entry, b: Entry|
        closeness(a, query) < closeness(b, query) || (closeness(a, query) == closeness(b, query)
            && ranks_before(a, b))
}

/// The entries that may be recalled where a query looks.
pub open spec fn candidates(store: StoreModel, query: MemoryCandidateQueryRow) -> Seq<
    RememberedEntry,
> {
    all_remembered(
        page(
            ordered(selected(store.entries, holds_there(query)), closer(query)),
            0,
            clamped(query.limit),
        ),
        store.sources,
    )
}

/// The order of entries of one identity: the newest first.
pub open spec fn newer_entry() -> spec_fn(Entry, Entry) -> bool {
    |a: Entry, b: Entry|
        a.updated_at > b.updated_at || (a.updated_at == b.updated_at && text_before(a.id, b.id))
}

/// A list with an entry that was found, if it is not there yet.
pub open spec fn with_found(list: Seq<Entry>, found: Option<Entry>) -> Seq<Entry> {
    match found {
        None => list,
        Some(entry) => if exists_in(list, entry_with_id(entry.id)) {
            list
        } else {
            list.push(entry)
        },
    }
}

/// The newest entry of an identity in a state.
pub open spec fn newest_of(
    entries: Seq<Entry>,
    user_id: Seq<char>,
    fingerprint: Seq<char>,
    state: Seq<char>,
) -> Option<Entry> {
    least(entries, identity_in_state(user_id, fingerprint, state), newer_entry())
}

/// The newest active and the newest deleted entry of each identity.
pub open spec fn found_by_identity(
    entries: Seq<Entry>,
    user_id: Seq<char>,
    fingerprints: Seq<Seq<char>>,
) -> Seq<Entry>
    decreases fingerprints.len(),
{
    if fingerprints.len() == 0 {
        Seq::empty()
    } else {
        let list = found_by_identity(entries, user_id, fingerprints.drop_last());
        with_found(
            with_found(list, newest_of(entries, user_id, fingerprints.last(), "active"@)),
            newest_of(entries, user_id, fingerprints.last(), "deleted"@),
        )
    }
}

/// A list with the user's entries of the given ids, each once.
pub open spec fn found_by_id(
    entries: Seq<Entry>,
    user_id: Seq<char>,
    list: Seq<Entry>,
    ids: Seq<Seq<char>>,
) -> Seq<Entry>
    decreases ids.len(),
{
    if ids.len() == 0 {
        list
    } else {
        with_found(
            found_by_id(entries, user_id, list, ids.drop_last()),
            lookup(entries, entry_of(ids.last(), user_id)),
        )
    }
}

/// Entries without their sources.
pub open spec fn bare(entries: Seq<Entry>) -> Seq<RememberedEntry> {
    Seq::new(
        entries.len(),
        |i: int| RememberedEntry { entry: entries[i], sources: Seq::empty() },
    )
}

/// The error for a reconciliation that looks up too much.
pub open spec fn too_many_lookups() -> DbError<Seq<char>> {
    DbError::Conflict("Memory reconciliation lookup exceeds its bound"@)
}

/// Adds the entry at `at`, if there is one and its id is not there yet.
fn add_found(list: &mut Vec<MemoryEntryDbRow>, entries: &Vec<MemoryEntryDbRow>, at: Option<usize>)
    requires
        at matches Some(k) ==> k < entries.len(),
    ensures
        model(final(list)@) == with_found(
            model(old(list)@),
            match at {
                Some(k) => Some(entries[k as int]@),
                None => None,
            },
        ),
        final(list).len() <= old(list).len() + 1,
{
    match at {
        None => {},
        Some(k) => {
            let id = entries[k].id.as_str();
            let seen = any_where(
                list,
                |entry: &MemoryEntryDbRow| -> (yes: bool)
                    ensures yes == entry_with_id(id@)(entry@)
                    { same(entry.id.as_str(), id) },
                Ghost(entry_with_id(id@)),
            );
            if !seen {
                let ghost before_push = list@;
                let row = entries[k].duplicate();
                list.push(row);
                assert(model(list@) =~= model(before_push).push(row@));
            }
        },
    }
}

/// Finds the newest entry of an identity in a state.
fn find_newest(
    entries: &Vec<MemoryEntryDbRow>,
    user_id: &str,
    fingerprint: &str,
    state: &str,
) -> (found:
    Option<usize>)
    ensures
        match found {
            Some(at) => at < entries.len() && newest_of(
                model(entries@),
                user_id@,
                fingerprint@,
                state@,
            ) == Some(entries[at as int]@),
            None => newest_of(model(entries@), user_id@, fingerprint@, state@) is None,
        },
{
    least_where(
        entries,
        |entry: &MemoryEntryDbRow| -> (yes: bool)
            ensures yes == identity_in_state(user_id@, fingerprint@, state@)(entry@)
            {
                same(entry.user_id.as_str(), user_id) && same(
                    entry.fingerprint.as_str(),
                    fingerprint,
                ) && same(entry.state.as_str(), state)
            },
        |a: &MemoryEntryDbRow, b: &MemoryEntryDbRow| -> (yes: bool)
            ensures yes == newer_entry()(a@, b@)
            {
                a.updated_at > b.updated_at || (a.updated_at == b.updated_at && before(
                    a.id.as_str(),
                    b.id.as_str(),
                ))
            },
        Ghost(identity_in_state(user_id@, fingerprint@, state@)),
        Ghost(newer_entry()),
    )
}

fn measure_closeness(entry: &MemoryEntryDbRow, query: &MemoryCandidateQueryRow) -> (rank: u8)
    ensures
        rank == closeness(entry@, *query),
{
    if query.project_id.is_some() && same_opt(&entry.project_id, &query.project_id) {
        0
    } else if query.workspace_key.is_some() && same_opt(
        &entry.workspace_key,
        &query.workspace_key,
    ) {
        1
    } else {
        2
    }
}

impl MemoryStore {
    /// The active entries that may be recalled where a query looks.
    pub fn retrieval_candidates(&self, query: &MemoryCandidateQueryRow) -> (result: Result<
        Vec<MemoryEntryRow>,
        DbError,
    >)
        ensures
            match user_check(self@.users, query.user_id@) {
                Err(wanted) => result matches Err(error) && error@ == wanted,
                Ok(()) => result matches Ok(list) && model(list@) == candidates(self@, *query),
            },
    {
        match ensure_user(&self.users, query.user_id.as_str()) {
            Ok(()) => {},
            Err(error) => {
                return Err(error);
            },
        }
        let hits = select_where(
            &self.entries,
            |entry: &MemoryEntryDbRow| -> (yes: bool)
                ensures yes == holds_there(*query)(entry@)
                {
                    same(entry.user_id.as_str(), query.user_id.as_str()) && same(
                        entry.state.as_str(),
                        "active",
                    ) && ((entry.project_id.is_none() && entry.workspace_key.is_none()) || (
                    query.project_id.is_some() && same_opt(&entry.project_id, &query.project_id))
                        || (query.workspace_key.is_some() && same_opt(
                        &entry.workspace_key,
                        &query.workspace_key,
                    )))
                },
            Ghost(holds_there(*query)),
        );
        let list = sort_rows(
            hits,
            |a: &MemoryEntryDbRow, b: &MemoryEntryDbRow| -> (yes: bool)
                ensures yes == closer(*query)(a@, b@)
                {
                    let left: u8 = measure_closeness(a, query);
                    let right: u8 = measure_closeness(b, query);
                    left < right || (left == right && ranks_first(a, b))
                },
            Ghost(closer(*query)),
        );
        let rows = take_page(&list, 0, clamp_limit(query.limit));
        Ok(entry_rows_with_sources(&rows, &self.sources))
    }

    /// The entries that an update may have to be reconciled with: the newest
    /// active and the newest deleted one of each identity, and those with the
    /// given ids, each once and without its sources.
    pub fn reconciliation_entries(
        &self,
        user_id: &str,
        fingerprints: &Vec<String>,
        target_ids: &Vec<String>,
    ) -> (result: Result<Vec<MemoryEntryRow>, DbError>)
        ensures
            if fingerprints.len() > MAX_LOOKUPS || target_ids.len() > MAX_LOOKUPS {
                result matches Err(error) && error@ == too_many_lookups()
            } else {
                match user_check(self@.users, user_id@) {
                    Err(wanted) => result matches Err(error) && error@ == wanted,
                    Ok(()) => result matches Ok(list) && model(list@) == bare(
                        found_by_id(
                            self@.entries,
                            user_id@,
                            found_by_identity(self@.entries, user_id@, texts(fingerprints@)),
                            texts(target_ids@),
                        ),
                    ) && list.len() <= 3 * MAX_LOOKUPS,
                }
            },
    {
        if fingerprints.len() > MAX_LOOKUPS || target_ids.len() > MAX_LOOKUPS {
            return Err(conflict("Memory reconciliation lookup exceeds its bound"));
        }
        match ensure_user(&self.users, user_id) {
            Ok(()) => {},
            Err(error) => {
                return Err(error);
            },
        }
        let ghost entries = model(self.entries@);
        let mut rows: Vec<MemoryEntryDbRow> = Vec::new();
        let mut i: usize = 0;
        assert(model(rows@) =~= Seq::<Entry>::empty());
        while i < fingerprints.len()
            invariant
                i <= fingerprints.len(),
                entries == model(self.entries@),
                rows.len() <= 2 * i,
                model(rows@) == found_by_identity(
                    entries,
                    user_id@,
                    texts(fingerprints@).take(i as int),
                ),
            decreases fingerprints.len() - i,
        {
            let ghost next = texts(fingerprints@).take(i as int + 1);
            assert(next.drop_last() =~= texts(fingerprints@).take(i as int));
            let fingerprint = fingerprints[i].as_str();
            assert(next.last() == fingerprint@);
            let active = find_newest(&self.entries, user_id, fingerprint, "active");
            add_found(&mut rows, &self.entries, active);
            let deleted = find_newest(&self.entries, user_id, fingerprint, "deleted");
            add_found(&mut rows, &self.entries, deleted);
            i = i + 1;
        }
        assert(texts(fingerprints@).take(i as int) =~= texts(fingerprints@));
        let ghost start = model(rows@);
        let mut j: usize = 0;
        while j < target_ids.len()
            invariant
                j <= target_ids.len(),
                fingerprints.len() <= MAX_LOOKUPS,
                target_ids.len() <= MAX_LOOKUPS,
                entries == model(self.entries@),
                rows.len() <= 2 * fingerprints.len() + j,
                model(rows@) == found_by_id(
                    entries,
                    user_id@,
                    start,
                    texts(target_ids@).take(j as int),
                ),
            decreases target_ids.len() - j,
        {
            let ghost next = texts(target_ids@).take(j as int + 1);
            assert(next.drop_last() =~= texts(target_ids@).take(j as int));
            let id = target_ids[j].as_str();
            assert(next.last() == id@);
            let found = find_entry(&self.entries, id, user_id);
            add_found(&mut rows, &self.entries, found);
            j = j + 1;
        }
        assert(texts(target_ids@).take(j as int) =~= texts(target_ids@));
        let ghost whole = model(rows@);
        let mut list: Vec<MemoryEntryRow> = Vec::new();
        let mut k: usize = 0;
        while k < rows.len()
            invariant
                k <= rows.len(),
                whole == model(rows@),
                list.len() == k,
                forall|m: int| 0 <= m < k ==> (#[trigger] list[m])@ == bare(whole)[m],
            decreases rows.len() - k,
        {
            let row = MemoryEntryRow { entry: rows[k].duplicate(), sources: Vec::new() };
            assert(model(row.sources@) =~= Seq::<Source>::empty());
            list.push(row);
            k = k + 1;
        }
        assert(model(list@) =~= bare(whole));
        Ok(list)
    }
}

} // verus!

//! The workspaces that agents hold.
use crate::error::{conflict, missing, not_found, DbError};
use crate::table::{
    exists_in, fetch_where, find_where, found, law_full_listing, lemma_lookup, lemma_lookup_updated,
    list_where, lookup, model, ordered, orders, selected, update_where, updated, Record,
};
use crate::text::{
    before, copy_opt, lemma_text_order, lemma_text_transitive, opt_text, same, text_before,
};
use crate::write::{is_taken, reports_taken, rows_changed, Verdict};
use vstd::prelude::*;

verus! {

/// An agent's hold on a workspace.
#[derive(Debug, Clone, PartialEq, Eq)]
pub struct AgentWorkspaceLeaseRow<T = String> {
    pub id: T,
    pub team_id: T,
    pub user_id: T,
    pub slot_id: T,
    pub workspace_mode: T,
    pub repository_path: T,
    pub worktree_path: T,
    pub branch_name: T,
    pub base_commit: T,
    pub allowed_paths: T,
    pub lease_status: T,
    pub cleanup_status: T,
    pub conflict_files: T,
    pub last_error: Option<T>,
    pub created_at: i64,
    pub updated_at: i64,
    pub released_at: Option<i64>,
}

impl View for AgentWorkspaceLeaseRow<String> {
    type V = AgentWorkspaceLeaseRow<Seq<char>>;

    open spec fn view(&self) -> AgentWorkspaceLeaseRow<Seq<char>> {
        AgentWorkspaceLeaseRow {
            id: self.id@,
            team_id: self.team_id@,
            user_id: self.user_id@,
            slot_id: self.slot_id@,
            workspace_mode: self.workspace_mode@,
            repository_path: self.repository_path@,
            worktree_path: self.worktree_path@,
            branch_name: self.branch_name@,
            base_commit: self.base_commit@,
            allowed_paths: self.allowed_paths@,
            lease_status: self.lease_status@,
            cleanup_status: self.cleanup_status@,
            conflict_files: self.conflict_files@,
            last_error: opt_text(self.last_error),
            created_at: self.created_at,
            updated_at: self.updated_at,
            released_at: self.released_at,
        }
    }
}

impl Record for AgentWorkspaceLeaseRow<String> {
    fn duplicate(&self) -> (copy: Self) {
        AgentWorkspaceLeaseRow {
            id: self.id.clone(),
            team_id: self.team_id.clone(),
            user_id: self.user_id.clone(),
            slot_id: self.slot_id.clone(),
            workspace_mode: self.workspace_mode.clone(),
            repository_path: self.repository_path.clone(),
            worktree_path: self.worktree_path.clone(),
            branch_name: self.branch_name.clone(),
            base_commit: self.base_commit.clone(),
            allowed_paths: self.allowed_paths.clone(),
            lease_status: self.lease_status.clone(),
            cleanup_status: self.cleanup_status.clone(),
            conflict_files: self.conflict_files.clone(),
            last_error: copy_opt(&self.last_error),
            created_at: self.created_at,
            updated_at: self.updated_at,
            released_at: self.released_at,
        }
    }
}

/// The model of a lease.
pub type Lease = AgentWorkspaceLeaseRow<Seq<char>>;

/// What to change of a lease; what is not given stays.
#[derive(Debug, Clone, PartialEq, Eq)]
pub struct AgentWorkspaceLeaseUpdate {
    pub lease_status: Option<String>,
    pub cleanup_status: Option<String>,
    pub conflict_files: Option<String>,
    pub last_error: Option<Option<String>>,
    pub released_at: Option<Option<i64>>,
}

impl Default for AgentWorkspaceLeaseUpdate {
    fn default() -> (update: Self)
        ensures
            update == (AgentWorkspaceLeaseUpdate {
                lease_status: None,
                cleanup_status: None,
                conflict_files: None,
                last_error: None,
                released_at: None,
            }),
    {
        AgentWorkspaceLeaseUpdate {
            lease_status: None,
            cleanup_status: None,
            conflict_files: None,
            last_error: None,
            released_at: None,
        }
    }
}

/// The lease with an id.
pub open spec fn with_id(id: Seq<char>) -> spec_fn(Lease) -> bool {
    |row: Lease| row.id == id
}

/// The lease of a team's slot.
pub open spec fn of_slot(team_id: Seq<char>, slot_id: Seq<char>) -> spec_fn(Lease) -> bool {
    |row: Lease| row.team_id == team_id && row.slot_id == slot_id
}

/// A team's leases.
pub open spec fn of_team(team_id: Seq<char>) -> spec_fn(Lease) -> bool {
    |row: Lease| row.team_id == team_id
}

/// The leases whose workspace may not be as their row says.
pub open spec fn is_unsettled() -> spec_fn(Lease) -> bool {
    |row: Lease|
        (
            row.lease_status == "provisioning"@ || row.lease_status == "active"@
                || row.lease_status == "cleanup_pending"@ || row.lease_status == "conflict"@
        )
}

/// The order of a team's leases.
pub open spec fn by_slot() -> spec_fn(Lease, Lease) -> bool {
    |a: Lease, b: Lease|
        text_before(a.slot_id, b.slot_id)
            || (a.slot_id == b.slot_id && (a.created_at < b.created_at))
}

/// The order of the leases of all teams.
pub open spec fn by_team() -> spec_fn(Lease, Lease) -> bool {
    |a: Lease, b: Lease|
        text_before(a.team_id, b.team_id)
            || (a.team_id == b.team_id && (text_before(a.slot_id, b.slot_id)))
}

/// The value that is given, or the one that is there.
pub open spec fn given_or(given: Option<String>, known: Seq<char>) -> Seq<char> {
    match given {
        Some(text) => text@,
        None => known,
    }
}

/// A lease with what an update gives.
pub open spec fn lease_becomes(
    update: AgentWorkspaceLeaseUpdate,
    now: i64,
) -> spec_fn(Lease) -> Lease {
    |row: Lease|
        AgentWorkspaceLeaseRow {
            lease_status: given_or(update.lease_status, row.lease_status),
            cleanup_status: given_or(update.cleanup_status, row.cleanup_status),
            conflict_files: given_or(update.conflict_files, row.conflict_files),
            last_error: match update.last_error {
                Some(error) => opt_text(error),
                None => row.last_error,
            },
            released_at: match update.released_at {
                Some(at) => at,
                None => row.released_at,
            },
            updated_at: now,
            ..row
        }
}

/// The error for a lease that the storage engine turned down.
pub open spec fn lease_refused(code: Option<Seq<char>>, message: Seq<char>) -> DbError<Seq<char>> {
    if reports_taken(code) {
        DbError::Conflict("workspace lease already exists for this slot, path, or branch"@)
    } else {
        DbError::Query(message)
    }
}

/// What adding a lease comes to, once the storage engine has spoken.
pub open spec fn create_step(rows: Seq<Lease>, row: Lease, verdict: Verdict<Seq<char>>) -> Result<
    Seq<Lease>,
    DbError<Seq<char>>,
> {
    match verdict {
        Verdict::Refused { code, message } => Err(lease_refused(code, message)),
        Verdict::Accepted => Ok(rows.push(row)),
    }
}

/// What changing a lease comes to.
pub open spec fn update_step(
    rows: Seq<Lease>,
    id: Seq<char>,
    update: AgentWorkspaceLeaseUpdate,
    now: i64,
) -> Result<Seq<Lease>, DbError<Seq<char>>> {
    if exists_in(rows, with_id(id)) {
        Ok(updated(rows, with_id(id), merged(rows, id, update, now)))
    } else {
        Err(missing("workspace lease "@, id, ""@))
    }
}

/// Every row with the id gets what the update gives, and else what the first of
/// them holds.
pub open spec fn merged(
    rows: Seq<Lease>,
    id: Seq<char>,
    update: AgentWorkspaceLeaseUpdate,
    now: i64,
) -> spec_fn(
    Lease,
) -> Lease {
    |row: Lease|
        match lookup(rows, with_id(id)) {
            None => row,
            Some(known) => AgentWorkspaceLeaseRow {
                lease_status: lease_becomes(update, now)(known).lease_status,
                cleanup_status: lease_becomes(update, now)(known).cleanup_status,
                conflict_files: lease_becomes(update, now)(known).conflict_files,
                last_error: lease_becomes(update, now)(known).last_error,
                released_at: lease_becomes(update, now)(known).released_at,
                updated_at: now,
                ..row
            },
        }
}

/// The leases.
#[derive(Debug, Clone, PartialEq, Eq)]
pub struct WorkspaceLeaseStore {
    pub leases: Vec<AgentWorkspaceLeaseRow>,
}

impl View for WorkspaceLeaseStore {
    type V = Seq<Lease>;

    open spec fn view(&self) -> Seq<Lease> {
        model(self.leases@)
    }
}

fn text_or(given: &Option<String>, known: &String) -> (text: String)
    ensures
        text@ == given_or(*given, known@),
{
    match given {
        Some(text) => text.clone(),
        None => known.clone(),
    }
}

/// The error for a lease that the storage engine turned down.
pub fn lease_write_error(code: &Option<String>, message: &str) -> (error: DbError)
    ensures
        error@ == lease_refused(opt_text(*code), message@),
{
    if is_taken(code) {
        conflict("workspace lease already exists for this slot, path, or branch")
    } else {
        DbError::Query(message.to_owned())
    }
}

fn next_lease(row: &AgentWorkspaceLeaseRow, update: &AgentWorkspaceLeaseUpdate, now: i64) -> (next:
    AgentWorkspaceLeaseRow)
    ensures
        next@ == lease_becomes(*update, now)(row@),
{
    AgentWorkspaceLeaseRow {
        lease_status: text_or(&update.lease_status, &row.lease_status),
        cleanup_status: text_or(&update.cleanup_status, &row.cleanup_status),
        conflict_files: text_or(&update.conflict_files, &row.conflict_files),
        last_error: match &update.last_error {
            Some(error) => copy_opt(error),
            None => copy_opt(&row.last_error),
        },
        released_at: match update.released_at {
            Some(at) => at,
            None => row.released_at,
        },
        updated_at: now,
        ..row.duplicate()
    }
}

impl WorkspaceLeaseStore {
    /// Adds a lease, once the storage engine has spoken.
    pub fn create(&mut self, row: &AgentWorkspaceLeaseRow, verdict: &Verdict) -> (result: Result<
        (),
        DbError,
    >)
        ensures
            rows_changed(
                create_step(old(self)@, row@, verdict@),
                result,
                old(self)@,
                final(self)@,
            ),
    {
        match verdict {
            Verdict::Refused { code, message } => Err(lease_write_error(code, message.as_str())),
            Verdict::Accepted => {
                let ghost start = self.leases@;
                self.leases.push(row.duplicate());
                assert(model(self.leases@) =~= model(start).push(row@));
                Ok(())
            },
        }
    }

    /// A lease.
    pub fn get(&self, lease_id: &str) -> (row: Option<AgentWorkspaceLeaseRow>)
        ensures
            found(row) == lookup(self@, with_id(lease_id@)),
    {
        fetch_where(
            &self.leases,
            |row: &AgentWorkspaceLeaseRow| -> (yes: bool)
                ensures yes == with_id(lease_id@)(row@)
                { same(row.id.as_str(), lease_id) },
            Ghost(with_id(lease_id@)),
        )
    }

    /// The lease of a team's slot.
    pub fn get_for_team_slot(
        &self,
        team_id: &str,
        slot_id: &str,
    ) -> (row: Option<AgentWorkspaceLeaseRow>)
        ensures
            found(row) == lookup(self@, of_slot(team_id@, slot_id@)),
    {
        fetch_where(
            &self.leases,
            |row: &AgentWorkspaceLeaseRow| -> (yes: bool)
                ensures yes == of_slot(team_id@, slot_id@)(row@)
                { same(row.team_id.as_str(), team_id) && same(row.slot_id.as_str(), slot_id) },
            Ghost(of_slot(team_id@, slot_id@)),
        )
    }

    /// A team's leases.
    pub fn list_for_team(&self, team_id: &str) -> (list: Vec<AgentWorkspaceLeaseRow>)
        ensures
            model(list@) == ordered(selected(self@, of_team(team_id@)), by_slot()),
    {
        list_where(
            &self.leases,
            |row: &AgentWorkspaceLeaseRow| -> (yes: bool)
                ensures yes == of_team(team_id@)(row@)
                { same(row.team_id.as_str(), team_id) },
            |a: &AgentWorkspaceLeaseRow, b: &AgentWorkspaceLeaseRow| -> (yes: bool)
                ensures yes == by_slot()(a@, b@)
                {
                    before(a.slot_id.as_str(), b.slot_id.as_str())
                        || (
                            same(a.slot_id.as_str(), b.slot_id.as_str())
                                && (a.created_at < b.created_at)
                        )
                },
            Ghost(of_team(team_id@)),
            Ghost(by_slot()),
        )
    }

    /// The leases whose workspace may not be as their row says.
    pub fn list_reconcile_candidates(&self) -> (list: Vec<AgentWorkspaceLeaseRow>)
        ensures
            model(list@) == ordered(selected(self@, is_unsettled()), by_team()),
    {
        list_where(
            &self.leases,
            |row: &AgentWorkspaceLeaseRow| -> (yes: bool)
                ensures yes == is_unsettled()(row@)
                {
                    (
                        same(row.lease_status.as_str(), "provisioning")
                            || same(row.lease_status.as_str(), "active")
                            || same(row.lease_status.as_str(), "cleanup_pending")
                            || same(row.lease_status.as_str(), "conflict")
                    )
                },
            |a: &AgentWorkspaceLeaseRow, b: &AgentWorkspaceLeaseRow| -> (yes: bool)
                ensures yes == by_team()(a@, b@)
                {
                    before(a.team_id.as_str(), b.team_id.as_str())
                        || (
                            same(a.team_id.as_str(), b.team_id.as_str())
                                && (before(a.slot_id.as_str(), b.slot_id.as_str()))
                        )
                },
            Ghost(is_unsettled()),
            Ghost(by_team()),
        )
    }

    /// Changes a lease; what is not given stays.
    pub fn update(
        &mut self,
        lease_id: &str,
        update: &AgentWorkspaceLeaseUpdate,
        now: i64,
    ) -> (result:
        Result<(), DbError>)
        ensures
            rows_changed(
                update_step(old(self)@, lease_id@, *update, now),
                result,
                old(self)@,
                final(self)@,
            ),
    {
        let at = match find_where(
            &self.leases,
            |row: &AgentWorkspaceLeaseRow| -> (yes: bool)
                ensures yes == with_id(lease_id@)(row@)
                { same(row.id.as_str(), lease_id) },
            Ghost(with_id(lease_id@)),
        ) {
            Some(at) => at,
            None => {
                return Err(not_found("workspace lease ", lease_id, ""));
            },
        };
        let ghost change = merged(self@, lease_id@, *update, now);
        let known = next_lease(&self.leases[at], update, now);
        let _count: u64 = update_where(
            &mut self.leases,
            |row: &AgentWorkspaceLeaseRow| -> (yes: bool)
                ensures yes == with_id(lease_id@)(row@)
                { same(row.id.as_str(), lease_id) },
            |row: &AgentWorkspaceLeaseRow| -> (next: AgentWorkspaceLeaseRow)
                ensures next@ == change(row@)
                {
                    AgentWorkspaceLeaseRow {
                        lease_status: known.lease_status.clone(),
                        cleanup_status: known.cleanup_status.clone(),
                        conflict_files: known.conflict_files.clone(),
                        last_error: copy_opt(&known.last_error),
                        released_at: known.released_at,
                        updated_at: now,
                        ..row.duplicate()
                    }
                },
            Ghost(with_id(lease_id@)),
            Ghost(change),
        );
        Ok(())
    }
}

// ----------------------------------------------------------------------------
// What the leases promise
// ----------------------------------------------------------------------------

/// A changed lease is read with what the update gave, and with what it held
/// where the update gave nothing.
pub proof fn law_update_is_read(
    rows: Seq<Lease>,
    id: Seq<char>,
    update: AgentWorkspaceLeaseUpdate,
    now: i64,
)
    ensures
        match lookup(rows, with_id(id)) {
            Some(known) => update_step(rows, id, update, now) matches Ok(after) && lookup(
                after,
                with_id(id),
            ) == Some(lease_becomes(update, now)(known)),
            None => update_step(rows, id, update, now) is Err,
        },
{
    lemma_lookup(rows, with_id(id));
    lemma_lookup_updated(rows, with_id(id), merged(rows, id, update, now));
}

/// An update of one lease leaves every other as it was.
pub proof fn law_update_spares_others(
    rows: Seq<Lease>,
    id: Seq<char>,
    update: AgentWorkspaceLeaseUpdate,
    now: i64,
    i: int,
)
    requires
        0 <= i < rows.len(),
        rows[i].id != id,
    ensures
        update_step(rows, id, update, now) matches Ok(after) ==> after.len() == rows.len()
            && after[i] == rows[i],
{
}

/// An update of a lease changes what is given and keeps what is not, of the lease
/// of that id alone; whose it is, and where, never changes.
pub proof fn law_update_changes_what_is_given(
    rows: Seq<Lease>,
    id: Seq<char>,
    update: AgentWorkspaceLeaseUpdate,
    now: i64,
    i: int,
)
    requires
        0 <= i < rows.len(),
        rows[i].id == id,
        forall|a: int, b: int|
            0 <= a < rows.len() && 0 <= b < rows.len() && (#[trigger] rows[a]).id == (
            #[trigger] rows[b]).id ==> a == b,
    ensures
        update_step(rows, id, update, now) matches Ok(after) && ({
            let old = rows[i];
            let new = after[i];
            &&& after.len() == rows.len()
            &&& new.id == old.id
            &&& new.team_id == old.team_id
            &&& new.user_id == old.user_id
            &&& new.slot_id == old.slot_id
            &&& new.workspace_mode == old.workspace_mode
            &&& new.repository_path == old.repository_path
            &&& new.worktree_path == old.worktree_path
            &&& new.branch_name == old.branch_name
            &&& new.base_commit == old.base_commit
            &&& new.allowed_paths == old.allowed_paths
            &&& new.created_at == old.created_at
            &&& new.updated_at == now
            &&& update.lease_status is Some ==> new.lease_status == update.lease_status->0@
            &&& update.lease_status is None ==> new.lease_status == old.lease_status
            &&& update.cleanup_status is Some ==> new.cleanup_status == update.cleanup_status->0@
            &&& update.cleanup_status is None ==> new.cleanup_status == old.cleanup_status
            &&& update.conflict_files is Some ==> new.conflict_files == update.conflict_files->0@
            &&& update.conflict_files is None ==> new.conflict_files == old.conflict_files
            &&& update.last_error is Some ==> new.last_error == opt_text(update.last_error->0)
            &&& update.last_error is None ==> new.last_error == old.last_error
            &&& update.released_at is Some ==> new.released_at == update.released_at->0
            &&& update.released_at is None ==> new.released_at == old.released_at
        }),
{
    let hit = with_id(id);
    lemma_lookup(rows, hit);
    assert(hit(rows[i]));
    let known = lookup(rows, hit)->0;
    let k = choose|k: int| 0 <= k < rows.len() && rows[k] == known;
    assert(rows[k].id == id);
}

/// A lease is made as it is given, unless the storage refuses it.
pub proof fn law_lease_is_made(rows: Seq<Lease>, row: Lease, verdict: Verdict<Seq<char>>)
    ensures
        create_step(rows, row, verdict) is Ok <==> verdict is Accepted,
        create_step(rows, row, verdict) matches Ok(after) ==> after == rows.push(row),
{
}

/// A team's leases are listed by slot, exactly those of the team; the leases to
/// look after are exactly those that are not settled, by team.
pub proof fn law_leases_are_listed(rows: Seq<Lease>, team: Seq<char>)
    ensures
        ({
            let list = ordered(selected(rows, of_team(team)), by_slot());
            &&& forall|row: Lease| #[trigger]
                list.contains(row) <==> rows.contains(row) && row.team_id == team
            &&& forall|i: int, j: int|
                0 <= i < j < list.len() ==> !text_before(
                    (#[trigger] list[j]).slot_id,
                    (#[trigger] list[i]).slot_id,
                )
        }),
        ({
            let list = ordered(selected(rows, is_unsettled()), by_team());
            &&& forall|row: Lease| #[trigger]
                list.contains(row) <==> rows.contains(row) && (row.lease_status == "provisioning"@
                    || row.lease_status == "active"@ || row.lease_status == "cleanup_pending"@
                    || row.lease_status == "conflict"@)
            &&& forall|i: int, j: int|
                0 <= i < j < list.len() ==> !text_before(
                    (#[trigger] list[j]).team_id,
                    (#[trigger] list[i]).team_id,
                )
        }),
{
    let slot = by_slot();
    let team_first = by_team();
    lemma_lease_orders();
    law_full_listing(rows, of_team(team), slot);
    law_full_listing(rows, is_unsettled(), team_first);
    let own = ordered(selected(rows, of_team(team)), slot);
    let left = ordered(selected(rows, is_unsettled()), team_first);
    assert forall|i: int, j: int| 0 <= i < j < own.len() implies !text_before(
        (#[trigger] own[j]).slot_id,
        (#[trigger] own[i]).slot_id,
    ) by {
        assert(!slot(own[j], own[i]));
    }
    assert forall|i: int, j: int| 0 <= i < j < left.len() implies !text_before(
        (#[trigger] left[j]).team_id,
        (#[trigger] left[i]).team_id,
    ) by {
        assert(!team_first(left[j], left[i]));
    }
}

proof fn lemma_lease_orders()
    ensures
        orders(by_slot()),
        orders(by_team()),
{
    let slot = by_slot();
    let team_first = by_team();
    assert forall|a: Lease, b: Lease| #[trigger] slot(a, b) implies !slot(b, a) by {
        lemma_text_order(a.slot_id, b.slot_id);
    }
    assert forall|a: Lease, b: Lease, c: Lease| #[trigger] slot(a, c) && !slot(b, c)
        implies #[trigger] slot(a, b) by {
        lemma_text_order(a.slot_id, b.slot_id);
        lemma_text_order(a.slot_id, c.slot_id);
        lemma_text_order(b.slot_id, c.slot_id);
        if text_before(a.slot_id, c.slot_id) && text_before(c.slot_id, b.slot_id) {
            lemma_text_transitive(a.slot_id, c.slot_id, b.slot_id);
        }
    }
    assert forall|a: Lease, b: Lease| #[trigger] team_first(a, b) implies !team_first(
        b,
        a,
    ) by {
        lemma_text_order(a.slot_id, b.slot_id);
        lemma_text_order(a.team_id, b.team_id);
    }
    assert forall|a: Lease, b: Lease, c: Lease| #[trigger] team_first(a, c) && !team_first(b, c)
        implies #[trigger] team_first(a, b) by {
        lemma_text_order(a.slot_id, b.slot_id);
        lemma_text_order(a.slot_id, c.slot_id);
        lemma_text_order(b.slot_id, c.slot_id);
        lemma_text_order(a.team_id, b.team_id);
        lemma_text_order(a.team_id, c.team_id);
        lemma_text_order(b.team_id, c.team_id);
        if text_before(a.slot_id, c.slot_id) && text_before(c.slot_id, b.slot_id) {
            lemma_text_transitive(a.slot_id, c.slot_id, b.slot_id);
        }
        if text_before(a.team_id, c.team_id) && text_before(c.team_id, b.team_id) {
            lemma_text_transitive(a.team_id, c.team_id, b.team_id);
        }
    }
}

/// The lease of a team's slot is that slot's, and one that is there is found.
pub proof fn law_slot_finds_lease(rows: Seq<Lease>, team_id: Seq<char>, slot_id: Seq<char>)
    ensures
        lookup(rows, of_slot(team_id, slot_id)) matches Some(row) ==> rows.contains(row)
            && row.team_id == team_id && row.slot_id == slot_id,
        forall|i: int|
            0 <= i < rows.len() && (#[trigger] rows[i]).team_id == team_id && rows[i].slot_id
                == slot_id ==> lookup(rows, of_slot(team_id, slot_id)) is Some,
{
    let hit = of_slot(team_id, slot_id);
    lemma_lookup(rows, hit);
    assert forall|i: int|
        0 <= i < rows.len() && (#[trigger] rows[i]).team_id == team_id && rows[i].slot_id
            == slot_id implies lookup(rows, hit) is Some by {
        assert(hit(rows[i]));
    }
}

} // verus!

//! Holds on what runs use: who holds them, how they end, and who cleans up.
use crate::operations::recovery::{after_both, later_of};
use crate::operations::rows::{ExecutionResourceLeaseRow, ResourceLease};
use crate::operations::store::{OperationsModel, OperationsStore};
use crate::table::{
    fetch_where, found, law_put_is_found, list_where, lookup, model, ordered, put, put_row,
    selected, update_returning, update_where, updated, Record,
};
use crate::text::{before, copy_opt, is_some_text, opt_str, own_opt, same, text_before};
use vstd::prelude::*;

verus! {

/// The hold with an id.
pub open spec fn lease_with_id(id: Seq<char>) -> spec_fn(ResourceLease) -> bool {
    |row: ResourceLease| row.id == id
}

/// A hold written anew. What is held stays. The first decision on it stays, and
/// once there is one, so does its owner.
pub open spec fn lease_becomes(new: ResourceLease) -> spec_fn(ResourceLease) -> ResourceLease {
    |row: ResourceLease|
        ExecutionResourceLeaseRow {
            status: new.status,
            accepts_work: new.accepts_work,
            owner_instance_id: if row.recovery_decision is None {
                new.owner_instance_id
            } else {
                row.owner_instance_id
            },
            heartbeat_at: new.heartbeat_at,
            expires_at: new.expires_at,
            cleanup_status: new.cleanup_status,
            cleanup_result: new.cleanup_result,
            recovery_decision: if row.recovery_decision is Some {
                row.recovery_decision
            } else {
                new.recovery_decision
            },
            updated_at: new.updated_at,
            terminal_at: new.terminal_at,
            ..row
        }
}

/// How long a hold lasts without a sign of life, at least one.
pub open spec fn term(row: ResourceLease) -> int {
    if row.expires_at - row.heartbeat_at > 1 {
        row.expires_at - row.heartbeat_at
    } else {
        1
    }
}

/// Whether the times of a hold can be set anew.
pub open spec fn can_renew(row: ResourceLease, at: i64) -> bool {
    &&& row.updated_at < i64::MAX
    &&& i64::MIN <= row.expires_at - row.heartbeat_at <= i64::MAX
    &&& at + term(row) <= i64::MAX
}

/// Whether the times of each of some holds can be set anew.
pub open spec fn can_renew_all(
    rows: Seq<ResourceLease>,
    hit: spec_fn(ResourceLease) -> bool,
    at: i64,
) -> bool {
    forall|i: int| 0 <= i < rows.len() && hit(#[trigger] rows[i]) ==> can_renew(rows[i], at)
}

/// Whether each of some holds can change once more.
pub open spec fn can_change_all(
    rows: Seq<ResourceLease>,
    hit: spec_fn(ResourceLease) -> bool,
) -> bool {
    forall|i: int|
        0 <= i < rows.len() && hit(#[trigger] rows[i]) ==> rows[i].updated_at < i64::MAX
}

/// What a change of selected holds gives back: the first of them as it is then.
pub open spec fn changed_first(
    rows: Seq<ResourceLease>,
    hit: spec_fn(ResourceLease) -> bool,
    change: spec_fn(ResourceLease) -> ResourceLease,
) -> Option<ResourceLease> {
    match lookup(rows, hit) {
        Some(row) => Some(change(row)),
        None => None,
    }
}

/// A hold, as it was looked at, that can be cleaned up: it is active, orphaned,
/// or its last cleanup failed.
pub open spec fn can_clean(
    id: Seq<char>,
    owner: Seq<char>,
    status: Seq<char>,
    updated_at: i64,
) -> spec_fn(
    ResourceLease,
) -> bool {
    |row: ResourceLease|
        row.id == id && row.owner_instance_id == Some(owner) && row.status == status
            && row.updated_at == updated_at && (row.status == "active"@ || row.status
            == "orphaned"@ || row.status == "cleanup_failed"@) && (row.terminal_at is None
            || row.status == "cleanup_failed"@)
}

/// A hold that is being cleaned up.
pub open spec fn being_cleaned(
    cleaner: Seq<char>,
    at: i64,
) -> spec_fn(ResourceLease) -> ResourceLease {
    |row: ResourceLease|
        ExecutionResourceLeaseRow {
            owner_instance_id: Some(cleaner),
            status: "stopping"@,
            accepts_work: false,
            heartbeat_at: at,
            expires_at: (at + term(row)) as i64,
            cleanup_status: Some("stopping"@),
            cleanup_result: None,
            terminal_at: None,
            updated_at: after_both(at, row.updated_at),
            ..row
        }
}

/// A hold, as it was looked at, that its cleaner is about to end.
pub open spec fn is_being_cleaned(id: Seq<char>, cleaner: Seq<char>, updated_at: i64) -> spec_fn(
    ResourceLease,
) -> bool {
    |row: ResourceLease|
        row.id == id && row.owner_instance_id == Some(cleaner) && row.status == "stopping"@
            && row.updated_at == updated_at && row.terminal_at is None
}

/// A hold after its cleanup.
pub open spec fn cleaned(
    succeeded: bool,
    result: Seq<char>,
    at: i64,
) -> spec_fn(ResourceLease) -> ResourceLease {
    |row: ResourceLease|
        ExecutionResourceLeaseRow {
            status: if succeeded {
                "released"@
            } else {
                "cleanup_failed"@
            },
            accepts_work: false,
            cleanup_status: if succeeded {
                Some("released"@)
            } else {
                Some("failed"@)
            },
            cleanup_result: Some(result),
            updated_at: after_both(at, row.updated_at),
            terminal_at: Some(at),
            ..row
        }
}

/// An orphaned hold that can be taken over.
pub open spec fn can_take_over(id: Seq<char>) -> spec_fn(ResourceLease) -> bool {
    |row: ResourceLease|
        row.id == id && row.status == "orphaned"@ && row.terminal_at is None && (
        row.recovery_decision is None || row.recovery_decision == Some("takeover"@))
}

/// A hold that was taken over.
pub open spec fn taken_over(
    owner: Option<Seq<char>>,
    at: i64,
) -> spec_fn(ResourceLease) -> ResourceLease {
    |row: ResourceLease|
        ExecutionResourceLeaseRow {
            recovery_decision: Some("takeover"@),
            owner_instance_id: owner,
            status: "active"@,
            accepts_work: true,
            heartbeat_at: at,
            expires_at: (at + term(row)) as i64,
            cleanup_status: None,
            cleanup_result: None,
            terminal_at: None,
            updated_at: after_both(at, row.updated_at),
            ..row
        }
}

/// A hold that nothing was decided on.
pub open spec fn is_undecided(id: Seq<char>) -> spec_fn(ResourceLease) -> bool {
    |row: ResourceLease| row.id == id && row.recovery_decision is None
}

/// A hold that was decided on.
pub open spec fn decided(decision: Seq<char>, at: i64) -> spec_fn(ResourceLease) -> ResourceLease {
    |row: ResourceLease|
        ExecutionResourceLeaseRow {
            recovery_decision: Some(decision),
            updated_at: after_both(at, row.updated_at),
            ..row
        }
}

/// The holds that a decision is about.
pub open spec fn open_to(id: Seq<char>, decision: Seq<char>) -> spec_fn(ResourceLease) -> bool {
    if decision == "takeover"@ {
        can_take_over(id)
    } else {
        is_undecided(id)
    }
}

/// A hold after a decision.
pub open spec fn after_decision(decision: Seq<char>, owner: Option<Seq<char>>, at: i64) -> spec_fn(
    ResourceLease,
) -> ResourceLease {
    if decision == "takeover"@ {
        taken_over(owner, at)
    } else {
        decided(decision, at)
    }
}

/// A hold, as it was looked at, that its owner works with.
pub open spec fn is_working(
    id: Seq<char>,
    owner: Seq<char>,
    updated_at: i64,
) -> spec_fn(ResourceLease) -> bool {
    |row: ResourceLease|
        row.id == id && row.owner_instance_id == Some(owner) && row.updated_at == updated_at
            && row.status == "active"@ && row.accepts_work && row.terminal_at is None
}

/// A hold after a sign of life.
pub open spec fn alive(
    heartbeat_at: i64,
    expires_at: i64,
) -> spec_fn(ResourceLease) -> ResourceLease {
    |row: ResourceLease|
        ExecutionResourceLeaseRow {
            heartbeat_at,
            expires_at,
            updated_at: after_both(heartbeat_at, row.updated_at),
            ..row
        }
}

/// A hold, as it was looked at, whose owner gave no sign of life.
pub open spec fn can_orphan(
    id: Seq<char>,
    owner: Seq<char>,
    expires_at: i64,
) -> spec_fn(ResourceLease) -> bool {
    |row: ResourceLease|
        row.id == id && row.owner_instance_id == Some(owner) && row.expires_at == expires_at && (
        row.status == "active"@ || row.status == "stopping"@) && row.terminal_at is None
}

/// An orphaned hold. Nothing is decided on it.
pub open spec fn orphaned(at: i64) -> spec_fn(ResourceLease) -> ResourceLease {
    |row: ResourceLease|
        ExecutionResourceLeaseRow {
            status: "orphaned"@,
            accepts_work: false,
            recovery_decision: None,
            updated_at: after_both(at, row.updated_at),
            ..row
        }
}

/// The holds of a user's run, without those that were released where only the
/// others are wanted.
pub open spec fn leases_of(user_id: Seq<char>, run_id: Seq<char>, active_only: bool) -> spec_fn(
    ResourceLease,
) -> bool {
    |row: ResourceLease|
        row.user_id == user_id && row.run_id == run_id && (active_only ==> row.status == "active"@
            || row.status == "stopping"@ || row.status == "orphaned"@ || row.status
            == "cleanup_failed"@)
}

/// The order in which holds are cleaned up.
pub open spec fn cleanup_sequence() -> spec_fn(ResourceLease, ResourceLease) -> bool {
    |a: ResourceLease, b: ResourceLease|
        a.cleanup_order < b.cleanup_order
            || (
                a.cleanup_order == b.cleanup_order
                    && (
                        a.created_at < b.created_at
                            || (a.created_at == b.created_at && (text_before(a.id, b.id)))
                    )
            )
}

/// The holds whose owners gave no sign of life by a time.
pub open spec fn is_stale(now: i64) -> spec_fn(ResourceLease) -> bool {
    |row: ResourceLease|
        (row.status == "active"@ || row.status == "stopping"@) && row.expires_at <= now
}

/// The order of stale holds: those that expired first.
pub open spec fn stale_first() -> spec_fn(ResourceLease, ResourceLease) -> bool {
    |a: ResourceLease, b: ResourceLease|
        a.expires_at < b.expires_at || (a.expires_at == b.expires_at && (text_before(a.id, b.id)))
}

fn next_expiry(row: &ExecutionResourceLeaseRow, at: i64) -> (expires_at: i64)
    requires
        can_renew(row@, at),
    ensures
        expires_at == at + term(row@),
{
    let left: i64 = row.expires_at - row.heartbeat_at;
    if left > 1 {
        at + left
    } else {
        at + 1
    }
}

impl OperationsStore {
    /// Writes a hold.
    pub fn upsert_resource_lease(&mut self, row: &ExecutionResourceLeaseRow)
        ensures
            final(self)@ == (OperationsModel {
                leases: put(old(self)@.leases, lease_with_id(row@.id), lease_becomes(row@), row@),
                ..old(self)@
            }),
    {
        put_row(
            &mut self.leases,
            |known: &ExecutionResourceLeaseRow| -> (yes: bool)
                ensures yes == lease_with_id(row@.id)(known@)
                { same(known.id.as_str(), row.id.as_str()) },
            |known: &ExecutionResourceLeaseRow| -> (next: ExecutionResourceLeaseRow)
                ensures next@ == lease_becomes(row@)(known@)
                {
                    ExecutionResourceLeaseRow {
                        status: row.status.clone(),
                        accepts_work: row.accepts_work,
                        owner_instance_id: if known.recovery_decision.is_none() {
                            copy_opt(&row.owner_instance_id)
                        } else {
                            copy_opt(&known.owner_instance_id)
                        },
                        heartbeat_at: row.heartbeat_at,
                        expires_at: row.expires_at,
                        cleanup_status: copy_opt(&row.cleanup_status),
                        cleanup_result: copy_opt(&row.cleanup_result),
                        recovery_decision: if known.recovery_decision.is_some() {
                            copy_opt(&known.recovery_decision)
                        } else {
                            copy_opt(&row.recovery_decision)
                        },
                        updated_at: row.updated_at,
                        terminal_at: row.terminal_at,
                        ..known.duplicate()
                    }
                },
            row.duplicate(),
            Ghost(lease_with_id(row@.id)),
            Ghost(lease_becomes(row@)),
        )
    }

    /// Takes a hold over to clean it up, unless it has moved; gives it back as it is then.
    pub fn claim_resource_cleanup(
        &mut self,
        lease_id: &str,
        expected_owner_instance_id: &str,
        expected_status: &str,
        expected_updated_at: i64,
        cleanup_owner_instance_id: &str,
        claimed_at: i64,
    ) -> (row: Option<ExecutionResourceLeaseRow>)
        requires
            can_renew_all(
                old(self)@.leases,
                can_clean(
                    lease_id@,
                    expected_owner_instance_id@,
                    expected_status@,
                    expected_updated_at,
                ),
                claimed_at,
            ),
        ensures
            final(self)@ == (OperationsModel {
                leases: updated(
                    old(self)@.leases,
                    can_clean(
                        lease_id@,
                        expected_owner_instance_id@,
                        expected_status@,
                        expected_updated_at,
                    ),
                    being_cleaned(cleanup_owner_instance_id@, claimed_at),
                ),
                ..old(self)@
            }),
            found(row) == changed_first(
                old(self)@.leases,
                can_clean(
                    lease_id@,
                    expected_owner_instance_id@,
                    expected_status@,
                    expected_updated_at,
                ),
                being_cleaned(cleanup_owner_instance_id@, claimed_at),
            ),
    {
        let ghost hit = can_clean(
            lease_id@,
            expected_owner_instance_id@,
            expected_status@,
            expected_updated_at,
        );
        let ghost change = being_cleaned(cleanup_owner_instance_id@, claimed_at);
        assert forall|i: int|
            0 <= i < self.leases.len() && hit((#[trigger] self.leases[i])@)
                implies can_renew(self.leases[i]@, claimed_at) by {
            assert(old(self)@.leases[i] == self.leases[i]@);
        }
        update_returning(
            &mut self.leases,
            |row: &ExecutionResourceLeaseRow| -> (yes: bool)
                ensures yes == hit(row@)
                {
                    same(row.id.as_str(), lease_id)
                        && is_some_text(&row.owner_instance_id, expected_owner_instance_id)
                        && same(row.status.as_str(), expected_status)
                        && row.updated_at == expected_updated_at
                        && (
                            same(row.status.as_str(), "active")
                                || same(row.status.as_str(), "orphaned")
                                || same(row.status.as_str(), "cleanup_failed")
                        )
                        && (
                            row.terminal_at.is_none() || same(row.status.as_str(), "cleanup_failed")
                        )
                },
            |row: &ExecutionResourceLeaseRow| -> (next: ExecutionResourceLeaseRow)
                requires can_renew(row@, claimed_at)
                ensures next@ == change(row@)
                {
                    ExecutionResourceLeaseRow {
                        owner_instance_id: Some(cleanup_owner_instance_id.to_owned()),
                        status: "stopping".to_owned(),
                        accepts_work: false,
                        heartbeat_at: claimed_at,
                        expires_at: next_expiry(row, claimed_at),
                        cleanup_status: Some("stopping".to_owned()),
                        cleanup_result: None,
                        terminal_at: None,
                        updated_at: later_of(claimed_at, row.updated_at),
                        ..row.duplicate()
                    }
                },
            Ghost(hit),
            Ghost(change),
        )
    }

    /// Ends the cleanup of a hold, unless it has moved; says whether it was ended.
    pub fn finish_resource_cleanup(
        &mut self,
        lease_id: &str,
        cleanup_owner_instance_id: &str,
        expected_updated_at: i64,
        succeeded: bool,
        cleanup_result: &str,
        completed_at: i64,
    ) -> (done: bool)
        requires
            can_change_all(
                old(self)@.leases,
                is_being_cleaned(lease_id@, cleanup_owner_instance_id@, expected_updated_at),
            ),
        ensures
            final(self)@ == (OperationsModel {
                leases: updated(
                    old(self)@.leases,
                    is_being_cleaned(lease_id@, cleanup_owner_instance_id@, expected_updated_at),
                    cleaned(succeeded, cleanup_result@, completed_at),
                ),
                ..old(self)@
            }),
            done == (
                selected(
                    old(self)@.leases,
                    is_being_cleaned(lease_id@, cleanup_owner_instance_id@, expected_updated_at),
                ).len() == 1
            ),
    {
        let ghost hit = is_being_cleaned(
            lease_id@,
            cleanup_owner_instance_id@,
            expected_updated_at,
        );
        let ghost change = cleaned(succeeded, cleanup_result@, completed_at);
        assert forall|i: int|
            0 <= i < self.leases.len() && hit((#[trigger] self.leases[i])@)
                implies self.leases[i].updated_at < i64::MAX by {
            assert(old(self)@.leases[i] == self.leases[i]@);
        }
        let count: u64 = update_where(
            &mut self.leases,
            |row: &ExecutionResourceLeaseRow| -> (yes: bool)
                ensures yes == hit(row@)
                {
                    same(row.id.as_str(), lease_id)
                        && is_some_text(&row.owner_instance_id, cleanup_owner_instance_id)
                        && same(row.status.as_str(), "stopping")
                        && row.updated_at == expected_updated_at && row.terminal_at.is_none()
                },
            |row: &ExecutionResourceLeaseRow| -> (next: ExecutionResourceLeaseRow)
                requires row.updated_at < i64::MAX
                ensures next@ == change(row@)
                {
                    ExecutionResourceLeaseRow {
                        status: if succeeded {
                            "released".to_owned()
                        } else {
                            "cleanup_failed".to_owned()
                        },
                        accepts_work: false,
                        cleanup_status: if succeeded {
                            Some("released".to_owned())
                        } else {
                            Some("failed".to_owned())
                        },
                        cleanup_result: Some(cleanup_result.to_owned()),
                        updated_at: later_of(completed_at, row.updated_at),
                        terminal_at: Some(completed_at),
                        ..row.duplicate()
                    }
                },
            Ghost(hit),
            Ghost(change),
        );
        count == 1
    }

    /// Takes an orphaned hold over to go on with it; gives it back as it is then.
    fn take_over_resource(
        &mut self,
        lease_id: &str,
        owner: Option<&str>,
        at: i64,
    ) -> (row: Option<ExecutionResourceLeaseRow>)
        requires
            can_renew_all(old(self)@.leases, can_take_over(lease_id@), at),
        ensures
            final(self)@ == (OperationsModel {
                leases: updated(
                    old(self)@.leases,
                    can_take_over(lease_id@),
                    taken_over(opt_str(owner), at),
                ),
                ..old(self)@
            }),
            found(row) == changed_first(
                old(self)@.leases,
                can_take_over(lease_id@),
                taken_over(opt_str(owner), at),
            ),
    {
        let ghost hit = can_take_over(lease_id@);
        let ghost change = taken_over(opt_str(owner), at);
        assert forall|i: int|
            0 <= i < self.leases.len() && hit((#[trigger] self.leases[i])@)
                implies can_renew(self.leases[i]@, at) by {
            assert(old(self)@.leases[i] == self.leases[i]@);
        }
        update_returning(
            &mut self.leases,
            |row: &ExecutionResourceLeaseRow| -> (yes: bool)
                ensures yes == hit(row@)
                {
                    same(row.id.as_str(), lease_id) && same(row.status.as_str(), "orphaned")
                        && row.terminal_at.is_none()
                        && (
                            row.recovery_decision.is_none()
                                || is_some_text(&row.recovery_decision, "takeover")
                        )
                },
            |row: &ExecutionResourceLeaseRow| -> (next: ExecutionResourceLeaseRow)
                requires can_renew(row@, at)
                ensures next@ == change(row@)
                {
                    ExecutionResourceLeaseRow {
                        recovery_decision: Some("takeover".to_owned()),
                        owner_instance_id: own_opt(owner),
                        status: "active".to_owned(),
                        accepts_work: true,
                        heartbeat_at: at,
                        expires_at: next_expiry(row, at),
                        cleanup_status: None,
                        cleanup_result: None,
                        terminal_at: None,
                        updated_at: later_of(at, row.updated_at),
                        ..row.duplicate()
                    }
                },
            Ghost(hit),
            Ghost(change),
        )
    }

    /// Decides on a hold that nothing was decided on; gives it back as it is then.
    fn decide_resource(
        &mut self,
        lease_id: &str,
        decision: &str,
        at: i64,
    ) -> (row: Option<ExecutionResourceLeaseRow>)
        requires
            can_change_all(old(self)@.leases, is_undecided(lease_id@)),
        ensures
            final(self)@ == (OperationsModel {
                leases: updated(
                    old(self)@.leases,
                    is_undecided(lease_id@),
                    decided(decision@, at),
                ),
                ..old(self)@
            }),
            found(row) == changed_first(
                old(self)@.leases,
                is_undecided(lease_id@),
                decided(decision@, at),
            ),
    {
        let ghost hit = is_undecided(lease_id@);
        let ghost change = decided(decision@, at);
        assert forall|i: int|
            0 <= i < self.leases.len() && hit((#[trigger] self.leases[i])@)
                implies self.leases[i].updated_at < i64::MAX by {
            assert(old(self)@.leases[i] == self.leases[i]@);
        }
        update_returning(
            &mut self.leases,
            |row: &ExecutionResourceLeaseRow| -> (yes: bool)
                ensures yes == hit(row@)
                {
                    same(row.id.as_str(), lease_id) && row.recovery_decision.is_none()
                },
            |row: &ExecutionResourceLeaseRow| -> (next: ExecutionResourceLeaseRow)
                requires row.updated_at < i64::MAX
                ensures next@ == change(row@)
                {
                    ExecutionResourceLeaseRow {
                        recovery_decision: Some(decision.to_owned()),
                        updated_at: later_of(at, row.updated_at),
                        ..row.duplicate()
                    }
                },
            Ghost(hit),
            Ghost(change),
        )
    }

    /// Decides what becomes of a hold, where that is open; gives it back as it is
    /// then. To take it over also makes it work again, under another owner.
    pub fn claim_resource_recovery_decision(
        &mut self,
        lease_id: &str,
        decision: &str,
        takeover_owner_instance_id: Option<&str>,
        updated_at: i64,
    ) -> (row: Option<ExecutionResourceLeaseRow>)
        requires
            if decision@ == "takeover"@ {
                can_renew_all(old(self)@.leases, can_take_over(lease_id@), updated_at)
            } else {
                can_change_all(old(self)@.leases, is_undecided(lease_id@))
            },
        ensures
            final(self)@ == (OperationsModel {
                leases: updated(
                    old(self)@.leases,
                    open_to(lease_id@, decision@),
                    after_decision(decision@, opt_str(takeover_owner_instance_id), updated_at),
                ),
                ..old(self)@
            }),
            found(row) == changed_first(
                old(self)@.leases,
                open_to(lease_id@, decision@),
                after_decision(decision@, opt_str(takeover_owner_instance_id), updated_at),
            ),
    {
        if same(decision, "takeover") {
            self.take_over_resource(lease_id, takeover_owner_instance_id, updated_at)
        } else {
            self.decide_resource(lease_id, decision, updated_at)
        }
    }

    /// Gives a sign of life for a hold, unless it has moved; gives it back as it is then.
    pub fn heartbeat_resource_lease(
        &mut self,
        lease_id: &str,
        owner_instance_id: &str,
        expected_updated_at: i64,
        heartbeat_at: i64,
        expires_at: i64,
    ) -> (row: Option<ExecutionResourceLeaseRow>)
        requires
            can_change_all(
                old(self)@.leases,
                is_working(lease_id@, owner_instance_id@, expected_updated_at),
            ),
        ensures
            final(self)@ == (OperationsModel {
                leases: updated(
                    old(self)@.leases,
                    is_working(lease_id@, owner_instance_id@, expected_updated_at),
                    alive(heartbeat_at, expires_at),
                ),
                ..old(self)@
            }),
            found(row) == changed_first(
                old(self)@.leases,
                is_working(lease_id@, owner_instance_id@, expected_updated_at),
                alive(heartbeat_at, expires_at),
            ),
    {
        let ghost hit = is_working(lease_id@, owner_instance_id@, expected_updated_at);
        let ghost change = alive(heartbeat_at, expires_at);
        assert forall|i: int|
            0 <= i < self.leases.len() && hit((#[trigger] self.leases[i])@)
                implies self.leases[i].updated_at < i64::MAX by {
            assert(old(self)@.leases[i] == self.leases[i]@);
        }
        update_returning(
            &mut self.leases,
            |row: &ExecutionResourceLeaseRow| -> (yes: bool)
                ensures yes == hit(row@)
                {
                    same(row.id.as_str(), lease_id)
                        && is_some_text(&row.owner_instance_id, owner_instance_id)
                        && row.updated_at == expected_updated_at
                        && same(row.status.as_str(), "active") && row.accepts_work
                        && row.terminal_at.is_none()
                },
            |row: &ExecutionResourceLeaseRow| -> (next: ExecutionResourceLeaseRow)
                requires row.updated_at < i64::MAX
                ensures next@ == change(row@)
                {
                    ExecutionResourceLeaseRow {
                        heartbeat_at: heartbeat_at,
                        expires_at: expires_at,
                        updated_at: later_of(heartbeat_at, row.updated_at),
                        ..row.duplicate()
                    }
                },
            Ghost(hit),
            Ghost(change),
        )
    }

    /// Releases a hold that its owner is done with, unless it has moved; says
    /// whether it was released.
    pub fn complete_resource_lease(
        &mut self,
        lease_id: &str,
        owner_instance_id: &str,
        expected_updated_at: i64,
        cleanup_result: &str,
        completed_at: i64,
    ) -> (done: bool)
        requires
            can_change_all(
                old(self)@.leases,
                is_working(lease_id@, owner_instance_id@, expected_updated_at),
            ),
        ensures
            final(self)@ == (OperationsModel {
                leases: updated(
                    old(self)@.leases,
                    is_working(lease_id@, owner_instance_id@, expected_updated_at),
                    cleaned(true, cleanup_result@, completed_at),
                ),
                ..old(self)@
            }),
            done == (
                selected(
                    old(self)@.leases,
                    is_working(lease_id@, owner_instance_id@, expected_updated_at),
                ).len() == 1
            ),
    {
        let ghost hit = is_working(lease_id@, owner_instance_id@, expected_updated_at);
        let ghost change = cleaned(true, cleanup_result@, completed_at);
        assert forall|i: int|
            0 <= i < self.leases.len() && hit((#[trigger] self.leases[i])@)
                implies self.leases[i].updated_at < i64::MAX by {
            assert(old(self)@.leases[i] == self.leases[i]@);
        }
        let count: u64 = update_where(
            &mut self.leases,
            |row: &ExecutionResourceLeaseRow| -> (yes: bool)
                ensures yes == hit(row@)
                {
                    same(row.id.as_str(), lease_id)
                        && is_some_text(&row.owner_instance_id, owner_instance_id)
                        && row.updated_at == expected_updated_at
                        && same(row.status.as_str(), "active") && row.accepts_work
                        && row.terminal_at.is_none()
                },
            |row: &ExecutionResourceLeaseRow| -> (next: ExecutionResourceLeaseRow)
                requires row.updated_at < i64::MAX
                ensures next@ == change(row@)
                {
                    ExecutionResourceLeaseRow {
                        accepts_work: false,
                        status: "released".to_owned(),
                        cleanup_status: Some("released".to_owned()),
                        cleanup_result: Some(cleanup_result.to_owned()),
                        updated_at: later_of(completed_at, row.updated_at),
                        terminal_at: Some(completed_at),
                        ..row.duplicate()
                    }
                },
            Ghost(hit),
            Ghost(change),
        );
        count == 1
    }

    /// Gives a hold up whose owner gave no sign of life, unless it was renewed;
    /// gives it back as it is then.
    pub fn orphan_resource_lease(
        &mut self,
        lease_id: &str,
        owner_instance_id: &str,
        expected_expires_at: i64,
        orphaned_at: i64,
    ) -> (row: Option<ExecutionResourceLeaseRow>)
        requires
            can_change_all(
                old(self)@.leases,
                can_orphan(lease_id@, owner_instance_id@, expected_expires_at),
            ),
        ensures
            final(self)@ == (OperationsModel {
                leases: updated(
                    old(self)@.leases,
                    can_orphan(lease_id@, owner_instance_id@, expected_expires_at),
                    orphaned(orphaned_at),
                ),
                ..old(self)@
            }),
            found(row) == changed_first(
                old(self)@.leases,
                can_orphan(lease_id@, owner_instance_id@, expected_expires_at),
                orphaned(orphaned_at),
            ),
    {
        let ghost hit = can_orphan(lease_id@, owner_instance_id@, expected_expires_at);
        let ghost change = orphaned(orphaned_at);
        assert forall|i: int|
            0 <= i < self.leases.len() && hit((#[trigger] self.leases[i])@)
                implies self.leases[i].updated_at < i64::MAX by {
            assert(old(self)@.leases[i] == self.leases[i]@);
        }
        update_returning(
            &mut self.leases,
            |row: &ExecutionResourceLeaseRow| -> (yes: bool)
                ensures yes == hit(row@)
                {
                    same(row.id.as_str(), lease_id)
                        && is_some_text(&row.owner_instance_id, owner_instance_id)
                        && row.expires_at == expected_expires_at
                        && (
                            same(row.status.as_str(), "active")
                                || same(row.status.as_str(), "stopping")
                        )
                        && row.terminal_at.is_none()
                },
            |row: &ExecutionResourceLeaseRow| -> (next: ExecutionResourceLeaseRow)
                requires row.updated_at < i64::MAX
                ensures next@ == change(row@)
                {
                    ExecutionResourceLeaseRow {
                        status: "orphaned".to_owned(),
                        accepts_work: false,
                        recovery_decision: None,
                        updated_at: later_of(orphaned_at, row.updated_at),
                        ..row.duplicate()
                    }
                },
            Ghost(hit),
            Ghost(change),
        )
    }

    /// A hold.
    pub fn get_resource_lease(&self, lease_id: &str) -> (row: Option<ExecutionResourceLeaseRow>)
        ensures
            found(row) == lookup(self@.leases, lease_with_id(lease_id@)),
    {
        fetch_where(
            &self.leases,
            |row: &ExecutionResourceLeaseRow| -> (yes: bool)
                ensures yes == lease_with_id(lease_id@)(row@)
                { same(row.id.as_str(), lease_id) },
            Ghost(lease_with_id(lease_id@)),
        )
    }

    /// The holds of a user's run.
    pub fn list_resource_leases(
        &self,
        user_id: &str,
        run_id: &str,
        active_only: bool,
    ) -> (list: Vec<
        ExecutionResourceLeaseRow,
    >)
        ensures
            model(list@) == ordered(
                selected(self@.leases, leases_of(user_id@, run_id@, active_only)),
                cleanup_sequence(),
            ),
    {
        let ghost hit = leases_of(user_id@, run_id@, active_only);
        list_where(
            &self.leases,
            |row: &ExecutionResourceLeaseRow| -> (yes: bool)
                ensures yes == hit(row@)
                {
                    same(row.user_id.as_str(), user_id) && same(row.run_id.as_str(), run_id)
                        && (
                            !active_only
                                || (
                                    same(row.status.as_str(), "active")
                                        || same(row.status.as_str(), "stopping")
                                        || same(row.status.as_str(), "orphaned")
                                        || same(row.status.as_str(), "cleanup_failed")
                                )
                        )
                },
            |a: &ExecutionResourceLeaseRow, b: &ExecutionResourceLeaseRow| -> (yes: bool)
                ensures yes == cleanup_sequence()(a@, b@)
                {
                    a.cleanup_order < b.cleanup_order
                        || (
                            a.cleanup_order == b.cleanup_order
                                && (
                                    a.created_at < b.created_at
                                        || (
                                            a.created_at == b.created_at
                                                && (before(a.id.as_str(), b.id.as_str()))
                                        )
                                )
                        )
                },
            Ghost(hit),
            Ghost(cleanup_sequence()),
        )
    }

    /// The holds whose owners gave no sign of life by a time.
    pub fn list_stale_resource_leases(&self, now: i64) -> (list: Vec<ExecutionResourceLeaseRow>)
        ensures
            model(list@) == ordered(selected(self@.leases, is_stale(now)), stale_first()),
    {
        list_where(
            &self.leases,
            |row: &ExecutionResourceLeaseRow| -> (yes: bool)
                ensures yes == is_stale(now)(row@)
                {
                    (same(row.status.as_str(), "active") || same(row.status.as_str(), "stopping"))
                        && row.expires_at <= now
                },
            |a: &ExecutionResourceLeaseRow, b: &ExecutionResourceLeaseRow| -> (yes: bool)
                ensures yes == stale_first()(a@, b@)
                {
                    a.expires_at < b.expires_at
                        || (a.expires_at == b.expires_at && (before(a.id.as_str(), b.id.as_str())))
                },
            Ghost(is_stale(now)),
            Ghost(stale_first()),
        )
    }
}

// ----------------------------------------------------------------------------
// What the holds promise
// ----------------------------------------------------------------------------

/// Whether a hold is over for good: it was released.
pub open spec fn is_over(row: ResourceLease) -> bool {
    row.status == "released"@ && row.terminal_at is Some
}

proof fn lemma_statuses_differ()
    ensures
        "released"@ != "active"@,
        "released"@ != "orphaned"@,
        "released"@ != "cleanup_failed"@,
        "released"@ != "stopping"@,
        "stopping"@ != "active"@,
        "stopping"@ != "orphaned"@,
        "stopping"@ != "cleanup_failed"@,
        "active"@ != "orphaned"@,
        "active"@ != "cleanup_failed"@,
        "orphaned"@ != "cleanup_failed"@,
{
    reveal_strlit("released");
    reveal_strlit("active");
    reveal_strlit("orphaned");
    reveal_strlit("cleanup_failed");
    reveal_strlit("stopping");
    assert("released"@.len() == 8 && "active"@.len() == 6 && "orphaned"@.len() == 8
        && "cleanup_failed"@.len() == 14 && "stopping"@.len() == 8);
    assert("released"@[0] == 'r' && "orphaned"@[0] == 'o' && "stopping"@[0] == 's');
}

/// A hold that is over takes part in nothing any more: no sign of life, no
/// completion, no cleanup, no takeover, and it is not orphaned.
pub proof fn law_over_is_final(
    row: ResourceLease,
    id: Seq<char>,
    owner: Seq<char>,
    status: Seq<char>,
    at: i64,
)
    requires
        is_over(row),
    ensures
        !is_working(id, owner, at)(row),
        !can_clean(id, owner, status, at)(row),
        !is_being_cleaned(id, owner, at)(row),
        !can_orphan(id, owner, at)(row),
        !can_take_over(id)(row),
{
    lemma_statuses_differ();
}

/// Whoever claims the cleanup of a hold is alone: nobody who saw the hold as it
/// was before claims it too, works with it or completes it.
pub proof fn law_cleanup_is_claimed_once(
    row: ResourceLease,
    id: Seq<char>,
    owner: Seq<char>,
    status: Seq<char>,
    cleaner: Seq<char>,
    at: i64,
    other: Seq<char>,
    seen: i64,
)
    requires
        can_clean(id, owner, status, row.updated_at)(row),
    ensures
        !can_clean(id, other, status, seen)(being_cleaned(cleaner, at)(row)),
        !is_working(id, other, seen)(being_cleaned(cleaner, at)(row)),
        other != cleaner ==> !is_being_cleaned(id, other, seen)(being_cleaned(cleaner, at)(row)),
        is_being_cleaned(id, cleaner, after_both(at, row.updated_at))(
            being_cleaned(cleaner, at)(row),
        ),
{
    lemma_statuses_differ();
}

/// Every step of a hold moves the time of its last change on, so that whoever
/// saw an earlier state is turned away.
pub proof fn law_steps_move_on(
    row: ResourceLease,
    text: Seq<char>,
    flag: bool,
    owner: Option<Seq<char>>,
    at: i64,
    until: i64,
)
    requires
        row.updated_at < i64::MAX,
    ensures
        being_cleaned(text, at)(row).updated_at > row.updated_at,
        cleaned(flag, text, at)(row).updated_at > row.updated_at,
        taken_over(owner, at)(row).updated_at > row.updated_at,
        decided(text, at)(row).updated_at > row.updated_at,
        alive(at, until)(row).updated_at > row.updated_at,
        orphaned(at)(row).updated_at > row.updated_at,
{
}

/// A hold accepts work only while it is active: every step that ends its work
/// says so, and only a takeover makes it accept work again.
pub proof fn law_only_active_accepts_work(
    row: ResourceLease,
    text: Seq<char>,
    flag: bool,
    owner: Option<Seq<char>>,
    at: i64,
    until: i64,
)
    requires
        row.accepts_work ==> row.status == "active"@,
    ensures
        !being_cleaned(text, at)(row).accepts_work,
        !cleaned(flag, text, at)(row).accepts_work,
        !orphaned(at)(row).accepts_work,
        taken_over(owner, at)(row).accepts_work && taken_over(owner, at)(row).status == "active"@,
        alive(at, until)(row).accepts_work == row.accepts_work,
        decided(text, at)(row).accepts_work == row.accepts_work,
{
}

/// The first decision on a hold stands: writing the hold anew keeps it and the
/// owner, and no other decision than a takeover is made over it.
pub proof fn law_first_decision_stands(
    rows: Seq<ResourceLease>,
    new: ResourceLease,
    known: ResourceLease,
    other: Seq<char>,
)
    requires
        lookup(rows, lease_with_id(new.id)) == Some(known),
        known.recovery_decision is Some,
        other != "takeover"@,
    ensures
        ({
            let after = put(rows, lease_with_id(new.id), lease_becomes(new), new);
            &&& lookup(after, lease_with_id(new.id)) matches Some(row)
            &&& row.recovery_decision == known.recovery_decision
            &&& row.owner_instance_id == known.owner_instance_id
        }),
        !open_to(known.id, other)(known),
{
    law_put_is_found(rows, lease_with_id(new.id), lease_becomes(new), new);
}

/// A hold that was taken over cannot be taken over again until it is orphaned
/// anew.
pub proof fn law_taken_over_once(
    row: ResourceLease,
    id: Seq<char>,
    owner: Option<Seq<char>>,
    at: i64,
)
    ensures
        !can_take_over(id)(taken_over(owner, at)(row)),
{
    lemma_statuses_differ();
}

} // verus!

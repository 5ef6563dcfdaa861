//! Runs that had stopped, and who decides what becomes of them.
use crate::development::rows::{DevelopmentRunRow, Run};
use crate::error::DbError;
use crate::operations::rows::{DevelopmentRecoveryRecordRow, Recovery};
use crate::operations::store::{clamp_limit, clamped, OperationsModel, OperationsStore, MAX_LISTED};
use crate::table::{
    copy_rows, find_where, law_put_is_found, law_selected, lemma_lookup, limited, list_where,
    lookup, model, ordered, select_where, selected, take_limited, update_where, updated, Record,
};
use crate::text::{before, is_some_text, opt_str, same, text_before};
use crate::write::{rows_changed, write_row, written};
use vstd::prelude::*;

verus! {

/// The record with an id.
pub open spec fn recovery_with_id(id: Seq<char>) -> spec_fn(Recovery) -> bool {
    |row: Recovery| row.id == id
}

/// A user's record by its key.
pub open spec fn recovery_by_key(
    user_id: Seq<char>,
    recovery_key: Seq<char>,
) -> spec_fn(Recovery) -> bool {
    |row: Recovery| row.user_id == user_id && row.recovery_key == recovery_key
}

/// A record written anew. What it is about and its age stay.
pub open spec fn recovery_becomes(new: Recovery) -> spec_fn(Recovery) -> Recovery {
    |row: Recovery|
        DevelopmentRecoveryRecordRow {
            finding: new.finding,
            decision: new.decision,
            status_before: new.status_before,
            status_after: new.status_after,
            details_json: new.details_json,
            ..row
        }
}

/// A user's records on a project, of one run where it is given.
pub open spec fn recoveries_of(
    user_id: Seq<char>,
    project_id: Seq<char>,
    run_id: Option<Seq<char>>,
) -> spec_fn(Recovery) -> bool {
    |row: Recovery|
        row.user_id == user_id && row.project_id == project_id
            && (run_id matches Some(wanted) ==> row.run_id == Some(wanted))
}

/// The order of records: the latest first.
pub open spec fn latest_recovery() -> spec_fn(Recovery, Recovery) -> bool {
    |a: Recovery, b: Recovery|
        b.created_at < a.created_at || (a.created_at == b.created_at && (text_before(b.id, a.id)))
}

/// The runs that should be at work and have not moved since a time.
pub open spec fn stopped_run(updated_before: i64) -> spec_fn(Run) -> bool {
    |row: Run|
        (
            row.status == "running"@ || row.status == "verifying"@ || row.status == "reviewing"@
                || row.status == "integrating"@
        )
            && row.updated_at <= updated_before
}

/// The order of stopped runs: those that stopped first.
pub open spec fn stale_first() -> spec_fn(Run, Run) -> bool {
    |a: Run, b: Run|
        a.updated_at < b.updated_at || (a.updated_at == b.updated_at && (text_before(a.id, b.id)))
}

/// Whether a record leaves room for another decision: it waits for one, or it
/// has come to the same.
pub open spec fn reclaimable(known: Recovery, row: Recovery) -> bool {
    known.decision == "manual_required"@ || known.decision == "interrupted"@ || known.decision
        == row.decision
}

/// A user's run, in the state in which it was looked at.
pub open spec fn run_as_seen(
    run_id: Option<Seq<char>>,
    user_id: Seq<char>,
    status: Seq<char>,
    updated_at: i64,
) -> spec_fn(Run) -> bool {
    |row: Run|
        run_id == Some(row.id) && row.user_id == user_id && row.status == status && row.updated_at
            == updated_at
}

/// The later of a time and the moment after another.
pub open spec fn after_both(at: i64, known: i64) -> i64 {
    if at > known {
        at
    } else {
        (known + 1) as i64
    }
}

/// The later of a time and the moment after another.
pub fn later_of(at: i64, known: i64) -> (next: i64)
    requires
        known < i64::MAX,
    ensures
        next == after_both(at, known),
        next > known,
        next >= at,
{
    if at > known {
        at
    } else {
        known + 1
    }
}

/// A run after a decision.
pub open spec fn run_recovered(
    status: Seq<char>,
    finished_at: Option<i64>,
    at: i64,
) -> spec_fn(Run) -> Run {
    |row: Run|
        DevelopmentRunRow {
            status,
            finished_at,
            updated_at: after_both(at, row.updated_at),
            ..row
        }
}

/// What a decision on a stopped run starts from, and where it leads.
pub struct Claim {
    pub record: Recovery,
    pub expected_status: Seq<char>,
    pub expected_updated_at: i64,
    pub target_status: Seq<char>,
    pub finished_at: Option<i64>,
    pub updated_at: i64,
}

impl Claim {
    /// The record that the decision is written to.
    pub open spec fn place(self) -> spec_fn(Recovery) -> bool {
        recovery_by_key(self.record.user_id, self.record.recovery_key)
    }

    /// The run that the decision is about.
    pub open spec fn target(self) -> spec_fn(Run) -> bool {
        run_as_seen(
            self.record.run_id,
            self.record.user_id,
            self.expected_status,
            self.expected_updated_at,
        )
    }

    /// Whether a decision was made before that leaves no room for this one.
    pub open spec fn is_closed(self, recoveries: Seq<Recovery>) -> bool {
        lookup(recoveries, self.place()) matches Some(known) && !reclaimable(known, self.record)
    }

    /// The records after the decision was written.
    pub open spec fn recorded(self, recoveries: Seq<Recovery>) -> Result<
        Seq<Recovery>,
        DbError<Seq<char>>,
    > {
        written(
            recoveries,
            self.place(),
            recovery_becomes(self.record),
            recovery_with_id(self.record.id),
            self.record,
            "UNIQUE constraint failed: development_recovery_records.id"@,
        )
    }
}

/// What a decision on a stopped run comes to, and whether it was made. The record
/// and the run change together or not at all.
pub open spec fn claim_step(store: OperationsModel, claim: Claim) -> Result<
    (OperationsModel, bool),
    DbError<Seq<char>>,
> {
    if claim.is_closed(store.recoveries) {
        Ok((store, false))
    } else {
        match claim.recorded(store.recoveries) {
            Err(error) => Err(error),
            Ok(recoveries) => if selected(store.runs, claim.target()).len() == 1 {
                Ok(
                    (
                        OperationsModel {
                            recoveries,
                            runs: updated(
                                store.runs,
                                claim.target(),
                                run_recovered(
                                    claim.target_status,
                                    claim.finished_at,
                                    claim.updated_at,
                                ),
                            ),
                            ..store
                        },
                        true,
                    ),
                )
            } else {
                Ok((store, false))
            },
        }
    }
}

/// Whether a decision was carried out as `expected` says.
pub open spec fn claimed(
    expected: Result<(OperationsModel, bool), DbError<Seq<char>>>,
    result: Result<bool, DbError>,
    before: OperationsModel,
    after: OperationsModel,
) -> bool {
    match expected {
        Err(wanted) => (result matches Err(error) && error@ == wanted) && after == before,
        Ok((store, done)) => result == Ok::<bool, DbError>(done) && after == store,
    }
}

fn can_reclaim(
    known: &DevelopmentRecoveryRecordRow,
    row: &DevelopmentRecoveryRecordRow,
) -> (yes: bool)
    ensures
        yes == reclaimable(known@, row@),
{
    same(known.decision.as_str(), "manual_required") || same(
        known.decision.as_str(),
        "interrupted",
    ) || same(known.decision.as_str(), row.decision.as_str())
}

fn record_recovery(
    recoveries: &mut Vec<DevelopmentRecoveryRecordRow>,
    row: &DevelopmentRecoveryRecordRow,
) -> (result:
    Result<(), DbError>)
    ensures
        rows_changed(
            written(
                model(old(recoveries)@),
                recovery_by_key(row@.user_id, row@.recovery_key),
                recovery_becomes(row@),
                recovery_with_id(row@.id),
                row@,
                "UNIQUE constraint failed: development_recovery_records.id"@,
            ),
            result,
            model(old(recoveries)@),
            model(final(recoveries)@),
        ),
{
    write_row(
        recoveries,
        |known: &DevelopmentRecoveryRecordRow| -> (yes: bool)
            ensures yes == recovery_by_key(row@.user_id, row@.recovery_key)(known@)
            {
                same(known.user_id.as_str(), row.user_id.as_str())
                    && same(known.recovery_key.as_str(), row.recovery_key.as_str())
            },
        |known: &DevelopmentRecoveryRecordRow| -> (next: DevelopmentRecoveryRecordRow)
            ensures next@ == recovery_becomes(row@)(known@)
            {
                DevelopmentRecoveryRecordRow {
                    finding: row.finding.clone(),
                    decision: row.decision.clone(),
                    status_before: row.status_before.clone(),
                    status_after: row.status_after.clone(),
                    details_json: row.details_json.clone(),
                    ..known.duplicate()
                }
            },
        |known: &DevelopmentRecoveryRecordRow| -> (yes: bool)
            ensures yes == recovery_with_id(row@.id)(known@)
            { same(known.id.as_str(), row.id.as_str()) },
        row.duplicate(),
        "UNIQUE constraint failed: development_recovery_records.id",
        Ghost(recovery_by_key(row@.user_id, row@.recovery_key)),
        Ghost(recovery_becomes(row@)),
        Ghost(recovery_with_id(row@.id)),
    )
}

impl OperationsStore {
    /// Writes what was found of a run.
    pub fn append_recovery(
        &mut self,
        row: &DevelopmentRecoveryRecordRow,
    ) -> (result: Result<(), DbError>)
        ensures
            rows_changed(
                written(
                    old(self)@.recoveries,
                    recovery_by_key(row@.user_id, row@.recovery_key),
                    recovery_becomes(row@),
                    recovery_with_id(row@.id),
                    row@,
                    "UNIQUE constraint failed: development_recovery_records.id"@,
                ),
                result,
                old(self)@.recoveries,
                final(self)@.recoveries,
            ),
            final(self)@ == (OperationsModel { recoveries: final(self)@.recoveries, ..old(self)@ }),
    {
        record_recovery(&mut self.recoveries, row)
    }

    /// Decides on a stopped run, unless it was decided otherwise or the run has
    /// moved; says whether it was decided.
    pub fn claim_recovery_and_update_run(
        &mut self,
        row: &DevelopmentRecoveryRecordRow,
        expected_status: &str,
        expected_updated_at: i64,
        target_status: &str,
        finished_at: Option<i64>,
        updated_at: i64,
    ) -> (result: Result<bool, DbError>)
        requires
            expected_updated_at < i64::MAX,
        ensures
            claimed(
                claim_step(
                    old(self)@,
                    (Claim {
                        record: row@,
                        expected_status: expected_status@,
                        expected_updated_at,
                        target_status: target_status@,
                        finished_at,
                        updated_at,
                    }),
                ),
                result,
                old(self)@,
                final(self)@,
            ),
    {
        let ghost claim = Claim {
            record: row@,
            expected_status: expected_status@,
            expected_updated_at,
            target_status: target_status@,
            finished_at,
            updated_at,
        };
        let user_id = row.user_id.as_str();
        let recovery_key = row.recovery_key.as_str();
        let known = find_where(
            &self.recoveries,
            |known: &DevelopmentRecoveryRecordRow| -> (yes: bool)
                ensures yes == claim.place()(known@)
                {
                    same(known.user_id.as_str(), user_id) && same(
                        known.recovery_key.as_str(),
                        recovery_key,
                    )
                },
            Ghost(claim.place()),
        );
        match known {
            Some(at) => {
                if !can_reclaim(&self.recoveries[at], row) {
                    return Ok(false);
                }
            },
            None => {},
        }
        let mut recoveries = copy_rows(&self.recoveries);
        match record_recovery(&mut recoveries, row) {
            Ok(()) => {},
            Err(error) => {
                return Err(error);
            },
        }
        let ghost target = claim.target();
        let ghost change = run_recovered(claim.target_status, finished_at, updated_at);
        let hits = select_where(
            &self.runs,
            |run: &DevelopmentRunRow| -> (yes: bool)
                ensures yes == target(run@)
                {
                    is_some_text(&row.run_id, run.id.as_str()) && same(
                        run.user_id.as_str(),
                        user_id,
                    ) && same(run.status.as_str(), expected_status) && run.updated_at
                        == expected_updated_at
                },
            Ghost(target),
        );
        assert(model(hits@).len() == hits.len());
        if hits.len() != 1 {
            return Ok(false);
        }
        let _count: u64 = update_where(
            &mut self.runs,
            |run: &DevelopmentRunRow| -> (yes: bool)
                ensures yes == target(run@)
                {
                    is_some_text(&row.run_id, run.id.as_str()) && same(
                        run.user_id.as_str(),
                        user_id,
                    ) && same(run.status.as_str(), expected_status) && run.updated_at
                        == expected_updated_at
                },
            |run: &DevelopmentRunRow| -> (next: DevelopmentRunRow)
                requires run.updated_at < i64::MAX
                ensures next@ == change(run@)
                {
                    DevelopmentRunRow {
                        status: target_status.to_owned(),
                        finished_at,
                        updated_at: later_of(updated_at, run.updated_at),
                        ..run.duplicate()
                    }
                },
            Ghost(target),
            Ghost(change),
        );
        self.recoveries = recoveries;
        Ok(true)
    }

    /// A user's records on a project, of one run where it is given: the latest,
    /// as many as are asked for.
    pub fn list_recovery(
        &self,
        user_id: &str,
        project_id: &str,
        run_id: Option<&str>,
        limit: i64,
    ) -> (list: Vec<
        DevelopmentRecoveryRecordRow,
    >)
        ensures
            model(list@) == limited(
                ordered(
                    selected(
                        self@.recoveries,
                        recoveries_of(user_id@, project_id@, opt_str(run_id)),
                    ),
                    latest_recovery(),
                ),
                clamped(limit, MAX_LISTED),
                0,
            ),
    {
        let all = list_where(
            &self.recoveries,
            |row: &DevelopmentRecoveryRecordRow| -> (yes: bool)
                ensures yes == recoveries_of(user_id@, project_id@, opt_str(run_id))(row@)
                {
                    same(row.user_id.as_str(), user_id) && same(row.project_id.as_str(), project_id)
                        && match run_id {
                            Some(wanted) => is_some_text(&row.run_id, wanted),
                            None => true,
                        }
                },
            |a: &DevelopmentRecoveryRecordRow, b: &DevelopmentRecoveryRecordRow| -> (yes: bool)
                ensures yes == latest_recovery()(a@, b@)
                {
                    b.created_at < a.created_at
                        || (a.created_at == b.created_at && (before(b.id.as_str(), a.id.as_str())))
                },
            Ghost(recoveries_of(user_id@, project_id@, opt_str(run_id))),
            Ghost(latest_recovery()),
        );
        take_limited(&all, clamp_limit(limit, MAX_LISTED), 0)
    }

    /// The runs that should be at work and have not moved since a time.
    pub fn list_recovery_candidates(&self, updated_before: i64) -> (list: Vec<DevelopmentRunRow>)
        ensures
            model(list@) == ordered(
                selected(self@.runs, stopped_run(updated_before)),
                stale_first(),
            ),
    {
        list_where(
            &self.runs,
            |row: &DevelopmentRunRow| -> (yes: bool)
                ensures yes == stopped_run(updated_before)(row@)
                {
                    (
                        same(row.status.as_str(), "running")
                            || same(row.status.as_str(), "verifying")
                            || same(row.status.as_str(), "reviewing")
                            || same(row.status.as_str(), "integrating")
                    )
                        && row.updated_at <= updated_before
                },
            |a: &DevelopmentRunRow, b: &DevelopmentRunRow| -> (yes: bool)
                ensures yes == stale_first()(a@, b@)
                {
                    a.updated_at < b.updated_at
                        || (a.updated_at == b.updated_at && (before(a.id.as_str(), b.id.as_str())))
                },
            Ghost(stopped_run(updated_before)),
            Ghost(stale_first()),
        )
    }
}

// ----------------------------------------------------------------------------
// What deciding promises
// ----------------------------------------------------------------------------

/// A run is decided on once from a state: after a decision, nobody decides on it
/// from the state it was in before.
pub proof fn law_state_is_decided_once(store: OperationsModel, claim: Claim, other: Claim)
    requires
        claim.expected_updated_at < i64::MAX,
        other.target() == claim.target(),
    ensures
        claim_step(store, claim) matches Ok((after, true)) ==> (claim_step(after, other) matches Ok(
            (_, done),
        ) ==> !done),
{
    if let Ok((after, true)) = claim_step(store, claim) {
        let target = claim.target();
        assert forall|row: Run| after.runs.contains(row) implies !target(row) by {
            let k = choose|k: int| 0 <= k < after.runs.len() && after.runs[k] == row;
            assert(after.runs[k].updated_at == store.runs[k].updated_at || target(store.runs[k]));
        }
        law_selected(after.runs, target);
        let hits = selected(after.runs, target);
        if hits.len() > 0 {
            assert(hits.contains(hits[0]));
        }
    }
}

/// A decision that closes a record stands: another one is not written over it.
pub proof fn law_decision_stands(store: OperationsModel, claim: Claim, known: Recovery)
    requires
        lookup(store.recoveries, claim.place()) == Some(known),
        known.decision != "manual_required"@,
        known.decision != "interrupted"@,
        known.decision != claim.record.decision,
    ensures
        claim_step(store, claim) == Ok::<(
            OperationsModel,
            bool,
        ), DbError<Seq<char>>>((store, false)),
{
}

/// A decision that was made is on record, and the run is where it leads to, later
/// than it was.
pub proof fn law_decision_is_on_record(store: OperationsModel, claim: Claim, i: int)
    requires
        claim.expected_updated_at < i64::MAX,
        0 <= i < store.runs.len(),
        claim.target()(store.runs[i]),
    ensures
        claim_step(store, claim) matches Ok((after, true)) ==> {
            &&& lookup(after.recoveries, claim.place()) matches Some(record)
            &&& record.decision == claim.record.decision
            &&& after.runs[i].status == claim.target_status
            &&& after.runs[i].finished_at == claim.finished_at
            &&& after.runs[i].updated_at > store.runs[i].updated_at
        },
{
    lemma_lookup(store.recoveries, claim.place());
    law_put_is_found(
        store.recoveries,
        claim.place(),
        recovery_becomes(claim.record),
        claim.record,
    );
}

} // verus!

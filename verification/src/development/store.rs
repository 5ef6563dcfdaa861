//! The development tables and what is done to them.
use crate::development::rows::{
    Artifact, CiCheck, Delivery, DevelopmentCiCheckRow, DevelopmentDeliveryRow,
    DevelopmentRunRoleRow, DevelopmentRunRow, DevelopmentTaskRow, Finding, Gate, QualityGateRunRow,
    ReviewFindingRow, Role, Run, Task, TaskArtifactRow,
};
use crate::error::DbError;
use crate::table::{
    any_where, exists_in, fetch_where, found, law_put_is_found, lemma_lookup, list_where, lookup,
    model, ordered, selected, update_where, updated, Record,
};
use crate::text::{before, copy_opt, is_some_text, opt_str, same, text_before};
use crate::write::{add_row, added, rows_changed, write_row, written};
use vstd::prelude::*;

verus! {

/// The development tables.
#[derive(Debug, Clone, PartialEq, Eq)]
pub struct DevelopmentStore {
    pub runs: Vec<DevelopmentRunRow>,
    pub roles: Vec<DevelopmentRunRoleRow>,
    pub tasks: Vec<DevelopmentTaskRow>,
    pub artifacts: Vec<TaskArtifactRow>,
    pub gates: Vec<QualityGateRunRow>,
    pub findings: Vec<ReviewFindingRow>,
    pub deliveries: Vec<DevelopmentDeliveryRow>,
    pub ci_checks: Vec<DevelopmentCiCheckRow>,
}

/// The model of the development tables.
#[verifier::ext_equal]
pub struct DevelopmentModel {
    pub runs: Seq<Run>,
    pub roles: Seq<Role>,
    pub tasks: Seq<Task>,
    pub artifacts: Seq<Artifact>,
    pub gates: Seq<Gate>,
    pub findings: Seq<Finding>,
    pub deliveries: Seq<Delivery>,
    pub ci_checks: Seq<CiCheck>,
}

impl View for DevelopmentStore {
    type V = DevelopmentModel;

    open spec fn view(&self) -> DevelopmentModel {
        DevelopmentModel {
            runs: model(self.runs@),
            roles: model(self.roles@),
            tasks: model(self.tasks@),
            artifacts: model(self.artifacts@),
            gates: model(self.gates@),
            findings: model(self.findings@),
            deliveries: model(self.deliveries@),
            ci_checks: model(self.ci_checks@),
        }
    }
}

/// The run with an id.
pub open spec fn run_with_id(id: Seq<char>) -> spec_fn(Run) -> bool {
    |row: Run| row.id == id
}

/// The task with an id.
pub open spec fn task_with_id(id: Seq<char>) -> spec_fn(Task) -> bool {
    |row: Task| row.id == id
}

/// The artifact with an id.
pub open spec fn artifact_with_id(id: Seq<char>) -> spec_fn(Artifact) -> bool {
    |row: Artifact| row.id == id
}

/// A quality gate by its id.
pub open spec fn gate_with_id(id: Seq<char>) -> spec_fn(Gate) -> bool {
    |row: Gate| row.id == id
}

/// The finding with an id.
pub open spec fn finding_with_id(id: Seq<char>) -> spec_fn(Finding) -> bool {
    |row: Finding| row.id == id
}

/// The delivery with an id.
pub open spec fn delivery_with_id(id: Seq<char>) -> spec_fn(Delivery) -> bool {
    |row: Delivery| row.id == id
}

/// The check with an id.
pub open spec fn check_with_id(id: Seq<char>) -> spec_fn(CiCheck) -> bool {
    |row: CiCheck| row.id == id
}

/// A user's run by its id.
pub open spec fn run_of(run_id: Seq<char>, user_id: Seq<char>) -> spec_fn(Run) -> bool {
    |row: Run| row.id == run_id && row.user_id == user_id
}

/// A user's runs, of one project where it is given.
pub open spec fn runs_of(
    user_id: Seq<char>,
    project_id: Option<Seq<char>>,
) -> spec_fn(Run) -> bool {
    |row: Run|
        row.user_id == user_id && (project_id matches Some(wanted) ==> row.project_id == wanted)
}

/// The order of runs: those changed last first.
pub open spec fn fresh_first() -> spec_fn(Run, Run) -> bool {
    |a: Run, b: Run|
        b.updated_at < a.updated_at || (a.updated_at == b.updated_at && (text_before(a.id, b.id)))
}

/// A run with another status.
pub open spec fn run_becomes(
    status: Seq<char>,
    finished_at: Option<i64>,
    now: i64,
) -> spec_fn(Run) -> Run {
    |row: Run| DevelopmentRunRow { status, finished_at, updated_at: now, ..row }
}

/// The parts in a run.
pub open spec fn roles_of(run_id: Seq<char>) -> spec_fn(Role) -> bool {
    |row: Role| row.run_id == run_id
}

/// A part in a run.
pub open spec fn same_role(
    run_id: Seq<char>,
    slot_id: Seq<char>,
    role: Seq<char>,
) -> spec_fn(Role) -> bool {
    |row: Role| row.run_id == run_id && row.slot_id == slot_id && row.role == role
}

/// The order of parts.
pub open spec fn by_role() -> spec_fn(Role, Role) -> bool {
    |a: Role, b: Role|
        text_before(a.role, b.role) || (a.role == b.role && (text_before(a.slot_id, b.slot_id)))
}

/// The parts after one was given out. A part that is played already stays as it is.
pub open spec fn roles_after(roles: Seq<Role>, role: Role) -> Seq<Role> {
    if exists_in(roles, same_role(role.run_id, role.slot_id, role.role)) {
        roles
    } else {
        roles.push(role)
    }
}

/// The task of a run by its id.
pub open spec fn task_of(run_id: Seq<char>, task_id: Seq<char>) -> spec_fn(Task) -> bool {
    |row: Task| row.run_id == Some(run_id) && row.id == task_id
}

/// The tasks of a run.
pub open spec fn tasks_of(run_id: Seq<char>) -> spec_fn(Task) -> bool {
    |row: Task| row.run_id == Some(run_id)
}

/// The order of tasks: the oldest first.
pub open spec fn task_order() -> spec_fn(Task, Task) -> bool {
    |a: Task, b: Task|
        a.created_at < b.created_at || (a.created_at == b.created_at && (text_before(a.id, b.id)))
}

/// A task in another state.
pub open spec fn task_becomes(
    status: Seq<char>,
    review_status: Seq<char>,
    verification_status: Seq<char>,
    now: i64,
) -> spec_fn(Task) -> Task {
    |row: Task|
        DevelopmentTaskRow { status, review_status, verification_status, updated_at: now, ..row }
}

/// The artifacts of a run, of one task where it is given.
pub open spec fn artifacts_of(
    run_id: Seq<char>,
    task_id: Option<Seq<char>>,
) -> spec_fn(Artifact) -> bool {
    |row: Artifact|
        row.run_id == run_id && (task_id matches Some(wanted) ==> row.task_id == Some(wanted))
}

/// The order of artifacts: the oldest first.
pub open spec fn artifact_order() -> spec_fn(Artifact, Artifact) -> bool {
    |a: Artifact, b: Artifact|
        a.created_at < b.created_at || (a.created_at == b.created_at && (text_before(a.id, b.id)))
}

/// A quality gate of a run by its id.
pub open spec fn gate_of(id: Seq<char>, run_id: Seq<char>) -> spec_fn(Gate) -> bool {
    |row: Gate| row.id == id && row.run_id == run_id
}

/// The gates of a run, of one task where it is given.
pub open spec fn gates_of(run_id: Seq<char>, task_id: Option<Seq<char>>) -> spec_fn(Gate) -> bool {
    |row: Gate|
        row.run_id == run_id && (task_id matches Some(wanted) ==> row.task_id == Some(wanted))
}

/// The order of gates: the oldest first.
pub open spec fn gate_order() -> spec_fn(Gate, Gate) -> bool {
    |a: Gate, b: Gate|
        a.created_at < b.created_at || (a.created_at == b.created_at && (text_before(a.id, b.id)))
}

/// A gate after it was run. What is checked stays.
pub open spec fn gate_becomes(new: Gate) -> spec_fn(Gate) -> Gate {
    |row: Gate|
        QualityGateRunRow {
            exit_code: new.exit_code,
            status: new.status,
            stdout_artifact_id: new.stdout_artifact_id,
            stderr_artifact_id: new.stderr_artifact_id,
            duration_ms: new.duration_ms,
            isolation_mode: new.isolation_mode,
            execution_id: new.execution_id,
            required: new.required,
            started_at: new.started_at,
            finished_at: new.finished_at,
            ..row
        }
}

/// The findings on a task of a run.
pub open spec fn findings_of(run_id: Seq<char>, task_id: Seq<char>) -> spec_fn(Finding) -> bool {
    |row: Finding| row.run_id == run_id && row.task_id == task_id
}

/// The finding of a run by its id.
pub open spec fn finding_of(run_id: Seq<char>, finding_id: Seq<char>) -> spec_fn(Finding) -> bool {
    |row: Finding| row.id == finding_id && row.run_id == run_id
}

/// The order of findings: the oldest first.
pub open spec fn finding_order() -> spec_fn(Finding, Finding) -> bool {
    |a: Finding, b: Finding|
        a.created_at < b.created_at || (a.created_at == b.created_at && (text_before(a.id, b.id)))
}

/// A finding with another status.
pub open spec fn finding_becomes(status: Seq<char>, now: i64) -> spec_fn(Finding) -> Finding {
    |row: Finding| ReviewFindingRow { status, updated_at: now, ..row }
}

/// The delivery of a run.
pub open spec fn delivery_for(run_id: Seq<char>) -> spec_fn(Delivery) -> bool {
    |row: Delivery| row.run_id == run_id
}

/// The delivery of a user's run.
pub open spec fn delivery_of(user_id: Seq<char>, run_id: Seq<char>) -> spec_fn(Delivery) -> bool {
    |row: Delivery| row.user_id == user_id && row.run_id == run_id
}

/// A delivery written anew. Whose it is and its age stay.
pub open spec fn delivery_becomes(new: Delivery) -> spec_fn(Delivery) -> Delivery {
    |row: Delivery|
        DevelopmentDeliveryRow {
            provider: new.provider,
            repository: new.repository,
            branch: new.branch,
            base_branch: new.base_branch,
            commit_sha: new.commit_sha,
            status: new.status,
            push_status: new.push_status,
            pr_number: new.pr_number,
            pr_url: new.pr_url,
            pr_status: new.pr_status,
            ci_status: new.ci_status,
            review_status: new.review_status,
            merge_status: new.merge_status,
            report_json: new.report_json,
            last_error: new.last_error,
            updated_at: new.updated_at,
            ..row
        }
}

/// The check of a delivery by its name elsewhere.
pub open spec fn check_of(
    delivery_id: Seq<char>,
    provider_check_id: Seq<char>,
) -> spec_fn(CiCheck) -> bool {
    |row: CiCheck| row.delivery_id == delivery_id && row.provider_check_id == provider_check_id
}

/// The checks of a delivery.
pub open spec fn checks_of(delivery_id: Seq<char>) -> spec_fn(CiCheck) -> bool {
    |row: CiCheck| row.delivery_id == delivery_id
}

/// The order of checks.
pub open spec fn by_name() -> spec_fn(CiCheck, CiCheck) -> bool {
    |a: CiCheck, b: CiCheck|
        text_before(a.name, b.name)
            || (a.name == b.name && (text_before(a.provider_check_id, b.provider_check_id)))
}

/// A check written anew. Which it is and its age stay, and so does the task that
/// mends what it found, unless another is given.
pub open spec fn check_becomes(new: CiCheck) -> spec_fn(CiCheck) -> CiCheck {
    |row: CiCheck|
        DevelopmentCiCheckRow {
            name: new.name,
            status: new.status,
            details_url: new.details_url,
            summary: new.summary,
            rework_task_id: match new.rework_task_id {
                Some(task) => Some(task),
                None => row.rework_task_id,
            },
            started_at: new.started_at,
            completed_at: new.completed_at,
            updated_at: new.updated_at,
            ..row
        }
}

impl DevelopmentStore {
    /// Adds a run.
    pub fn create_run(&mut self, row: &DevelopmentRunRow) -> (result: Result<(), DbError>)
        ensures
            rows_changed(
                added(
                    old(self)@.runs,
                    run_with_id(row@.id),
                    row@,
                    "UNIQUE constraint failed: development_runs.id"@,
                ),
                result,
                old(self)@.runs,
                final(self)@.runs,
            ),
            final(self)@ == (DevelopmentModel { runs: final(self)@.runs, ..old(self)@ }),
    {
        add_row(
            &mut self.runs,
            row.duplicate(),
            |known: &DevelopmentRunRow| -> (yes: bool)
                ensures yes == run_with_id(row@.id)(known@)
                { same(known.id.as_str(), row.id.as_str()) },
            "UNIQUE constraint failed: development_runs.id",
            Ghost(run_with_id(row@.id)),
        )
    }

    /// A user's run.
    pub fn get_run(&self, run_id: &str, user_id: &str) -> (row: Option<DevelopmentRunRow>)
        ensures
            found(row) == lookup(self@.runs, run_of(run_id@, user_id@)),
    {
        fetch_where(
            &self.runs,
            |row: &DevelopmentRunRow| -> (yes: bool)
                ensures yes == run_of(run_id@, user_id@)(row@)
                { same(row.id.as_str(), run_id) && same(row.user_id.as_str(), user_id) },
            Ghost(run_of(run_id@, user_id@)),
        )
    }

    /// A user's runs, of one project where it is given.
    pub fn list_runs(
        &self,
        user_id: &str,
        project_id: Option<&str>,
    ) -> (list: Vec<DevelopmentRunRow>)
        ensures
            model(list@) == ordered(
                selected(self@.runs, runs_of(user_id@, opt_str(project_id))),
                fresh_first(),
            ),
    {
        list_where(
            &self.runs,
            |row: &DevelopmentRunRow| -> (yes: bool)
                ensures yes == runs_of(user_id@, opt_str(project_id))(row@)
                {
                    same(row.user_id.as_str(), user_id)
                        && match project_id {
                            Some(wanted) => same(row.project_id.as_str(), wanted),
                            None => true,
                        }
                },
            |a: &DevelopmentRunRow, b: &DevelopmentRunRow| -> (yes: bool)
                ensures yes == fresh_first()(a@, b@)
                {
                    b.updated_at < a.updated_at
                        || (a.updated_at == b.updated_at && (before(a.id.as_str(), b.id.as_str())))
                },
            Ghost(runs_of(user_id@, opt_str(project_id))),
            Ghost(fresh_first()),
        )
    }

    /// Sets the status of a user's run, and says whether it is there.
    pub fn update_run_status(
        &mut self,
        run_id: &str,
        user_id: &str,
        status: &str,
        finished_at: Option<i64>,
        now: i64,
    ) -> (done: bool)
        ensures
            final(self)@ == (DevelopmentModel {
                runs: updated(
                    old(self)@.runs,
                    run_of(run_id@, user_id@),
                    run_becomes(status@, finished_at, now),
                ),
                ..old(self)@
            }),
            done == exists_in(old(self)@.runs, run_of(run_id@, user_id@)),
    {
        let known = any_where(
            &self.runs,
            |row: &DevelopmentRunRow| -> (yes: bool)
                ensures yes == run_of(run_id@, user_id@)(row@)
                { same(row.id.as_str(), run_id) && same(row.user_id.as_str(), user_id) },
            Ghost(run_of(run_id@, user_id@)),
        );
        let _count: u64 = update_where(
            &mut self.runs,
            |row: &DevelopmentRunRow| -> (yes: bool)
                ensures yes == run_of(run_id@, user_id@)(row@)
                { same(row.id.as_str(), run_id) && same(row.user_id.as_str(), user_id) },
            |row: &DevelopmentRunRow| -> (next: DevelopmentRunRow)
                ensures next@ == run_becomes(status@, finished_at, now)(row@)
                {
                    DevelopmentRunRow {
                        status: status.to_owned(),
                        finished_at: finished_at,
                        updated_at: now,
                        ..row.duplicate()
                    }
                },
            Ghost(run_of(run_id@, user_id@)),
            Ghost(run_becomes(status@, finished_at, now)),
        );
        known
    }

    /// Gives out a part in a run, unless it is played already.
    pub fn assign_role(&mut self, row: &DevelopmentRunRoleRow)
        ensures
            final(self)@ == (DevelopmentModel {
                roles: roles_after(old(self)@.roles, row@),
                ..old(self)@
            }),
    {
        let ghost hit = same_role(row@.run_id, row@.slot_id, row@.role);
        let known = any_where(
            &self.roles,
            |known: &DevelopmentRunRoleRow| -> (yes: bool)
                ensures yes == hit(known@)
                {
                    same(known.run_id.as_str(), row.run_id.as_str())
                        && same(known.slot_id.as_str(), row.slot_id.as_str())
                        && same(known.role.as_str(), row.role.as_str())
                },
            Ghost(hit),
        );
        if !known {
            let ghost start = self.roles@;
            self.roles.push(row.duplicate());
            assert(model(self.roles@) =~= model(start).push(row@));
        }
    }

    /// The parts in a run.
    pub fn list_roles(&self, run_id: &str) -> (list: Vec<DevelopmentRunRoleRow>)
        ensures
            model(list@) == ordered(selected(self@.roles, roles_of(run_id@)), by_role()),
    {
        list_where(
            &self.roles,
            |row: &DevelopmentRunRoleRow| -> (yes: bool)
                ensures yes == roles_of(run_id@)(row@)
                { same(row.run_id.as_str(), run_id) },
            |a: &DevelopmentRunRoleRow, b: &DevelopmentRunRoleRow| -> (yes: bool)
                ensures yes == by_role()(a@, b@)
                {
                    before(a.role.as_str(), b.role.as_str())
                        || (
                            same(a.role.as_str(), b.role.as_str())
                                && (before(a.slot_id.as_str(), b.slot_id.as_str()))
                        )
                },
            Ghost(roles_of(run_id@)),
            Ghost(by_role()),
        )
    }

    /// Adds a task.
    pub fn create_task(&mut self, row: &DevelopmentTaskRow) -> (result: Result<(), DbError>)
        ensures
            rows_changed(
                added(
                    old(self)@.tasks,
                    task_with_id(row@.id),
                    row@,
                    "UNIQUE constraint failed: team_tasks.id"@,
                ),
                result,
                old(self)@.tasks,
                final(self)@.tasks,
            ),
            final(self)@ == (DevelopmentModel { tasks: final(self)@.tasks, ..old(self)@ }),
    {
        add_row(
            &mut self.tasks,
            row.duplicate(),
            |known: &DevelopmentTaskRow| -> (yes: bool)
                ensures yes == task_with_id(row@.id)(known@)
                { same(known.id.as_str(), row.id.as_str()) },
            "UNIQUE constraint failed: team_tasks.id",
            Ghost(task_with_id(row@.id)),
        )
    }

    /// A task of a run.
    pub fn get_task(&self, run_id: &str, task_id: &str) -> (row: Option<DevelopmentTaskRow>)
        ensures
            found(row) == lookup(self@.tasks, task_of(run_id@, task_id@)),
    {
        fetch_where(
            &self.tasks,
            |row: &DevelopmentTaskRow| -> (yes: bool)
                ensures yes == task_of(run_id@, task_id@)(row@)
                { is_some_text(&row.run_id, run_id) && same(row.id.as_str(), task_id) },
            Ghost(task_of(run_id@, task_id@)),
        )
    }

    /// The tasks of a run.
    pub fn list_tasks(&self, run_id: &str) -> (list: Vec<DevelopmentTaskRow>)
        ensures
            model(list@) == ordered(selected(self@.tasks, tasks_of(run_id@)), task_order()),
    {
        list_where(
            &self.tasks,
            |row: &DevelopmentTaskRow| -> (yes: bool)
                ensures yes == tasks_of(run_id@)(row@)
                { is_some_text(&row.run_id, run_id) },
            |a: &DevelopmentTaskRow, b: &DevelopmentTaskRow| -> (yes: bool)
                ensures yes == task_order()(a@, b@)
                {
                    a.created_at < b.created_at
                        || (a.created_at == b.created_at && (before(a.id.as_str(), b.id.as_str())))
                },
            Ghost(tasks_of(run_id@)),
            Ghost(task_order()),
        )
    }

    /// Sets the state of a task, and says whether it is there.
    pub fn update_task_state(
        &mut self,
        run_id: &str,
        task_id: &str,
        status: &str,
        review_status: &str,
        verification_status: &str,
        now: i64,
    ) -> (done: bool)
        ensures
            final(self)@ == (DevelopmentModel {
                tasks: updated(
                    old(self)@.tasks,
                    task_of(run_id@, task_id@),
                    task_becomes(status@, review_status@, verification_status@, now),
                ),
                ..old(self)@
            }),
            done == exists_in(old(self)@.tasks, task_of(run_id@, task_id@)),
    {
        let known = any_where(
            &self.tasks,
            |row: &DevelopmentTaskRow| -> (yes: bool)
                ensures yes == task_of(run_id@, task_id@)(row@)
                { is_some_text(&row.run_id, run_id) && same(row.id.as_str(), task_id) },
            Ghost(task_of(run_id@, task_id@)),
        );
        let _count: u64 = update_where(
            &mut self.tasks,
            |row: &DevelopmentTaskRow| -> (yes: bool)
                ensures yes == task_of(run_id@, task_id@)(row@)
                { is_some_text(&row.run_id, run_id) && same(row.id.as_str(), task_id) },
            |row: &DevelopmentTaskRow| -> (next: DevelopmentTaskRow)
                ensures next@ == task_becomes(
                    status@,
                    review_status@,
                    verification_status@,
                    now,
                )(row@)
                {
                    DevelopmentTaskRow {
                        status: status.to_owned(),
                        review_status: review_status.to_owned(),
                        verification_status: verification_status.to_owned(),
                        updated_at: now,
                        ..row.duplicate()
                    }
                },
            Ghost(task_of(run_id@, task_id@)),
            Ghost(task_becomes(status@, review_status@, verification_status@, now)),
        );
        known
    }

    /// Adds an artifact.
    pub fn create_artifact(&mut self, row: &TaskArtifactRow) -> (result: Result<(), DbError>)
        ensures
            rows_changed(
                added(
                    old(self)@.artifacts,
                    artifact_with_id(row@.id),
                    row@,
                    "UNIQUE constraint failed: task_artifacts.id"@,
                ),
                result,
                old(self)@.artifacts,
                final(self)@.artifacts,
            ),
            final(self)@ == (DevelopmentModel { artifacts: final(self)@.artifacts, ..old(self)@ }),
    {
        add_row(
            &mut self.artifacts,
            row.duplicate(),
            |known: &TaskArtifactRow| -> (yes: bool)
                ensures yes == artifact_with_id(row@.id)(known@)
                { same(known.id.as_str(), row.id.as_str()) },
            "UNIQUE constraint failed: task_artifacts.id",
            Ghost(artifact_with_id(row@.id)),
        )
    }

    /// The artifacts of a run, of one task where it is given.
    pub fn list_artifacts(
        &self,
        run_id: &str,
        task_id: Option<&str>,
    ) -> (list: Vec<TaskArtifactRow>)
        ensures
            model(list@) == ordered(
                selected(self@.artifacts, artifacts_of(run_id@, opt_str(task_id))),
                artifact_order(),
            ),
    {
        list_where(
            &self.artifacts,
            |row: &TaskArtifactRow| -> (yes: bool)
                ensures yes == artifacts_of(run_id@, opt_str(task_id))(row@)
                {
                    same(row.run_id.as_str(), run_id)
                        && match task_id {
                            Some(wanted) => is_some_text(&row.task_id, wanted),
                            None => true,
                        }
                },
            |a: &TaskArtifactRow, b: &TaskArtifactRow| -> (yes: bool)
                ensures yes == artifact_order()(a@, b@)
                {
                    a.created_at < b.created_at
                        || (a.created_at == b.created_at && (before(a.id.as_str(), b.id.as_str())))
                },
            Ghost(artifacts_of(run_id@, opt_str(task_id))),
            Ghost(artifact_order()),
        )
    }

    /// Adds a gate.
    pub fn create_gate(&mut self, row: &QualityGateRunRow) -> (result: Result<(), DbError>)
        ensures
            rows_changed(
                added(
                    old(self)@.gates,
                    gate_with_id(row@.id),
                    row@,
                    "UNIQUE constraint failed: quality_gate_runs.id"@,
                ),
                result,
                old(self)@.gates,
                final(self)@.gates,
            ),
            final(self)@ == (DevelopmentModel { gates: final(self)@.gates, ..old(self)@ }),
    {
        add_row(
            &mut self.gates,
            row.duplicate(),
            |known: &QualityGateRunRow| -> (yes: bool)
                ensures yes == gate_with_id(row@.id)(known@)
                { same(known.id.as_str(), row.id.as_str()) },
            "UNIQUE constraint failed: quality_gate_runs.id",
            Ghost(gate_with_id(row@.id)),
        )
    }

    /// Writes what running a quality gate came to, and says whether it is there.
    pub fn update_gate(&mut self, row: &QualityGateRunRow) -> (done: bool)
        ensures
            final(self)@ == (DevelopmentModel {
                gates: updated(
                    old(self)@.gates,
                    gate_of(row@.id, row@.run_id),
                    gate_becomes(row@),
                ),
                ..old(self)@
            }),
            done == exists_in(old(self)@.gates, gate_of(row@.id, row@.run_id)),
    {
        let ghost hit = gate_of(row@.id, row@.run_id);
        let known = any_where(
            &self.gates,
            |known: &QualityGateRunRow| -> (yes: bool)
                ensures yes == hit(known@)
                {
                    same(known.id.as_str(), row.id.as_str())
                        && same(known.run_id.as_str(), row.run_id.as_str())
                },
            Ghost(hit),
        );
        let _count: u64 = update_where(
            &mut self.gates,
            |known: &QualityGateRunRow| -> (yes: bool)
                ensures yes == hit(known@)
                {
                    same(known.id.as_str(), row.id.as_str())
                        && same(known.run_id.as_str(), row.run_id.as_str())
                },
            |known: &QualityGateRunRow| -> (next: QualityGateRunRow)
                ensures next@ == gate_becomes(row@)(known@)
                {
                    QualityGateRunRow {
                        exit_code: row.exit_code,
                        status: row.status.clone(),
                        stdout_artifact_id: copy_opt(&row.stdout_artifact_id),
                        stderr_artifact_id: copy_opt(&row.stderr_artifact_id),
                        duration_ms: row.duration_ms,
                        isolation_mode: row.isolation_mode.clone(),
                        execution_id: copy_opt(&row.execution_id),
                        required: row.required,
                        started_at: row.started_at,
                        finished_at: row.finished_at,
                        ..known.duplicate()
                    }
                },
            Ghost(hit),
            Ghost(gate_becomes(row@)),
        );
        known
    }

    /// The gates of a run, of one task where it is given.
    pub fn list_gates(&self, run_id: &str, task_id: Option<&str>) -> (list: Vec<QualityGateRunRow>)
        ensures
            model(list@) == ordered(
                selected(self@.gates, gates_of(run_id@, opt_str(task_id))),
                gate_order(),
            ),
    {
        list_where(
            &self.gates,
            |row: &QualityGateRunRow| -> (yes: bool)
                ensures yes == gates_of(run_id@, opt_str(task_id))(row@)
                {
                    same(row.run_id.as_str(), run_id)
                        && match task_id {
                            Some(wanted) => is_some_text(&row.task_id, wanted),
                            None => true,
                        }
                },
            |a: &QualityGateRunRow, b: &QualityGateRunRow| -> (yes: bool)
                ensures yes == gate_order()(a@, b@)
                {
                    a.created_at < b.created_at
                        || (a.created_at == b.created_at && (before(a.id.as_str(), b.id.as_str())))
                },
            Ghost(gates_of(run_id@, opt_str(task_id))),
            Ghost(gate_order()),
        )
    }

    /// Adds a finding.
    pub fn create_finding(&mut self, row: &ReviewFindingRow) -> (result: Result<(), DbError>)
        ensures
            rows_changed(
                added(
                    old(self)@.findings,
                    finding_with_id(row@.id),
                    row@,
                    "UNIQUE constraint failed: review_findings.id"@,
                ),
                result,
                old(self)@.findings,
                final(self)@.findings,
            ),
            final(self)@ == (DevelopmentModel { findings: final(self)@.findings, ..old(self)@ }),
    {
        add_row(
            &mut self.findings,
            row.duplicate(),
            |known: &ReviewFindingRow| -> (yes: bool)
                ensures yes == finding_with_id(row@.id)(known@)
                { same(known.id.as_str(), row.id.as_str()) },
            "UNIQUE constraint failed: review_findings.id",
            Ghost(finding_with_id(row@.id)),
        )
    }

    /// The findings on a task of a run.
    pub fn list_findings(&self, run_id: &str, task_id: &str) -> (list: Vec<ReviewFindingRow>)
        ensures
            model(list@) == ordered(
                selected(self@.findings, findings_of(run_id@, task_id@)),
                finding_order(),
            ),
    {
        list_where(
            &self.findings,
            |row: &ReviewFindingRow| -> (yes: bool)
                ensures yes == findings_of(run_id@, task_id@)(row@)
                { same(row.run_id.as_str(), run_id) && same(row.task_id.as_str(), task_id) },
            |a: &ReviewFindingRow, b: &ReviewFindingRow| -> (yes: bool)
                ensures yes == finding_order()(a@, b@)
                {
                    a.created_at < b.created_at
                        || (a.created_at == b.created_at && (before(a.id.as_str(), b.id.as_str())))
                },
            Ghost(findings_of(run_id@, task_id@)),
            Ghost(finding_order()),
        )
    }

    /// Sets the status of a finding, and says whether it is there.
    pub fn update_finding_status(
        &mut self,
        run_id: &str,
        finding_id: &str,
        status: &str,
        now: i64,
    ) -> (done: bool)
        ensures
            final(self)@ == (DevelopmentModel {
                findings: updated(
                    old(self)@.findings,
                    finding_of(run_id@, finding_id@),
                    finding_becomes(status@, now),
                ),
                ..old(self)@
            }),
            done == exists_in(old(self)@.findings, finding_of(run_id@, finding_id@)),
    {
        let known = any_where(
            &self.findings,
            |row: &ReviewFindingRow| -> (yes: bool)
                ensures yes == finding_of(run_id@, finding_id@)(row@)
                { same(row.id.as_str(), finding_id) && same(row.run_id.as_str(), run_id) },
            Ghost(finding_of(run_id@, finding_id@)),
        );
        let _count: u64 = update_where(
            &mut self.findings,
            |row: &ReviewFindingRow| -> (yes: bool)
                ensures yes == finding_of(run_id@, finding_id@)(row@)
                { same(row.id.as_str(), finding_id) && same(row.run_id.as_str(), run_id) },
            |row: &ReviewFindingRow| -> (next: ReviewFindingRow)
                ensures next@ == finding_becomes(status@, now)(row@)
                {
                    ReviewFindingRow {
                        status: status.to_owned(),
                        updated_at: now,
                        ..row.duplicate()
                    }
                },
            Ghost(finding_of(run_id@, finding_id@)),
            Ghost(finding_becomes(status@, now)),
        );
        known
    }

    /// Writes the delivery of a run.
    pub fn upsert_delivery(&mut self, row: &DevelopmentDeliveryRow) -> (result: Result<(), DbError>)
        ensures
            rows_changed(
                written(
                    old(self)@.deliveries,
                    delivery_for(row@.run_id),
                    delivery_becomes(row@),
                    delivery_with_id(row@.id),
                    row@,
                    "UNIQUE constraint failed: development_deliveries.id"@,
                ),
                result,
                old(self)@.deliveries,
                final(self)@.deliveries,
            ),
            final(self)@ == (
                DevelopmentModel { deliveries: final(self)@.deliveries, ..old(self)@ }
            ),
    {
        write_row(
            &mut self.deliveries,
            |known: &DevelopmentDeliveryRow| -> (yes: bool)
                ensures yes == delivery_for(row@.run_id)(known@)
                { same(known.run_id.as_str(), row.run_id.as_str()) },
            |known: &DevelopmentDeliveryRow| -> (next: DevelopmentDeliveryRow)
                ensures next@ == delivery_becomes(row@)(known@)
                {
                    DevelopmentDeliveryRow {
                        provider: row.provider.clone(),
                        repository: row.repository.clone(),
                        branch: row.branch.clone(),
                        base_branch: row.base_branch.clone(),
                        commit_sha: copy_opt(&row.commit_sha),
                        status: row.status.clone(),
                        push_status: row.push_status.clone(),
                        pr_number: row.pr_number,
                        pr_url: copy_opt(&row.pr_url),
                        pr_status: row.pr_status.clone(),
                        ci_status: row.ci_status.clone(),
                        review_status: row.review_status.clone(),
                        merge_status: row.merge_status.clone(),
                        report_json: row.report_json.clone(),
                        last_error: copy_opt(&row.last_error),
                        updated_at: row.updated_at,
                        ..known.duplicate()
                    }
                },
            |known: &DevelopmentDeliveryRow| -> (yes: bool)
                ensures yes == delivery_with_id(row@.id)(known@)
                { same(known.id.as_str(), row.id.as_str()) },
            row.duplicate(),
            "UNIQUE constraint failed: development_deliveries.id",
            Ghost(delivery_for(row@.run_id)),
            Ghost(delivery_becomes(row@)),
            Ghost(delivery_with_id(row@.id)),
        )
    }

    /// The delivery of a user's run.
    pub fn get_delivery(&self, user_id: &str, run_id: &str) -> (row: Option<DevelopmentDeliveryRow>)
        ensures
            found(row) == lookup(self@.deliveries, delivery_of(user_id@, run_id@)),
    {
        fetch_where(
            &self.deliveries,
            |row: &DevelopmentDeliveryRow| -> (yes: bool)
                ensures yes == delivery_of(user_id@, run_id@)(row@)
                { same(row.user_id.as_str(), user_id) && same(row.run_id.as_str(), run_id) },
            Ghost(delivery_of(user_id@, run_id@)),
        )
    }

    /// Writes a check of a delivery.
    pub fn upsert_ci_check(&mut self, row: &DevelopmentCiCheckRow) -> (result: Result<(), DbError>)
        ensures
            rows_changed(
                written(
                    old(self)@.ci_checks,
                    check_of(row@.delivery_id, row@.provider_check_id),
                    check_becomes(row@),
                    check_with_id(row@.id),
                    row@,
                    "UNIQUE constraint failed: development_ci_checks.id"@,
                ),
                result,
                old(self)@.ci_checks,
                final(self)@.ci_checks,
            ),
            final(self)@ == (DevelopmentModel { ci_checks: final(self)@.ci_checks, ..old(self)@ }),
    {
        write_row(
            &mut self.ci_checks,
            |known: &DevelopmentCiCheckRow| -> (yes: bool)
                ensures yes == check_of(row@.delivery_id, row@.provider_check_id)(known@)
                {
                    same(known.delivery_id.as_str(), row.delivery_id.as_str())
                        && same(known.provider_check_id.as_str(), row.provider_check_id.as_str())
                },
            |known: &DevelopmentCiCheckRow| -> (next: DevelopmentCiCheckRow)
                ensures next@ == check_becomes(row@)(known@)
                {
                    DevelopmentCiCheckRow {
                        name: row.name.clone(),
                        status: row.status.clone(),
                        details_url: copy_opt(&row.details_url),
                        summary: copy_opt(&row.summary),
                        rework_task_id: match &row.rework_task_id {
                            Some(task) => Some(task.clone()),
                            None => copy_opt(&known.rework_task_id),
                        },
                        started_at: row.started_at,
                        completed_at: row.completed_at,
                        updated_at: row.updated_at,
                        ..known.duplicate()
                    }
                },
            |known: &DevelopmentCiCheckRow| -> (yes: bool)
                ensures yes == check_with_id(row@.id)(known@)
                { same(known.id.as_str(), row.id.as_str()) },
            row.duplicate(),
            "UNIQUE constraint failed: development_ci_checks.id",
            Ghost(check_of(row@.delivery_id, row@.provider_check_id)),
            Ghost(check_becomes(row@)),
            Ghost(check_with_id(row@.id)),
        )
    }

    /// The checks of a delivery.
    pub fn list_ci_checks(&self, delivery_id: &str) -> (list: Vec<DevelopmentCiCheckRow>)
        ensures
            model(list@) == ordered(selected(self@.ci_checks, checks_of(delivery_id@)), by_name()),
    {
        list_where(
            &self.ci_checks,
            |row: &DevelopmentCiCheckRow| -> (yes: bool)
                ensures yes == checks_of(delivery_id@)(row@)
                { same(row.delivery_id.as_str(), delivery_id) },
            |a: &DevelopmentCiCheckRow, b: &DevelopmentCiCheckRow| -> (yes: bool)
                ensures yes == by_name()(a@, b@)
                {
                    before(a.name.as_str(), b.name.as_str())
                        || (
                            same(a.name.as_str(), b.name.as_str())
                                && (
                                    before(
                                        a.provider_check_id.as_str(),
                                        b.provider_check_id.as_str(),
                                    )
                                )
                        )
                },
            Ghost(checks_of(delivery_id@)),
            Ghost(by_name()),
        )
    }
}

// ----------------------------------------------------------------------------
// What the development tables promise
// ----------------------------------------------------------------------------

/// A part that is given out again changes nothing.
pub proof fn law_role_is_given_once(roles: Seq<Role>, role: Role, assigned_at: i64)
    ensures
        ({
            let once = roles_after(roles, role);
            roles_after(once, DevelopmentRunRoleRow { assigned_at, ..role }) == once
        }),
{
    let hit = same_role(role.run_id, role.slot_id, role.role);
    let once = roles_after(roles, role);
    if !exists_in(roles, hit) {
        assert(hit(once[roles.len() as int]));
    }
}

/// A check that is reported again is the same check still: its id, its age and
/// the task that mends what it found stay, unless another task is given.
pub proof fn law_check_keeps_rework(checks: Seq<CiCheck>, new: CiCheck, text: Seq<char>)
    requires
        exists_in(checks, check_of(new.delivery_id, new.provider_check_id)),
    ensures
        ({
            let hit = check_of(new.delivery_id, new.provider_check_id);
            &&& lookup(checks, hit) matches Some(known)
            &&& written(checks, hit, check_becomes(new), check_with_id(new.id), new, text)
                matches Ok(after)
            &&& lookup(after, hit) matches Some(check)
            &&& check.id == known.id
            &&& check.created_at == known.created_at
            &&& check.status == new.status
            &&& check.rework_task_id == (if new.rework_task_id is Some {
                new.rework_task_id
            } else {
                known.rework_task_id
            })
        }),
{
    let hit = check_of(new.delivery_id, new.provider_check_id);
    lemma_lookup(checks, hit);
    law_put_is_found(checks, hit, check_becomes(new), new);
}

/// A run has one delivery: writing it again keeps its id, whose it is and its
/// age.
pub proof fn law_run_has_one_delivery(rows: Seq<Delivery>, new: Delivery, text: Seq<char>)
    requires
        exists_in(rows, delivery_for(new.run_id)),
    ensures
        ({
            let hit = delivery_for(new.run_id);
            &&& lookup(rows, hit) matches Some(known)
            &&& written(rows, hit, delivery_becomes(new), delivery_with_id(new.id), new, text)
                matches Ok(after)
            &&& after.len() == rows.len()
            &&& lookup(after, hit) matches Some(row)
            &&& row.id == known.id
            &&& row.user_id == known.user_id
            &&& row.created_at == known.created_at
            &&& row.status == new.status
        }),
{
    let hit = delivery_for(new.run_id);
    lemma_lookup(rows, hit);
    law_put_is_found(rows, hit, delivery_becomes(new), new);
}

/// A run, and its status, are out of reach for other users.
pub proof fn law_runs_are_private(
    runs: Seq<Run>,
    run_id: Seq<char>,
    user_id: Seq<char>,
    status: Seq<char>,
    finished_at: Option<i64>,
    now: i64,
    i: int,
)
    requires
        0 <= i < runs.len(),
        runs[i].user_id != user_id,
    ensures
        !run_of(run_id, user_id)(runs[i]),
        updated(runs, run_of(run_id, user_id), run_becomes(status, finished_at, now))[i] == runs[i],
{
}

} // verus!

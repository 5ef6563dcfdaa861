//! What operations on development runs come to, told by the rows.
use crate::development::rows::{Artifact, CiCheck, Delivery, Finding, Gate, Role, Run, Task};
use crate::development::store::{
    artifact_order, artifacts_of, by_name, by_role, check_becomes, check_of, checks_of,
    delivery_becomes, delivery_for, delivery_of, finding_becomes, finding_of, finding_order,
    findings_of, fresh_first, gate_becomes, gate_of, gate_order, gates_of, roles_after, roles_of,
    run_becomes, run_of, runs_of, same_role, task_becomes, task_of, task_order, tasks_of,
};
use crate::table::{
    law_full_listing, law_put, lemma_lookup, lemma_orders_by, lookup, ordered, orders, put,
    selected, updated,
};
use crate::text::{lemma_text_order, lemma_text_transitive, text_before};
use vstd::prelude::*;

verus! {

/// A run is found only for its user, and is found wherever the user has it.
pub proof fn law_run_is_for_its_user(
    rows: Seq<Run>,
    id: Seq<char>,
    user: Seq<char>,
)
    ensures
        lookup(rows, run_of(id, user)) matches Some(row) ==> rows.contains(row)
            && row.id == id && row.user_id == user,
        lookup(rows, run_of(id, user)) is None ==> forall|i: int|
            0 <= i < rows.len() ==> !((#[trigger] rows[i]).id == id && rows[i].user_id == user),
{
    let hit = run_of(id, user);
    lemma_lookup(rows, hit);
    if lookup(rows, hit) is None {
        assert forall|i: int| 0 <= i < rows.len() implies !(
        (#[trigger] rows[i]).id == id && rows[i].user_id == user) by {
            assert(!hit(rows[i]));
        }
    }
}

/// The list of runs holds exactly the user's, of the project that is named, the one
/// that changed last first.
pub proof fn law_runs_are_listed(
    rows: Seq<Run>,
    user: Seq<char>,
    project: Option<Seq<char>>,
)
    ensures
        ({
            let list = ordered(selected(rows, runs_of(user, project)), fresh_first());
            &&& forall|row: Run| #[trigger]
                list.contains(row) <==> rows.contains(row) && row.user_id == user && (
                project is Some ==> row.project_id == project->0)
            &&& forall|i: int, j: int|
                0 <= i < j < list.len() ==> (#[trigger] list[i]).updated_at >= (
                #[trigger] list[j]).updated_at
        }),
{
    let less = fresh_first();
    let hit = runs_of(user, project);
    let list = ordered(selected(rows, hit), less);
    lemma_orders_by(less, |a: Run| -(a.updated_at as int), |a: Run| a.id, false);
    law_full_listing(rows, hit, less);
    assert forall|i: int, j: int| 0 <= i < j < list.len() implies (
    #[trigger] list[i]).updated_at >= (#[trigger] list[j]).updated_at by {
        assert(!less(list[j], list[i]));
    }
}

/// A new status of the user's run says so, when it was and when the run finished;
/// nothing else of it or of any other run changes.
pub proof fn law_run_turns(
    rows: Seq<Run>,
    id: Seq<char>,
    user: Seq<char>,
    status: Seq<char>,
    finished_at: Option<i64>,
    now: i64,
    i: int,
)
    requires
        0 <= i < rows.len(),
    ensures
        ({
            let after = updated(rows, run_of(id, user), run_becomes(status, finished_at, now));
            let own = rows[i].id == id && rows[i].user_id == user;
            &&& after.len() == rows.len()
            &&& !own ==> after[i] == rows[i]
            &&& own ==> {
                &&& after[i].id == rows[i].id
                &&& after[i].user_id == rows[i].user_id
                &&& after[i].project_id == rows[i].project_id
                &&& after[i].team_id == rows[i].team_id
                &&& after[i].source_channel == rows[i].source_channel
                &&& after[i].source_user_id == rows[i].source_user_id
                &&& after[i].execution_mode == rows[i].execution_mode
                &&& after[i].request_summary == rows[i].request_summary
                &&& after[i].acceptance_criteria == rows[i].acceptance_criteria
                &&& after[i].baseline_commit == rows[i].baseline_commit
                &&& after[i].integration_branch == rows[i].integration_branch
                &&& after[i].started_at == rows[i].started_at
                &&& after[i].created_at == rows[i].created_at
                &&& after[i].status == status
                &&& after[i].finished_at == finished_at
                &&& after[i].updated_at == now
            }
        }),
{
}

/// Assigning a role that a slot has already changes nothing; any other is added as
/// it is given.
pub proof fn law_role_is_assigned(rows: Seq<Role>, new: Role)
    ensures
        (exists|i: int|
            0 <= i < rows.len() && (#[trigger] rows[i]).run_id == new.run_id && rows[i].slot_id
                == new.slot_id && rows[i].role == new.role) ==> roles_after(rows, new) == rows,
        (forall|i: int|
            0 <= i < rows.len() ==> !((#[trigger] rows[i]).run_id == new.run_id && rows[i].slot_id
                == new.slot_id && rows[i].role == new.role)) ==> roles_after(rows, new)
            == rows.push(new),
{
    let hit = same_role(new.run_id, new.slot_id, new.role);
    if exists|i: int|
        0 <= i < rows.len() && (#[trigger] rows[i]).run_id == new.run_id && rows[i].slot_id
            == new.slot_id && rows[i].role == new.role {
        let i = choose|i: int|
            0 <= i < rows.len() && (#[trigger] rows[i]).run_id == new.run_id && rows[i].slot_id
                == new.slot_id && rows[i].role == new.role;
        assert(hit(rows[i]));
    }
}

proof fn lemma_by_role()
    ensures
        orders(by_role()),
{
    let less = by_role();
    assert forall|a: Role, b: Role| #[trigger] less(a, b) implies !less(b, a) by {
        lemma_text_order(a.role, b.role);
        lemma_text_order(a.slot_id, b.slot_id);
    }
    assert forall|a: Role, b: Role, c: Role| #[trigger] less(a, c) && !less(b, c)
        implies #[trigger] less(a, b) by {
        lemma_text_order(a.role, b.role);
        lemma_text_order(a.role, c.role);
        lemma_text_order(b.role, c.role);
        lemma_text_order(a.slot_id, b.slot_id);
        lemma_text_order(a.slot_id, c.slot_id);
        lemma_text_order(b.slot_id, c.slot_id);
        if text_before(a.role, c.role) && text_before(c.role, b.role) {
            lemma_text_transitive(a.role, c.role, b.role);
        }
        if text_before(a.slot_id, c.slot_id) && text_before(
            c.slot_id,
            b.slot_id,
        ) {
            lemma_text_transitive(a.slot_id, c.slot_id, b.slot_id);
        }
    }
}

proof fn lemma_by_name()
    ensures
        orders(by_name()),
{
    let less = by_name();
    assert forall|a: CiCheck, b: CiCheck| #[trigger] less(a, b) implies !less(b, a) by {
        lemma_text_order(a.name, b.name);
        lemma_text_order(a.provider_check_id, b.provider_check_id);
    }
    assert forall|a: CiCheck, b: CiCheck, c: CiCheck| #[trigger] less(a, c) && !less(b, c)
        implies #[trigger] less(a, b) by {
        lemma_text_order(a.name, b.name);
        lemma_text_order(a.name, c.name);
        lemma_text_order(b.name, c.name);
        lemma_text_order(a.provider_check_id, b.provider_check_id);
        lemma_text_order(a.provider_check_id, c.provider_check_id);
        lemma_text_order(b.provider_check_id, c.provider_check_id);
        if text_before(a.name, c.name) && text_before(c.name, b.name) {
            lemma_text_transitive(a.name, c.name, b.name);
        }
        if text_before(a.provider_check_id, c.provider_check_id) && text_before(
            c.provider_check_id,
            b.provider_check_id,
        ) {
            lemma_text_transitive(a.provider_check_id, c.provider_check_id, b.provider_check_id);
        }
    }
}

/// The list of roles holds exactly those of the run, in the order of their names.
pub proof fn law_roles_are_listed(
    rows: Seq<Role>,
    run: Seq<char>,
)
    ensures
        ({
            let list = ordered(selected(rows, roles_of(run)), by_role());
            &&& forall|row: Role| #[trigger]
                list.contains(row) <==> rows.contains(row) && row.run_id == run
            &&& forall|i: int, j: int|
                0 <= i < j < list.len() ==> !text_before(
                    (#[trigger] list[j]).role,
                    (#[trigger] list[i]).role,
                )
        }),
{
    let less = by_role();
    let hit = roles_of(run);
    let list = ordered(selected(rows, hit), less);
    lemma_by_role();
    law_full_listing(rows, hit, less);
    assert forall|i: int, j: int| 0 <= i < j < list.len() implies !text_before(
        (#[trigger] list[j]).role,
        (#[trigger] list[i]).role,
    ) by {
        assert(!less(list[j], list[i]));
    }
}

/// A task is found only in its run, and is found wherever the run has it.
pub proof fn law_task_is_of_its_run(
    rows: Seq<Task>,
    run: Seq<char>,
    id: Seq<char>,
)
    ensures
        lookup(rows, task_of(run, id)) matches Some(row) ==> rows.contains(row)
            && row.run_id == Some(run) && row.id == id,
        lookup(rows, task_of(run, id)) is None ==> forall|i: int|
            0 <= i < rows.len() ==> !((#[trigger] rows[i]).run_id == Some(run) && rows[i].id == id),
{
    let hit = task_of(run, id);
    lemma_lookup(rows, hit);
    if lookup(rows, hit) is None {
        assert forall|i: int| 0 <= i < rows.len() implies !(
        (#[trigger] rows[i]).run_id == Some(run) && rows[i].id == id) by {
            assert(!hit(rows[i]));
        }
    }
}

/// The list of tasks holds exactly those of the run, the oldest first.
pub proof fn law_tasks_are_listed(
    rows: Seq<Task>,
    run: Seq<char>,
)
    ensures
        ({
            let list = ordered(selected(rows, tasks_of(run)), task_order());
            &&& forall|row: Task| #[trigger]
                list.contains(row) <==> rows.contains(row) && row.run_id == Some(run)
            &&& forall|i: int, j: int|
                0 <= i < j < list.len() ==> (#[trigger] list[i]).created_at <= (
                #[trigger] list[j]).created_at
        }),
{
    let less = task_order();
    let hit = tasks_of(run);
    let list = ordered(selected(rows, hit), less);
    lemma_orders_by(less, |a: Task| a.created_at as int, |a: Task| a.id, false);
    law_full_listing(rows, hit, less);
    assert forall|i: int, j: int| 0 <= i < j < list.len() implies (
    #[trigger] list[i]).created_at <= (#[trigger] list[j]).created_at by {
        assert(!less(list[j], list[i]));
    }
}

/// A new state of a task of the run says how it stands, how its review does and how
/// its verification does; nothing else of it or of any other task changes.
pub proof fn law_task_turns(
    rows: Seq<Task>,
    run: Seq<char>,
    id: Seq<char>,
    status: Seq<char>,
    review: Seq<char>,
    verification: Seq<char>,
    now: i64,
    i: int,
)
    requires
        0 <= i < rows.len(),
    ensures
        ({
            let after = updated(
                rows,
                task_of(run, id),
                task_becomes(status, review, verification, now),
            );
            let own = rows[i].run_id == Some(run) && rows[i].id == id;
            &&& after.len() == rows.len()
            &&& !own ==> after[i] == rows[i]
            &&& own ==> {
                &&& after[i].id == rows[i].id
                &&& after[i].team_id == rows[i].team_id
                &&& after[i].run_id == rows[i].run_id
                &&& after[i].subject == rows[i].subject
                &&& after[i].description == rows[i].description
                &&& after[i].owner == rows[i].owner
                &&& after[i].blocked_by == rows[i].blocked_by
                &&& after[i].blocks == rows[i].blocks
                &&& after[i].metadata == rows[i].metadata
                &&& after[i].acceptance_criteria == rows[i].acceptance_criteria
                &&& after[i].task_type == rows[i].task_type
                &&& after[i].risk_level == rows[i].risk_level
                &&& after[i].assigned_workspace_lease_id == rows[i].assigned_workspace_lease_id
                &&& after[i].created_at == rows[i].created_at
                &&& after[i].status == status
                &&& after[i].review_status == review
                &&& after[i].verification_status == verification
                &&& after[i].updated_at == now
            }
        }),
{
}

/// The list of artifacts holds exactly those of the run, of the task that is named,
/// the oldest first.
pub proof fn law_artifacts_are_listed(
    rows: Seq<Artifact>,
    run: Seq<char>,
    task: Option<Seq<char>>,
)
    ensures
        ({
            let list = ordered(selected(rows, artifacts_of(run, task)), artifact_order());
            &&& forall|row: Artifact| #[trigger]
                list.contains(row) <==> rows.contains(row) && row.run_id == run && (
                task is Some ==> row.task_id == task)
            &&& forall|i: int, j: int|
                0 <= i < j < list.len() ==> (#[trigger] list[i]).created_at <= (
                #[trigger] list[j]).created_at
        }),
{
    let less = artifact_order();
    let hit = artifacts_of(run, task);
    let list = ordered(selected(rows, hit), less);
    lemma_orders_by(less, |a: Artifact| a.created_at as int, |a: Artifact| a.id, false);
    law_full_listing(rows, hit, less);
    assert forall|i: int, j: int| 0 <= i < j < list.len() implies (
    #[trigger] list[i]).created_at <= (#[trigger] list[j]).created_at by {
        assert(!less(list[j], list[i]));
    }
}

/// The list of quality checks holds exactly those of the run, of the task that is
/// named, the oldest first.
pub proof fn law_gates_are_listed(
    rows: Seq<Gate>,
    run: Seq<char>,
    task: Option<Seq<char>>,
)
    ensures
        ({
            let list = ordered(selected(rows, gates_of(run, task)), gate_order());
            &&& forall|row: Gate| #[trigger]
                list.contains(row) <==> rows.contains(row) && row.run_id == run && (
                task is Some ==> row.task_id == task)
            &&& forall|i: int, j: int|
                0 <= i < j < list.len() ==> (#[trigger] list[i]).created_at <= (
                #[trigger] list[j]).created_at
        }),
{
    let less = gate_order();
    let hit = gates_of(run, task);
    let list = ordered(selected(rows, hit), less);
    lemma_orders_by(less, |a: Gate| a.created_at as int, |a: Gate| a.id, false);
    law_full_listing(rows, hit, less);
    assert forall|i: int, j: int| 0 <= i < j < list.len() implies (
    #[trigger] list[i]).created_at <= (#[trigger] list[j]).created_at by {
        assert(!less(list[j], list[i]));
    }
}

/// What came of a quality check of the run is what is reported of it; what was
/// checked, and how, stays, and no other check changes.
pub proof fn law_quality_check_ends(
    rows: Seq<Gate>,
    new: Gate,
    i: int,
)
    requires
        0 <= i < rows.len(),
    ensures
        ({
            let after = updated(rows, gate_of(new.id, new.run_id), gate_becomes(new));
            let own = rows[i].id == new.id && rows[i].run_id == new.run_id;
            &&& after.len() == rows.len()
            &&& !own ==> after[i] == rows[i]
            &&& own ==> {
                &&& after[i].id == rows[i].id
                &&& after[i].run_id == rows[i].run_id
                &&& after[i].task_id == rows[i].task_id
                &&& after[i].gate_type == rows[i].gate_type
                &&& after[i].command == rows[i].command
                &&& after[i].working_directory == rows[i].working_directory
                &&& after[i].created_at == rows[i].created_at
                &&& after[i].exit_code == new.exit_code
                &&& after[i].status == new.status
                &&& after[i].stdout_artifact_id == new.stdout_artifact_id
                &&& after[i].stderr_artifact_id == new.stderr_artifact_id
                &&& after[i].duration_ms == new.duration_ms
                &&& after[i].isolation_mode == new.isolation_mode
                &&& after[i].execution_id == new.execution_id
                &&& after[i].required == new.required
                &&& after[i].started_at == new.started_at
                &&& after[i].finished_at == new.finished_at
            }
        }),
{
}

/// The list of findings holds exactly those of the run and the task, the oldest
/// first.
pub proof fn law_findings_are_listed(
    rows: Seq<Finding>,
    run: Seq<char>,
    task: Seq<char>,
)
    ensures
        ({
            let list = ordered(selected(rows, findings_of(run, task)), finding_order());
            &&& forall|row: Finding| #[trigger]
                list.contains(row) <==> rows.contains(row) && row.run_id == run && row.task_id
                    == task
            &&& forall|i: int, j: int|
                0 <= i < j < list.len() ==> (#[trigger] list[i]).created_at <= (
                #[trigger] list[j]).created_at
        }),
{
    let less = finding_order();
    let hit = findings_of(run, task);
    let list = ordered(selected(rows, hit), less);
    lemma_orders_by(less, |a: Finding| a.created_at as int, |a: Finding| a.id, false);
    law_full_listing(rows, hit, less);
    assert forall|i: int, j: int| 0 <= i < j < list.len() implies (
    #[trigger] list[i]).created_at <= (#[trigger] list[j]).created_at by {
        assert(!less(list[j], list[i]));
    }
}

/// A new status of a finding of the run says so, and when; nothing else of it or of
/// any other finding changes.
pub proof fn law_finding_turns(
    rows: Seq<Finding>,
    run: Seq<char>,
    id: Seq<char>,
    status: Seq<char>,
    now: i64,
    i: int,
)
    requires
        0 <= i < rows.len(),
    ensures
        ({
            let after = updated(rows, finding_of(run, id), finding_becomes(status, now));
            let own = rows[i].id == id && rows[i].run_id == run;
            &&& after.len() == rows.len()
            &&& !own ==> after[i] == rows[i]
            &&& own ==> {
                &&& after[i].id == rows[i].id
                &&& after[i].run_id == rows[i].run_id
                &&& after[i].task_id == rows[i].task_id
                &&& after[i].reviewer_agent_id == rows[i].reviewer_agent_id
                &&& after[i].producer_agent_id == rows[i].producer_agent_id
                &&& after[i].severity == rows[i].severity
                &&& after[i].file_path == rows[i].file_path
                &&& after[i].line_number == rows[i].line_number
                &&& after[i].reason == rows[i].reason
                &&& after[i].suggestion == rows[i].suggestion
                &&& after[i].created_at == rows[i].created_at
                &&& after[i].status == status
                &&& after[i].updated_at == now
            }
        }),
{
}

/// The delivery of a run takes what is new over and keeps its id, its owner and its
/// age; the first one is added. No other run's delivery changes.
pub proof fn law_delivery_is_saved(rows: Seq<Delivery>, new: Delivery)
    ensures
        ({
            let after = put(rows, delivery_for(new.run_id), delivery_becomes(new), new);
            let own = |row: Delivery| row.run_id == new.run_id;
            &&& forall|i: int|
                0 <= i < rows.len() && !own(rows[i]) ==> #[trigger] after[i] == rows[i]
            &&& forall|i: int|
                0 <= i < rows.len() && own(rows[i]) ==> {
                    &&& own(#[trigger] after[i])
                    &&& after[i].id == rows[i].id
                    &&& after[i].project_id == rows[i].project_id
                    &&& after[i].user_id == rows[i].user_id
                    &&& after[i].created_at == rows[i].created_at
                    &&& after[i].provider == new.provider
                    &&& after[i].repository == new.repository
                    &&& after[i].branch == new.branch
                    &&& after[i].base_branch == new.base_branch
                    &&& after[i].commit_sha == new.commit_sha
                    &&& after[i].status == new.status
                    &&& after[i].push_status == new.push_status
                    &&& after[i].pr_number == new.pr_number
                    &&& after[i].pr_url == new.pr_url
                    &&& after[i].pr_status == new.pr_status
                    &&& after[i].ci_status == new.ci_status
                    &&& after[i].review_status == new.review_status
                    &&& after[i].merge_status == new.merge_status
                    &&& after[i].report_json == new.report_json
                    &&& after[i].last_error == new.last_error
                    &&& after[i].updated_at == new.updated_at
                    &&& after.len() == rows.len()
                }
            &&& (forall|i: int| 0 <= i < rows.len() ==> !own(#[trigger] rows[i])) ==> after
                == rows.push(new)
        }),
{
    law_put(rows, delivery_for(new.run_id), delivery_becomes(new), new);
}

/// A delivery is found only for its user and its run.
pub proof fn law_delivery_is_for_its_user(
    rows: Seq<Delivery>,
    user: Seq<char>,
    run: Seq<char>,
)
    ensures
        lookup(rows, delivery_of(user, run)) matches Some(row) ==> rows.contains(row)
            && row.user_id == user && row.run_id == run,
        lookup(rows, delivery_of(user, run)) is None ==> forall|i: int|
            0 <= i < rows.len() ==> !((#[trigger] rows[i]).user_id == user && rows[i].run_id
                == run),
{
    let hit = delivery_of(user, run);
    lemma_lookup(rows, hit);
    if lookup(rows, hit) is None {
        assert forall|i: int| 0 <= i < rows.len() implies !(
        (#[trigger] rows[i]).user_id == user && rows[i].run_id == run) by {
            assert(!hit(rows[i]));
        }
    }
}

/// A check of a delivery takes what the provider reports over and keeps its id and
/// its age; the first report is added. No other check changes.
pub proof fn law_outside_check_is_saved(rows: Seq<CiCheck>, new: CiCheck)
    ensures
        ({
            let after = put(
                rows,
                check_of(new.delivery_id, new.provider_check_id),
                check_becomes(new),
                new,
            );
            let own = |row: CiCheck|
                row.delivery_id == new.delivery_id && row.provider_check_id
                    == new.provider_check_id;
            &&& forall|i: int|
                0 <= i < rows.len() && !own(rows[i]) ==> #[trigger] after[i] == rows[i]
            &&& forall|i: int|
                0 <= i < rows.len() && own(rows[i]) ==> {
                    &&& own(#[trigger] after[i])
                    &&& after[i].id == rows[i].id
                    &&& after[i].created_at == rows[i].created_at
                    &&& after[i].name == new.name
                    &&& after[i].status == new.status
                    &&& after[i].details_url == new.details_url
                    &&& after[i].summary == new.summary
                    &&& after[i].started_at == new.started_at
                    &&& after[i].completed_at == new.completed_at
                    &&& after[i].updated_at == new.updated_at
                    &&& after.len() == rows.len()
                }
            &&& (forall|i: int| 0 <= i < rows.len() ==> !own(#[trigger] rows[i])) ==> after
                == rows.push(new)
        }),
{
    law_put(rows, check_of(new.delivery_id, new.provider_check_id), check_becomes(new), new);
}

/// The task that reworks what a check found is not forgotten by a later report.
pub proof fn law_rework_is_not_forgotten(rows: Seq<CiCheck>, new: CiCheck, i: int)
    requires
        0 <= i < rows.len(),
        rows[i].delivery_id == new.delivery_id,
        rows[i].provider_check_id == new.provider_check_id,
    ensures
        ({
            let after = put(
                rows,
                check_of(new.delivery_id, new.provider_check_id),
                check_becomes(new),
                new,
            );
            &&& new.rework_task_id is None ==> after[i].rework_task_id == rows[i].rework_task_id
            &&& new.rework_task_id is Some ==> after[i].rework_task_id == new.rework_task_id
        }),
{
    law_put(rows, check_of(new.delivery_id, new.provider_check_id), check_becomes(new), new);
}

/// The list of checks holds exactly those of the delivery, in the order of their
/// names.
pub proof fn law_outside_checks_are_listed(
    rows: Seq<CiCheck>,
    delivery: Seq<char>,
)
    ensures
        ({
            let list = ordered(selected(rows, checks_of(delivery)), by_name());
            &&& forall|row: CiCheck| #[trigger]
                list.contains(row) <==> rows.contains(row) && row.delivery_id == delivery
            &&& forall|i: int, j: int|
                0 <= i < j < list.len() ==> !text_before(
                    (#[trigger] list[j]).name,
                    (#[trigger] list[i]).name,
                )
        }),
{
    let less = by_name();
    let hit = checks_of(delivery);
    let list = ordered(selected(rows, hit), less);
    lemma_by_name();
    law_full_listing(rows, hit, less);
    assert forall|i: int, j: int| 0 <= i < j < list.len() implies !text_before(
        (#[trigger] list[j]).name,
        (#[trigger] list[i]).name,
    ) by {
        assert(!less(list[j], list[i]));
    }
}

} // verus!

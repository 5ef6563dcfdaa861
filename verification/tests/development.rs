//! Development runs, their tasks and how their work is checked and delivered.
use aionui_db::development::rows::{
    DevelopmentCiCheckRow, DevelopmentDeliveryRow, DevelopmentRunRoleRow, DevelopmentRunRow,
    DevelopmentTaskRow, QualityGateRunRow, ReviewFindingRow, TaskArtifactRow,
};
use aionui_db::development::store::DevelopmentStore;
use aionui_db::error::DbError;

fn empty() -> DevelopmentStore {
    DevelopmentStore {
        runs: Vec::new(),
        roles: Vec::new(),
        tasks: Vec::new(),
        artifacts: Vec::new(),
        gates: Vec::new(),
        findings: Vec::new(),
        deliveries: Vec::new(),
        ci_checks: Vec::new(),
    }
}

fn run(id: &str, user: &str, project: &str, updated_at: i64) -> DevelopmentRunRow {
    DevelopmentRunRow {
        id: id.into(),
        user_id: user.into(),
        project_id: project.into(),
        team_id: None,
        source_channel: None,
        source_user_id: None,
        execution_mode: "team".into(),
        status: "running".into(),
        request_summary: "do it".into(),
        acceptance_criteria: "[]".into(),
        baseline_commit: None,
        integration_branch: None,
        started_at: None,
        finished_at: None,
        created_at: 1,
        updated_at,
    }
}

fn task(id: &str, run_id: &str, created_at: i64) -> DevelopmentTaskRow {
    DevelopmentTaskRow {
        id: id.into(),
        team_id: "team".into(),
        run_id: Some(run_id.into()),
        subject: "subject".into(),
        description: None,
        status: "todo".into(),
        owner: None,
        blocked_by: "[]".into(),
        blocks: "[]".into(),
        metadata: None,
        acceptance_criteria: "[]".into(),
        task_type: "code".into(),
        risk_level: "low".into(),
        assigned_workspace_lease_id: None,
        review_status: "open".into(),
        verification_status: "open".into(),
        created_at,
        updated_at: created_at,
    }
}

#[test]
fn runs_are_seen_and_changed_by_their_user_alone() {
    let mut store = empty();
    store.create_run(&run("r1", "user-1", "p1", 5)).unwrap();
    store.create_run(&run("r2", "user-1", "p2", 9)).unwrap();
    store.create_run(&run("r3", "user-2", "p1", 7)).unwrap();
    let ids = |rows: Vec<DevelopmentRunRow>| rows.into_iter().map(|row| row.id).collect::<Vec<_>>();
    assert_eq!(ids(store.list_runs("user-1", None)), ["r2", "r1"]);
    assert_eq!(ids(store.list_runs("user-1", Some("p1"))), ["r1"]);
    assert!(!store.update_run_status("r1", "user-2", "done", Some(20), 21));
    assert_eq!(store.get_run("r1", "user-2"), None);
    assert!(store.update_run_status("r1", "user-1", "done", Some(20), 21));
    let row = store.get_run("r1", "user-1").unwrap();
    assert_eq!((row.status.as_str(), row.finished_at, row.updated_at), ("done", Some(20), 21));
    assert_eq!(
        store.create_run(&run("r1", "user-9", "p9", 1)),
        Err(DbError::Query("UNIQUE constraint failed: development_runs.id".into())),
    );
}

#[test]
fn a_part_is_given_out_once() {
    let mut store = empty();
    let role = |slot: &str, role: &str, at: i64| DevelopmentRunRoleRow {
        run_id: "r1".into(),
        slot_id: slot.into(),
        role: role.into(),
        assigned_at: at,
    };
    store.assign_role(&role("s1", "writer", 1));
    store.assign_role(&role("s1", "writer", 9));
    store.assign_role(&role("s2", "reader", 2));
    store.assign_role(&role("s1", "reader", 3));
    let rows = store.list_roles("r1");
    assert_eq!(rows, [role("s1", "reader", 3), role("s2", "reader", 2), role("s1", "writer", 1)]);
}

#[test]
fn tasks_move_within_their_run() {
    let mut store = empty();
    store.create_task(&task("t2", "r1", 2)).unwrap();
    store.create_task(&task("t1", "r1", 2)).unwrap();
    store.create_task(&task("t0", "r2", 1)).unwrap();
    let ids: Vec<String> = store.list_tasks("r1").into_iter().map(|row| row.id).collect();
    assert_eq!(ids, ["t1", "t2"]);
    assert!(!store.update_task_state("r2", "t1", "done", "passed", "passed", 9));
    assert!(store.update_task_state("r1", "t1", "done", "passed", "failed", 9));
    let row = store.get_task("r1", "t1").unwrap();
    assert_eq!(row.status, "done");
    assert_eq!(row.review_status, "passed");
    assert_eq!(row.verification_status, "failed");
    assert_eq!(row.updated_at, 9);
    assert_eq!(store.get_task("r2", "t1"), None);
}

#[test]
fn artifacts_and_findings_are_listed_by_age() {
    let mut store = empty();
    let artifact = |id: &str, task: Option<&str>, at: i64| TaskArtifactRow {
        id: id.into(),
        run_id: "r1".into(),
        task_id: task.map(str::to_owned),
        artifact_type: "log".into(),
        path_or_uri: "file".into(),
        checksum: None,
        producer_agent_id: None,
        metadata: "{}".into(),
        created_at: at,
    };
    store.create_artifact(&artifact("b", Some("t1"), 2)).unwrap();
    store.create_artifact(&artifact("a", None, 1)).unwrap();
    let ids = |rows: Vec<TaskArtifactRow>| rows.into_iter().map(|row| row.id).collect::<Vec<_>>();
    assert_eq!(ids(store.list_artifacts("r1", None)), ["a", "b"]);
    assert_eq!(ids(store.list_artifacts("r1", Some("t1"))), ["b"]);

    let finding = |id: &str, at: i64| ReviewFindingRow {
        id: id.into(),
        run_id: "r1".into(),
        task_id: "t1".into(),
        reviewer_agent_id: "reader".into(),
        producer_agent_id: "writer".into(),
        severity: "high".into(),
        file_path: None,
        line_number: None,
        reason: "wrong".into(),
        suggestion: None,
        status: "open".into(),
        created_at: at,
        updated_at: at,
    };
    store.create_finding(&finding("f2", 2)).unwrap();
    store.create_finding(&finding("f1", 1)).unwrap();
    assert!(store.update_finding_status("r1", "f2", "fixed", 8));
    assert!(!store.update_finding_status("r9", "f2", "fixed", 8));
    let states: Vec<String> =
        store.list_findings("r1", "t1").into_iter().map(|row| row.status).collect();
    assert_eq!(states, ["open", "fixed"]);
}

fn gate(id: &str, status: &str) -> QualityGateRunRow {
    QualityGateRunRow {
        id: id.into(),
        run_id: "r1".into(),
        task_id: None,
        gate_type: "test".into(),
        command: "cargo test".into(),
        working_directory: "/".into(),
        exit_code: None,
        status: status.into(),
        stdout_artifact_id: None,
        stderr_artifact_id: None,
        duration_ms: None,
        isolation_mode: "native".into(),
        execution_id: None,
        required: true,
        started_at: None,
        finished_at: None,
        created_at: 1,
    }
}

#[test]
fn a_run_of_a_quality_check_changes_its_outcome_alone() {
    let mut store = empty();
    store.create_gate(&gate("g1", "pending")).unwrap();
    let outcome = QualityGateRunRow {
        command: "something else".into(),
        exit_code: Some(0),
        created_at: 99,
        ..gate("g1", "passed")
    };
    assert!(store.update_gate(&outcome));
    let row = &store.list_gates("r1", None)[0];
    assert_eq!(row.status, "passed");
    assert_eq!(row.exit_code, Some(0));
    assert_eq!(row.command, "cargo test");
    assert_eq!(row.created_at, 1);
    assert!(!store.update_gate(&gate("g2", "passed")));
    assert!(store.list_gates("r1", Some("t1")).is_empty());
}

fn delivery(id: &str, run_id: &str, status: &str, at: i64) -> DevelopmentDeliveryRow {
    DevelopmentDeliveryRow {
        id: id.into(),
        run_id: run_id.into(),
        project_id: "p1".into(),
        user_id: "user-1".into(),
        provider: "github".into(),
        repository: "repo".into(),
        branch: "work".into(),
        base_branch: "main".into(),
        commit_sha: None,
        status: status.into(),
        push_status: "none".into(),
        pr_number: None,
        pr_url: None,
        pr_status: "none".into(),
        ci_status: "none".into(),
        review_status: "none".into(),
        merge_status: "none".into(),
        report_json: "{}".into(),
        last_error: None,
        created_at: at,
        updated_at: at,
    }
}

#[test]
fn a_run_has_one_delivery() {
    let mut store = empty();
    store.upsert_delivery(&delivery("d1", "r1", "draft", 1)).unwrap();
    store.upsert_delivery(&delivery("d2", "r1", "pushed", 5)).unwrap();
    assert_eq!(store.deliveries.len(), 1);
    let row = store.get_delivery("user-1", "r1").unwrap();
    assert_eq!((row.id.as_str(), row.status.as_str()), ("d1", "pushed"));
    assert_eq!((row.created_at, row.updated_at), (1, 5));
    assert_eq!(store.get_delivery("user-2", "r1"), None);
    assert_eq!(
        store.upsert_delivery(&delivery("d1", "r2", "draft", 1)),
        Err(DbError::Query("UNIQUE constraint failed: development_deliveries.id".into())),
    );
}

#[test]
fn a_reported_check_keeps_the_task_that_mends_it() {
    let mut store = empty();
    let check = |id: &str, status: &str, rework: Option<&str>| DevelopmentCiCheckRow {
        id: id.into(),
        delivery_id: "d1".into(),
        provider_check_id: "77".into(),
        name: "build".into(),
        status: status.into(),
        details_url: None,
        summary: None,
        rework_task_id: rework.map(str::to_owned),
        started_at: None,
        completed_at: None,
        created_at: 1,
        updated_at: 1,
    };
    store.upsert_ci_check(&check("c1", "failed", Some("t1"))).unwrap();
    store.upsert_ci_check(&check("c2", "passed", None)).unwrap();
    let rows = store.list_ci_checks("d1");
    assert_eq!(rows.len(), 1);
    assert_eq!(rows[0].id, "c1");
    assert_eq!(rows[0].status, "passed");
    assert_eq!(rows[0].rework_task_id.as_deref(), Some("t1"));
    store.upsert_ci_check(&check("c3", "failed", Some("t2"))).unwrap();
    assert_eq!(store.list_ci_checks("d1")[0].rework_task_id.as_deref(), Some("t2"));
}

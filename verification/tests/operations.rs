//! Running development: usage, alerts, recovery, held resources and secrets.
use aionui_db::development::rows::DevelopmentRunRow;
use aionui_db::error::DbError;
use aionui_db::operations::rows::{
    DevelopmentAlertRow, DevelopmentAuditEventRow, DevelopmentModelPriceRow, DevelopmentPolicyRow,
    DevelopmentPricedUsageEventRow, DevelopmentRecoveryRecordRow, DevelopmentSecretGrantRow,
    DevelopmentSecretRow, DevelopmentUsageDimensionSummary, DevelopmentUsageEventRow,
    DevelopmentUsageSummary, ExecutionResourceLeaseRow, PriceColumns, UsageDimension,
};
use aionui_db::operations::store::{clamp_limit, OperationsStore};

fn empty() -> OperationsStore {
    OperationsStore {
        policies: Vec::new(),
        usage: Vec::new(),
        usage_defaults: PriceColumns {
            cache_read_tokens: 0,
            cache_write_tokens: 0,
            cost_status: "known".into(),
            cost_origin: None,
        },
        audit: Vec::new(),
        alerts: Vec::new(),
        recoveries: Vec::new(),
        runs: Vec::new(),
        leases: Vec::new(),
        environments: Vec::new(),
        secrets: Vec::new(),
        grants: Vec::new(),
        prices: Vec::new(),
    }
}

fn usage(id: &str, run_id: Option<&str>, tokens: i64, at: i64) -> DevelopmentUsageEventRow {
    DevelopmentUsageEventRow {
        id: id.into(),
        user_id: "user-1".into(),
        project_id: "p1".into(),
        run_id: run_id.map(str::to_owned),
        task_id: None,
        usage_type: "model".into(),
        source: "provider".into(),
        confidence: "exact".into(),
        input_tokens: tokens,
        output_tokens: 2 * tokens,
        cost_microunits: Some(10 * tokens),
        duration_ms: 5,
        retry_count: 1,
        metadata_json: "{}".into(),
        created_at: at,
    }
}

fn priced(id: &str, conversation: &str, cost_status: &str, cost: Option<i64>, at: i64) -> DevelopmentPricedUsageEventRow {
    DevelopmentPricedUsageEventRow {
        id: id.into(),
        user_id: "user-1".into(),
        project_id: "p1".into(),
        run_id: None,
        task_id: Some("t1".into()),
        conversation_id: Some(conversation.into()),
        agent_id: Some("agent".into()),
        team_id: Some("team".into()),
        usage_type: "model".into(),
        source: "provider".into(),
        confidence: "exact".into(),
        provider: Some("acme".into()),
        model: Some("m".into()),
        input_tokens: 3,
        output_tokens: 4,
        cache_read_tokens: 5,
        cache_write_tokens: 6,
        cost_microunits: cost,
        cost_status: cost_status.into(),
        cost_origin: None,
        price_source_id: None,
        price_version: None,
        price_effective_at: None,
        duration_ms: 7,
        retry_count: 0,
        metadata_json: "{}".into(),
        created_at: at,
    }
}

#[test]
fn uses_add_up_for_a_project_and_for_a_run() {
    let mut store = empty();
    store.append_usage(&usage("u1", Some("r1"), 1, 1)).unwrap();
    store.append_usage(&usage("u2", Some("r2"), 20, 2)).unwrap();
    store.append_usage(&DevelopmentUsageEventRow { cost_microunits: None, ..usage("u3", None, 300, 3) }).unwrap();
    assert_eq!(
        store.summarize_usage("user-1", "p1", None),
        Ok(DevelopmentUsageSummary {
            event_count: 3,
            input_tokens: 321,
            output_tokens: 642,
            cost_microunits: 210,
            duration_ms: 15,
            retry_count: 3,
        }),
    );
    assert_eq!(store.summarize_usage("user-1", "p1", Some("r2")).unwrap().input_tokens, 20);
    assert_eq!(store.summarize_usage("user-2", "p1", None).unwrap().event_count, 0);
    let ids: Vec<String> =
        store.list_usage("user-1", "p1", None, 2).into_iter().map(|row| row.id).collect();
    assert_eq!(ids, ["u3", "u2"]);
    assert_eq!(store.list_usage("user-1", "p1", Some("r1"), 0), [usage("u1", Some("r1"), 1, 1)]);
}

#[test]
fn a_sum_out_of_range_is_an_error() {
    let mut store = empty();
    let big = |id: &str| DevelopmentUsageEventRow {
        output_tokens: 0,
        cost_microunits: None,
        input_tokens: i64::MAX,
        ..usage(id, None, 1, 1)
    };
    store.append_usage(&big("u1")).unwrap();
    assert_eq!(store.summarize_usage("user-1", "p1", None).unwrap().input_tokens, i64::MAX);
    store.append_usage(&big("u2")).unwrap();
    let overflow = DbError::Query("integer overflow".into());
    assert_eq!(store.summarize_usage("user-1", "p1", None), Err(overflow.clone()));
    assert_eq!(
        store.summarize_usage_dimension("user-1", &UsageDimension::Project("p1".into())),
        Err(overflow),
    );
}

#[test]
fn a_use_is_counted_once() {
    let mut store = empty();
    let row = priced("u1", "conv", "known", Some(9), 1);
    assert!(store.append_priced_usage_once(&row));
    assert!(!store.append_priced_usage_once(&row));
    assert_eq!(store.usage.len(), 1);
    assert_eq!(
        store.append_priced_usage(&row),
        Err(DbError::Query("UNIQUE constraint failed: development_usage_events.id".into())),
    );
}

#[test]
fn known_and_unknown_costs_are_summed_apart() {
    let mut store = empty();
    store.append_priced_usage(&priced("u1", "conv", "known", Some(9), 1)).unwrap();
    store.append_priced_usage(&priced("u2", "conv", "unknown", Some(50), 2)).unwrap();
    store.append_priced_usage(&priced("u3", "other", "known", None, 3)).unwrap();
    let wanted = DevelopmentUsageDimensionSummary {
        event_count: 2,
        input_tokens: 6,
        output_tokens: 8,
        cache_read_tokens: 10,
        cache_write_tokens: 12,
        known_cost_microunits: 9,
        unknown_cost_events: 1,
        duration_ms: 14,
        retry_count: 0,
    };
    assert_eq!(
        store.summarize_usage_dimension("user-1", &UsageDimension::Conversation("conv".into())),
        Ok(wanted),
    );
    for dimension in [
        UsageDimension::Project("p1".into()),
        UsageDimension::Task("t1".into()),
        UsageDimension::Agent("agent".into()),
        UsageDimension::Team("team".into()),
    ] {
        assert_eq!(store.summarize_usage_dimension("user-1", &dimension).unwrap().event_count, 3);
    }
    let none = store.summarize_usage_dimension("user-1", &UsageDimension::Run("r".into())).unwrap();
    assert_eq!(none.event_count, 0);
    let latest = store.latest_priced_usage_for_conversation("user-1", "conv").unwrap();
    assert_eq!(latest.id, "u2");
    assert_eq!(store.latest_priced_usage_for_conversation("user-2", "conv"), None);
}

#[test]
fn lists_are_bounded() {
    assert_eq!(clamp_limit(-5, 200), 1);
    assert_eq!(clamp_limit(0, 200), 1);
    assert_eq!(clamp_limit(7, 200), 7);
    assert_eq!(clamp_limit(201, 200), 200);
    let mut store = empty();
    for at in 0..250 {
        store
            .append_audit(&DevelopmentAuditEventRow {
                id: format!("e{at:03}"),
                user_id: "user-1".into(),
                actor_type: "user".into(),
                actor_id: "user-1".into(),
                action: "read".into(),
                target_type: "run".into(),
                target_id: None,
                project_id: Some("p1".into()),
                run_id: None,
                task_id: None,
                result: "ok".into(),
                redacted_payload_json: "{}".into(),
                created_at: at,
            })
            .unwrap();
    }
    let rows = store.list_audit("user-1", "p1", None, 1_000);
    assert_eq!(rows.len(), 200);
    assert_eq!(rows[0].id, "e249");
    assert_eq!(store.list_audit("user-1", "p1", None, 0).len(), 1);
    assert!(store.list_audit("user-1", "p1", Some("r1"), 10).is_empty());
}

fn alert(id: &str, key: &str, status: &str, at: i64) -> DevelopmentAlertRow {
    DevelopmentAlertRow {
        id: id.into(),
        user_id: "user-1".into(),
        project_id: "p1".into(),
        run_id: None,
        alert_type: "cost".into(),
        severity: "high".into(),
        status: status.into(),
        message: format!("message {at}"),
        dedupe_key: key.into(),
        created_at: at,
        updated_at: at,
        resolved_at: None,
    }
}

#[test]
fn an_alert_comes_up_once_per_key() {
    let mut store = empty();
    store.upsert_alert(&alert("a1", "k1", "open", 1)).unwrap();
    store.upsert_alert(&alert("a2", "k2", "open", 2)).unwrap();
    store.upsert_alert(&alert("a9", "k1", "open", 5)).unwrap();
    let ids = |rows: Vec<DevelopmentAlertRow>| rows.into_iter().map(|row| row.id).collect::<Vec<_>>();
    assert_eq!(ids(store.list_alerts("user-1", "p1", None, true)), ["a1", "a2"]);
    assert_eq!(store.alerts[0].created_at, 1);
    assert_eq!(store.alerts[0].message, "message 5");
    assert!(store.update_alert_status("user-1", "a1", "resolved", Some(8), 9));
    assert!(!store.update_alert_status("user-2", "a2", "resolved", Some(8), 9));
    assert_eq!(ids(store.list_alerts("user-1", "p1", None, true)), ["a2"]);
    assert_eq!(ids(store.list_alerts("user-1", "p1", None, false)), ["a1", "a2"]);
    assert!(store.list_alerts("user-1", "p1", Some("r1"), false).is_empty());
}

fn run(id: &str, status: &str, updated_at: i64) -> DevelopmentRunRow {
    DevelopmentRunRow {
        id: id.into(),
        user_id: "user-1".into(),
        project_id: "p1".into(),
        team_id: None,
        source_channel: None,
        source_user_id: None,
        execution_mode: "team".into(),
        status: status.into(),
        request_summary: "do it".into(),
        acceptance_criteria: "[]".into(),
        baseline_commit: None,
        integration_branch: None,
        started_at: None,
        finished_at: None,
        created_at: 1,
        updated_at,
    }
}

fn recovery(id: &str, decision: &str) -> DevelopmentRecoveryRecordRow {
    DevelopmentRecoveryRecordRow {
        id: id.into(),
        user_id: "user-1".into(),
        project_id: "p1".into(),
        run_id: Some("r1".into()),
        recovery_key: "key".into(),
        finding: "stopped".into(),
        decision: decision.into(),
        status_before: "running".into(),
        status_after: "failed".into(),
        details_json: "{}".into(),
        created_at: 1,
    }
}

#[test]
fn a_stopped_run_is_decided_on_once() {
    let mut store = empty();
    store.runs.push(run("r1", "running", 10));
    assert_eq!(
        store.claim_recovery_and_update_run(&recovery("x1", "resume"), "running", 9, "failed", None, 20),
        Ok(false),
        "the run was changed since it was looked at",
    );
    assert!(store.recoveries.is_empty(), "nothing is recorded of a claim that failed");
    assert_eq!(
        store.claim_recovery_and_update_run(
            &recovery("x1", "resume"),
            "running",
            10,
            "failed",
            Some(15),
            5,
        ),
        Ok(true),
    );
    assert_eq!(store.runs[0].status, "failed");
    assert_eq!(store.runs[0].finished_at, Some(15));
    assert_eq!(store.runs[0].updated_at, 11, "a change always moves the time on");
    assert_eq!(
        store.claim_recovery_and_update_run(&recovery("x2", "resume"), "running", 10, "failed", None, 20),
        Ok(false),
    );
    let before = store.clone();
    assert_eq!(
        store.claim_recovery_and_update_run(&recovery("x3", "abandon"), "failed", 11, "gone", None, 20),
        Ok(false),
        "another decision does not write over the first",
    );
    assert_eq!(store, before);
}

#[test]
fn a_record_that_waits_is_decided_later() {
    let mut store = empty();
    store.runs.push(run("r1", "running", 10));
    store.append_recovery(&recovery("x1", "manual_required")).unwrap();
    assert_eq!(
        store.claim_recovery_and_update_run(&recovery("x2", "resume"), "running", 10, "running", None, 20),
        Ok(true),
    );
    let rows = store.list_recovery("user-1", "p1", Some("r1"), 10);
    assert_eq!(rows.len(), 1);
    assert_eq!((rows[0].id.as_str(), rows[0].decision.as_str()), ("x1", "resume"));
    assert_eq!(store.runs[0].updated_at, 20);
}

#[test]
fn a_claim_with_a_taken_id_is_an_error() {
    let mut store = empty();
    store.runs.push(run("r1", "running", 10));
    store.append_recovery(&DevelopmentRecoveryRecordRow { recovery_key: "other".into(), ..recovery("x1", "resume") }).unwrap();
    let before = store.clone();
    assert_eq!(
        store.claim_recovery_and_update_run(&recovery("x1", "resume"), "running", 10, "failed", None, 20),
        Err(DbError::Query("UNIQUE constraint failed: development_recovery_records.id".into())),
    );
    assert_eq!(store, before);
}

#[test]
fn runs_that_stopped_first_are_recovered_first() {
    let mut store = empty();
    for (id, status, at) in [("a", "running", 9), ("b", "done", 1), ("c", "reviewing", 3), ("d", "integrating", 11)] {
        store.runs.push(run(id, status, at));
    }
    let ids: Vec<String> =
        store.list_recovery_candidates(10).into_iter().map(|row| row.id).collect();
    assert_eq!(ids, ["c", "a"]);
}

fn lease(id: &str, owner: &str, status: &str) -> ExecutionResourceLeaseRow {
    ExecutionResourceLeaseRow {
        id: id.into(),
        user_id: "user-1".into(),
        project_id: "p1".into(),
        run_id: "r1".into(),
        task_id: None,
        turn_id: None,
        gate_id: None,
        environment_id: "env".into(),
        environment_kind: "container".into(),
        resource_kind: "container".into(),
        resource_identifier: format!("container-{id}"),
        status: status.into(),
        accepts_work: status == "active",
        owner_instance_id: Some(owner.into()),
        heartbeat_at: 100,
        expires_at: 130,
        cleanup_order: 1,
        cleanup_status: None,
        cleanup_result: None,
        recovery_decision: None,
        created_at: 1,
        updated_at: 100,
        terminal_at: None,
    }
}

fn with_leases(rows: &[ExecutionResourceLeaseRow]) -> OperationsStore {
    OperationsStore { leases: rows.to_vec(), ..empty() }
}

#[test]
fn a_sign_of_life_needs_the_owner_and_the_state_that_was_seen() {
    let mut store = with_leases(&[lease("l1", "me", "active")]);
    assert_eq!(store.heartbeat_resource_lease("l1", "you", 100, 110, 140), None);
    assert_eq!(store.heartbeat_resource_lease("l1", "me", 99, 110, 140), None);
    let row = store.heartbeat_resource_lease("l1", "me", 100, 110, 140).unwrap();
    assert_eq!((row.heartbeat_at, row.expires_at, row.updated_at), (110, 140, 110));
    let row = store.heartbeat_resource_lease("l1", "me", 110, 90, 120).unwrap();
    assert_eq!(row.updated_at, 111, "time never stands still");
}

#[test]
fn a_released_lease_is_over() {
    let mut store = with_leases(&[lease("l1", "me", "active")]);
    assert!(store.complete_resource_lease("l1", "me", 100, "done", 150));
    let row = store.get_resource_lease("l1").unwrap();
    assert_eq!(row.status, "released");
    assert!(!row.accepts_work);
    assert_eq!(row.cleanup_status.as_deref(), Some("released"));
    assert_eq!(row.cleanup_result.as_deref(), Some("done"));
    assert_eq!(row.terminal_at, Some(150));
    assert!(!store.complete_resource_lease("l1", "me", 150, "again", 160));
    assert_eq!(store.heartbeat_resource_lease("l1", "me", 150, 160, 170), None);
    assert_eq!(store.orphan_resource_lease("l1", "me", 130, 160), None);
    assert_eq!(store.claim_resource_cleanup("l1", "me", "released", 150, "cleaner", 160), None);
    assert_eq!(store.claim_resource_recovery_decision("l1", "takeover", Some("you"), 160), None);
}

#[test]
fn a_cleanup_is_claimed_once_and_ended_by_its_cleaner() {
    let mut store = with_leases(&[lease("l1", "me", "orphaned")]);
    let row = store.claim_resource_cleanup("l1", "me", "orphaned", 100, "cleaner", 200).unwrap();
    assert_eq!(row.status, "stopping");
    assert_eq!(row.owner_instance_id.as_deref(), Some("cleaner"));
    assert_eq!((row.heartbeat_at, row.expires_at, row.updated_at), (200, 230, 200));
    assert_eq!(store.claim_resource_cleanup("l1", "me", "orphaned", 100, "other", 201), None);
    assert!(!store.finish_resource_cleanup("l1", "other", 200, true, "ok", 210));
    assert!(store.finish_resource_cleanup("l1", "cleaner", 200, false, "busy", 210));
    let row = store.get_resource_lease("l1").unwrap();
    assert_eq!(row.status, "cleanup_failed");
    assert_eq!(row.cleanup_status.as_deref(), Some("failed"));
    assert_eq!(row.terminal_at, Some(210));
    let again =
        store.claim_resource_cleanup("l1", "cleaner", "cleanup_failed", 210, "next", 220).unwrap();
    assert_eq!(again.terminal_at, None);
    assert!(store.finish_resource_cleanup("l1", "next", 220, true, "gone", 230));
    assert_eq!(store.get_resource_lease("l1").unwrap().status, "released");
}

#[test]
fn a_term_is_never_shorter_than_one() {
    let mut store = with_leases(&[ExecutionResourceLeaseRow {
        expires_at: 90,
        ..lease("l1", "me", "active")
    }]);
    let row = store.claim_resource_cleanup("l1", "me", "active", 100, "cleaner", 50).unwrap();
    assert_eq!(row.expires_at, 51);
    assert_eq!(row.updated_at, 101);
}

#[test]
fn an_orphan_is_taken_over_once() {
    let mut store = with_leases(&[lease("l1", "me", "active")]);
    assert_eq!(store.orphan_resource_lease("l1", "me", 129, 140), None);
    let row = store.orphan_resource_lease("l1", "me", 130, 140).unwrap();
    assert_eq!(row.status, "orphaned");
    assert!(!row.accepts_work);
    let taken =
        store.claim_resource_recovery_decision("l1", "takeover", Some("you"), 150).unwrap();
    assert_eq!(taken.status, "active");
    assert!(taken.accepts_work);
    assert_eq!(taken.owner_instance_id.as_deref(), Some("you"));
    assert_eq!(taken.recovery_decision.as_deref(), Some("takeover"));
    assert_eq!((taken.heartbeat_at, taken.expires_at), (150, 180));
    assert_eq!(store.claim_resource_recovery_decision("l1", "takeover", Some("third"), 160), None);
}

#[test]
fn the_first_decision_stands() {
    let mut store = with_leases(&[lease("l1", "me", "orphaned")]);
    let row = store.claim_resource_recovery_decision("l1", "cleanup", None, 150).unwrap();
    assert_eq!(row.recovery_decision.as_deref(), Some("cleanup"));
    assert_eq!(row.status, "orphaned");
    assert_eq!(store.claim_resource_recovery_decision("l1", "ignore", None, 151), None);
    assert_eq!(store.claim_resource_recovery_decision("l1", "takeover", Some("you"), 152), None);
    store.upsert_resource_lease(&ExecutionResourceLeaseRow {
        recovery_decision: Some("ignore".into()),
        updated_at: 160,
        ..lease("l1", "you", "stopping")
    });
    let row = store.get_resource_lease("l1").unwrap();
    assert_eq!(row.recovery_decision.as_deref(), Some("cleanup"));
    assert_eq!(row.owner_instance_id.as_deref(), Some("me"));
    assert_eq!((row.status.as_str(), row.updated_at), ("stopping", 160));
}

#[test]
fn leases_are_written_and_listed() {
    let mut store = empty();
    store.upsert_resource_lease(&ExecutionResourceLeaseRow { cleanup_order: 2, ..lease("l1", "me", "active") });
    store.upsert_resource_lease(&lease("l2", "me", "released"));
    store.upsert_resource_lease(&ExecutionResourceLeaseRow { expires_at: 120, ..lease("l3", "me", "stopping") });
    let ids = |rows: Vec<ExecutionResourceLeaseRow>| rows.into_iter().map(|row| row.id).collect::<Vec<_>>();
    assert_eq!(ids(store.list_resource_leases("user-1", "r1", false)), ["l2", "l3", "l1"]);
    assert_eq!(ids(store.list_resource_leases("user-1", "r1", true)), ["l3", "l1"]);
    assert_eq!(ids(store.list_stale_resource_leases(130)), ["l3", "l1"]);
    assert_eq!(ids(store.list_stale_resource_leases(125)), ["l3"]);
    store.upsert_resource_lease(&lease("l1", "you", "active"));
    assert_eq!(store.get_resource_lease("l1").unwrap().owner_instance_id.as_deref(), Some("you"));
    assert_eq!(store.get_resource_lease("l1").unwrap().cleanup_order, 2);
}

#[test]
fn an_environment_is_bound_once() {
    let mut store = empty();
    store.bind_execution_environment("task", "t1", "env", "container", 1);
    store.bind_execution_environment("task", "t1", "env", "native", 2);
    store.bind_execution_environment("task", "t2", "env", "native", 3);
    assert_eq!(store.environments.len(), 2);
    assert_eq!(store.environments[0].environment_kind, "native");
    assert_eq!(store.environments[0].bound_at, 2);
}

#[test]
fn a_secret_is_revoked_once() {
    let mut store = empty();
    let secret = |id: &str, at: i64| DevelopmentSecretRow {
        id: id.into(),
        user_id: "user-1".into(),
        project_id: "p1".into(),
        name: "TOKEN".into(),
        encrypted_value: "cipher".into(),
        key_version: "v1".into(),
        status: "active".into(),
        expires_at: None,
        revoked_at: None,
        created_at: at,
        updated_at: at,
    };
    store.insert_secret(&secret("s1", 1)).unwrap();
    store.insert_secret(&secret("s2", 2)).unwrap();
    let ids: Vec<String> =
        store.list_secrets("user-1", "p1").into_iter().map(|row| row.id).collect();
    assert_eq!(ids, ["s2", "s1"]);
    assert!(!store.revoke_secret("user-2", "s1", 5));
    assert!(store.revoke_secret("user-1", "s1", 5));
    assert!(!store.revoke_secret("user-1", "s1", 6));
    let row = store.get_secret("user-1", "s1").unwrap();
    assert_eq!((row.status.as_str(), row.revoked_at, row.updated_at), ("revoked", Some(5), 5));
    assert_eq!(store.get_secret("user-2", "s1"), None);
    assert_eq!(
        store.insert_secret(&secret("s1", 9)),
        Err(DbError::Query("UNIQUE constraint failed: development_secrets.id".into())),
    );
}

#[test]
fn a_leave_to_use_a_secret_is_written_anew() {
    let mut store = empty();
    let grant = |id: &str, status: &str, at: i64| DevelopmentSecretGrantRow {
        id: id.into(),
        user_id: "user-1".into(),
        project_id: "p1".into(),
        secret_id: "s1".into(),
        scope_type: "task".into(),
        scope_id: "t1".into(),
        environment_key: "TOKEN".into(),
        status: status.into(),
        expires_at: None,
        revoked_at: None,
        created_at: at,
        updated_at: at,
    };
    store.upsert_secret_grant(&grant("g1", "active", 1)).unwrap();
    store.upsert_secret_grant(&grant("g2", "revoked", 5)).unwrap();
    let rows = store.list_secret_grants("user-1", "s1");
    assert_eq!(rows.len(), 1);
    assert_eq!((rows[0].id.as_str(), rows[0].status.as_str()), ("g1", "revoked"));
    assert_eq!((rows[0].created_at, rows[0].updated_at), (1, 5));
}

#[test]
fn the_price_that_holds_is_the_latest_by_then() {
    let mut store = empty();
    let price = |id: &str, version: &str, effective_at: i64| DevelopmentModelPriceRow {
        id: id.into(),
        provider: "acme".into(),
        model: "m".into(),
        input_per_million_microunits: effective_at,
        output_per_million_microunits: 2,
        cache_read_per_million_microunits: 3,
        cache_write_per_million_microunits: 4,
        source_id: "list".into(),
        version: version.into(),
        effective_at,
        created_at: 1,
    };
    store.upsert_model_price(&price("a", "v1", 10)).unwrap();
    store.upsert_model_price(&price("b", "v2", 20)).unwrap();
    store.upsert_model_price(&price("c", "v3", 20)).unwrap();
    assert_eq!(store.resolve_model_price("acme", "m", 9), None);
    assert_eq!(store.resolve_model_price("acme", "m", 19).unwrap().id, "a");
    assert_eq!(store.resolve_model_price("acme", "m", 20).unwrap().id, "c");
    assert_eq!(store.resolve_model_price("acme", "other", 20), None);
    store.upsert_model_price(&price("z", "v1", 30)).unwrap();
    assert_eq!(store.resolve_model_price("acme", "m", 40).unwrap().id, "a");
    assert_eq!(store.prices.len(), 3);
}

#[test]
fn a_policy_is_read_as_it_was_written() {
    let mut store = empty();
    let policy = |id: &str, mode: &str, at: i64| DevelopmentPolicyRow {
        id: id.into(),
        user_id: "user-1".into(),
        project_id: "p1".into(),
        isolation_mode: mode.into(),
        container_image: None,
        devcontainer_config_path: None,
        container_cpu_millis: None,
        container_memory_mb: None,
        container_pids_limit: None,
        network_mode: "none".into(),
        allowed_secret_keys_json: "[]".into(),
        allowed_commands_json: "[]".into(),
        protected_paths_json: "[]".into(),
        allowed_network_hosts_json: "[]".into(),
        protected_branches_json: "[]".into(),
        dangerous_confirmation_count: 2,
        max_duration_ms: None,
        max_parallel_agents: None,
        max_retries: None,
        max_cost_microunits: None,
        max_total_tokens: None,
        fallback_model: None,
        alert_percent: 80,
        over_limit_action: "stop".into(),
        created_at: at,
        updated_at: at,
    };
    store.upsert_policy(&policy("x1", "native", 1)).unwrap();
    store.upsert_policy(&policy("x2", "container", 7)).unwrap();
    let wanted = DevelopmentPolicyRow { id: "x1".into(), created_at: 1, ..policy("x2", "container", 7) };
    assert_eq!(store.get_policy("user-1", "p1"), Some(wanted));
    assert_eq!(store.get_policy("user-1", "p2"), None);
}

//! The workspaces that agents hold.
use aionui_db::error::DbError;
use aionui_db::workspace_lease::{
    lease_write_error, AgentWorkspaceLeaseRow, AgentWorkspaceLeaseUpdate, WorkspaceLeaseStore,
};
use aionui_db::write::Verdict;

fn lease(id: &str, team: &str, slot: &str, status: &str) -> AgentWorkspaceLeaseRow {
    AgentWorkspaceLeaseRow {
        id: id.into(),
        team_id: team.into(),
        user_id: "user".into(),
        slot_id: slot.into(),
        workspace_mode: "worktree".into(),
        repository_path: "/repo".into(),
        worktree_path: format!("/work/{id}"),
        branch_name: format!("agent/{id}"),
        base_commit: "abc".into(),
        allowed_paths: "[]".into(),
        lease_status: status.into(),
        cleanup_status: "none".into(),
        conflict_files: "[]".into(),
        last_error: Some("old".into()),
        created_at: 1,
        updated_at: 1,
        released_at: None,
    }
}

fn setup() -> WorkspaceLeaseStore {
    let mut store = WorkspaceLeaseStore { leases: Vec::new() };
    for row in [
        lease("l1", "team-b", "slot-1", "active"),
        lease("l2", "team-a", "slot-2", "released"),
        lease("l3", "team-a", "slot-1", "conflict"),
    ] {
        store.create(&row, &Verdict::Accepted).unwrap();
    }
    store
}

#[test]
fn what_is_not_given_stays() {
    let mut store = setup();
    let update = AgentWorkspaceLeaseUpdate {
        lease_status: Some("released".into()),
        last_error: Some(None),
        released_at: Some(Some(9)),
        ..Default::default()
    };
    store.update("l1", &update, 10).unwrap();
    let row = store.get("l1").unwrap();
    assert_eq!(row.lease_status, "released");
    assert_eq!(row.cleanup_status, "none");
    assert_eq!(row.conflict_files, "[]");
    assert_eq!(row.last_error, None);
    assert_eq!(row.released_at, Some(9));
    assert_eq!(row.updated_at, 10);
    assert_eq!(store.get("l2").unwrap(), lease("l2", "team-a", "slot-2", "released"));

    store.update("l1", &AgentWorkspaceLeaseUpdate::default(), 11).unwrap();
    assert_eq!(store.get("l1").unwrap().lease_status, "released");
    assert_eq!(store.get("l1").unwrap().updated_at, 11);
}

#[test]
fn an_unknown_lease_is_not_found() {
    let mut store = setup();
    assert_eq!(
        store.update("l9", &AgentWorkspaceLeaseUpdate::default(), 10),
        Err(DbError::NotFound("workspace lease l9".into())),
    );
    assert_eq!(store, setup());
}

#[test]
fn leases_are_found_and_listed() {
    let store = setup();
    let ids = |rows: Vec<AgentWorkspaceLeaseRow>| rows.into_iter().map(|row| row.id).collect::<Vec<_>>();
    assert_eq!(store.get_for_team_slot("team-a", "slot-2").unwrap().id, "l2");
    assert_eq!(store.get_for_team_slot("team-a", "slot-3"), None);
    assert_eq!(ids(store.list_for_team("team-a")), ["l3", "l2"]);
    assert_eq!(ids(store.list_reconcile_candidates()), ["l3", "l1"]);
}

#[test]
fn a_lease_that_is_turned_down_is_not_added() {
    let mut store = setup();
    let taken = DbError::Conflict("workspace lease already exists for this slot, path, or branch".into());
    let verdict = Verdict::Refused { code: Some("2067".into()), message: "no".into() };
    assert_eq!(store.create(&lease("l4", "t", "s", "active"), &verdict), Err(taken.clone()));
    let verdict = Verdict::Refused { code: Some("1555".into()), message: "no".into() };
    assert_eq!(
        store.create(&lease("l4", "t", "s", "active"), &verdict),
        Err(DbError::Query("no".into())),
    );
    assert_eq!(store, setup());
    assert_eq!(lease_write_error(&Some("2067".into()), "no"), taken);
    assert_eq!(lease_write_error(&None, "no"), DbError::Query("no".into()));
}

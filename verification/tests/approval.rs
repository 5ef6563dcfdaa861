//! Requests that are answered once.
use aionui_db::approval::{ApprovalRequestRow, ApprovalStore};
use aionui_db::error::DbError;

fn request(id: &str, user: &str, expires_at: i64) -> ApprovalRequestRow {
    ApprovalRequestRow {
        id: id.into(),
        requester_user_id: user.into(),
        project_id: None,
        run_id: Some("run-1".into()),
        task_id: None,
        conversation_id: "conv".into(),
        agent_id: None,
        call_id: format!("call-{id}"),
        action_type: "command".into(),
        command: Some("ls".into()),
        working_directory: None,
        risk_level: "low".into(),
        options: "[]".into(),
        status: "pending".into(),
        approver_user_id: None,
        source_channel: None,
        source_chat_id: None,
        source_thread_id: None,
        expires_at,
        consumed_at: None,
        created_at: 1,
        updated_at: 1,
    }
}

fn setup() -> ApprovalStore {
    let mut store = ApprovalStore { requests: Vec::new() };
    store.create(&request("a", "user-1", 100)).unwrap();
    store.create(&ApprovalRequestRow { created_at: 2, ..request("b", "user-1", 200) }).unwrap();
    store.create(&ApprovalRequestRow { run_id: None, ..request("c", "user-2", 300) }).unwrap();
    store
}

#[test]
fn a_request_is_answered_once_by_its_user() {
    let mut store = setup();
    assert!(!store.consume("a", "user-2", "approved", 10), "only the requester answers");
    assert!(store.consume("a", "user-1", "approved", 10));
    let row = store.get("a").unwrap();
    assert_eq!(row.status, "approved");
    assert_eq!(row.approver_user_id.as_deref(), Some("user-1"));
    assert_eq!(row.consumed_at, Some(10));
    assert_eq!(row.updated_at, 10);
    assert!(!store.consume("a", "user-1", "rejected", 11));
    assert_eq!(store.get("a").unwrap(), row);
}

#[test]
fn an_overdue_request_is_not_answered() {
    let mut store = setup();
    assert!(!store.consume("a", "user-1", "approved", 100));
    assert!(store.consume("b", "user-1", "approved", 100));
    assert_eq!(store.mark_expired(150), 1);
    assert_eq!(store.get("a").unwrap().status, "expired");
    assert_eq!(store.get("a").unwrap().updated_at, 150);
    assert_eq!(store.get("b").unwrap().status, "approved");
    assert!(!store.consume("a", "user-1", "approved", 10));
}

#[test]
fn an_answer_is_taken_back_by_its_approver() {
    let mut store = setup();
    assert!(!store.cancel_consumed("a", "user-1", 5), "nothing was answered");
    store.consume("a", "user-1", "rejected", 10);
    assert!(!store.cancel_consumed("a", "user-2", 11));
    assert!(store.cancel_consumed("a", "user-1", 12));
    assert_eq!(store.get("a").unwrap().status, "cancelled");
    assert!(!store.cancel_consumed("a", "user-1", 13));
}

#[test]
fn requests_are_found_and_listed() {
    let store = setup();
    assert_eq!(store.get_by_conversation_call("conv", "call-b").unwrap().id, "b");
    assert_eq!(store.get_by_conversation_call("conv", "call-z"), None);
    let ids = |rows: Vec<ApprovalRequestRow>| rows.into_iter().map(|row| row.id).collect::<Vec<_>>();
    assert_eq!(ids(store.list_for_user("user-1", None)), ["b", "a"]);
    assert_eq!(ids(store.list_for_user("user-1", Some("run-1"))), ["b", "a"]);
    assert!(store.list_for_user("user-2", Some("run-1")).is_empty());
    assert_eq!(ids(store.list_for_user("user-2", None)), ["c"]);
}

#[test]
fn an_id_is_used_once() {
    let mut store = setup();
    assert_eq!(
        store.create(&request("a", "user-2", 5)),
        Err(DbError::Query("UNIQUE constraint failed: approval_requests.id".into())),
    );
    assert_eq!(store.requests.len(), 3);
}

//! Connections, the people on them, their sessions and their requests to be let
//! in.
use aionui_db::channel::rows::{
    ChannelConnectionRow, ChannelConversationBindingRow, ChannelPairingRequestRow, ChannelUserRow,
    ConversationOwnerRow, UpdateConnectionStatusParams,
};
use aionui_db::channel::store::{
    channel_user_write_error, is_unique_violation, pairing_write_error, ChannelStore,
};
use aionui_db::error::DbError;
use std::cell::RefCell;
use std::time::{SystemTime, UNIX_EPOCH};

const OWNER_A: &str = "system_default_user";
const OWNER_B: &str = "other_user";

fn now_ms() -> i64 {
    SystemTime::now().duration_since(UNIX_EPOCH).unwrap().as_millis() as i64
}

/// The tables, behind calls that read and write them.
struct Repo {
    store: RefCell<ChannelStore>,
}

type Done = Result<(), DbError>;

impl Repo {
    fn read<T>(&self, look: impl FnOnce(&ChannelStore) -> T) -> T {
        look(&self.store.borrow())
    }

    fn change<T>(&self, act: impl FnOnce(&mut ChannelStore) -> T) -> T {
        act(&mut self.store.borrow_mut())
    }

    fn get_all_connections(&self, owner: &str) -> Result<Vec<ChannelConnectionRow>, DbError> {
        Ok(self.read(|store| store.get_all_connections(owner)))
    }

    fn get_connection(&self, owner: &str, id: &str) -> Result<Option<ChannelConnectionRow>, DbError> {
        Ok(self.read(|store| store.get_connection(owner, id)))
    }

    fn upsert_connection(&self, owner: &str, row: &ChannelConnectionRow) -> Done {
        self.change(|store| store.upsert_connection(owner, row))
    }

    fn update_connection_status(&self, owner: &str, id: &str, params: &UpdateConnectionStatusParams) -> Done {
        self.change(|store| store.update_connection_status(owner, id, params, now_ms()))
    }

    fn delete_connection(&self, owner: &str, id: &str) -> Done {
        self.change(|store| store.delete_connection(owner, id))
    }

    fn get_all_users(&self, owner: &str) -> Result<Vec<ChannelUserRow>, DbError> {
        Ok(self.read(|store| store.get_all_users(owner)))
    }

    fn get_user_by_platform(
        &self,
        owner: &str,
        platform_user_id: &str,
        platform_type: &str,
    ) -> Result<Option<ChannelUserRow>, DbError> {
        Ok(self.read(|store| store.get_user_by_platform(owner, platform_user_id, platform_type)))
    }

    fn create_user(&self, owner: &str, row: &ChannelUserRow) -> Done {
        self.change(|store| store.create_user(owner, row))
    }

    fn update_user_last_active(&self, owner: &str, id: &str, at: i64) -> Done {
        self.change(|store| store.update_user_last_active(owner, id, at))
    }

    fn revoke_user(&self, owner: &str, id: &str) -> Done {
        self.change(|store| store.revoke_user(owner, id, now_ms()))
    }

    fn get_all_sessions(&self, owner: &str) -> Result<Vec<ChannelConversationBindingRow>, DbError> {
        Ok(self.read(|store| store.get_all_sessions(owner)))
    }

    fn get_session(&self, owner: &str, id: &str) -> Result<Option<ChannelConversationBindingRow>, DbError> {
        Ok(self.read(|store| store.get_session(owner, id)))
    }

    fn get_or_create_session(
        &self,
        owner: &str,
        user_id: &str,
        chat_id: &str,
        new_session: &ChannelConversationBindingRow,
    ) -> Result<ChannelConversationBindingRow, DbError> {
        self.change(|store| store.get_or_create_session(owner, user_id, chat_id, new_session, now_ms()))
    }

    fn update_session_activity(&self, owner: &str, id: &str, at: i64) -> Done {
        self.change(|store| store.update_session_activity(owner, id, at))
    }

    fn update_session_conversation(&self, owner: &str, id: &str, conversation_id: &str) -> Done {
        self.change(|store| store.update_session_conversation(owner, id, conversation_id, now_ms()))
    }

    fn delete_sessions_by_user(&self, owner: &str, user_id: &str) -> Done {
        self.change(|store| store.delete_sessions_by_user(owner, user_id));
        Ok(())
    }

    fn delete_session_by_user_chat(&self, owner: &str, user_id: &str, chat_id: &str) -> Done {
        self.change(|store| store.delete_session_by_user_chat(owner, user_id, chat_id));
        Ok(())
    }

    fn create_pairing(&self, owner: &str, row: &ChannelPairingRequestRow) -> Done {
        self.change(|store| store.create_pairing(owner, row))
    }

    fn get_pending_pairings(&self, owner: &str) -> Result<Vec<ChannelPairingRequestRow>, DbError> {
        Ok(self.read(|store| store.get_pending_pairings(owner)))
    }

    fn get_pairing(&self, owner: &str, id: &str) -> Result<Option<ChannelPairingRequestRow>, DbError> {
        Ok(self.read(|store| store.get_pairing(owner, id)))
    }

    fn get_pending_pairing_by_code_hash(
        &self,
        owner: &str,
        code_hash: &str,
    ) -> Result<Option<ChannelPairingRequestRow>, DbError> {
        Ok(self.read(|store| store.get_pending_pairing_by_code_hash(owner, code_hash)))
    }

    fn update_pairing_status(
        &self,
        owner: &str,
        id: &str,
        status: &str,
        approved: Option<&str>,
    ) -> Done {
        self.change(|store| store.update_pairing_status(owner, id, status, approved))
    }

    fn expire_pending_pairings_for_user(&self, owner: &str, connection_id: &str, external: &str) -> Result<u64, DbError> {
        Ok(self.change(|store| store.expire_pending_pairings_for_user(owner, connection_id, external)))
    }

    fn cleanup_expired_pairings(&self, owner: &str, now: i64) -> Result<u64, DbError> {
        Ok(self.change(|store| store.cleanup_expired_pairings(owner, now)))
    }
}

fn setup() -> Repo {
    Repo { store: RefCell::new(ChannelStore::new()) }
}

fn sample_connection() -> ChannelConnectionRow {
    let now = now_ms();
    ChannelConnectionRow {
        id: "tg-1".into(),
        owner_user_id: OWNER_A.into(),
        plugin_key: "telegram".into(),
        name: "My Telegram Bot".into(),
        enabled: false,
        config: r#"{"credentials":{"token":"enc_xxx"}}"#.into(),
        status: None,
        last_connected: None,
        created_at: now,
        updated_at: now,
    }
}

/// Seeds the connection row users/pairings attach to (FK parent).
/// Connection identity is per-owner, so the same id is seeded per owner.
fn seed_connection(repo: &Repo, owner: &str) {
    repo.upsert_connection(
        owner,
        &ChannelConnectionRow {
            owner_user_id: owner.into(),
            ..sample_connection()
        },
    )
    .unwrap();
}

fn sample_user() -> ChannelUserRow {
    let now = now_ms();
    ChannelUserRow {
        id: "usr-1".into(),
        owner_user_id: OWNER_A.into(),
        connection_id: "tg-1".into(),
        platform_user_id: "tg_12345".into(),
        platform_type: "telegram".into(),
        display_name: Some("Alice".into()),
        status: "active".into(),
        revoked_at: None,
        authorized_at: now,
        last_active: None,
    }
}

/// Seeds the FK-parent connection and authorizes the sample user on it.
fn seed_user(repo: &Repo) {
    seed_connection(repo, OWNER_A);
    repo.create_user(OWNER_A, &sample_user()).unwrap();
}

/// `owner_user_id`/`connection_id` are left empty on purpose: the INSERT
/// derives both from the active `channel_users` row, so a caller-supplied
/// value is never trusted.
fn sample_session(user_id: &str) -> ChannelConversationBindingRow {
    let now = now_ms();
    ChannelConversationBindingRow {
        id: "sess-1".into(),
        owner_user_id: String::new(),
        connection_id: String::new(),
        user_id: user_id.into(),
        chat_id: Some("chat-abc".into()),
        conversation_id: None,
        created_at: now,
        last_activity: now,
    }
}

fn sample_pairing() -> ChannelPairingRequestRow {
    let now = now_ms();
    ChannelPairingRequestRow {
        id: "pair-1".into(),
        owner_user_id: OWNER_A.into(),
        connection_id: "tg-1".into(),
        platform_user_id: "tg_99".into(),
        platform_type: "telegram".into(),
        display_name: Some("Bob".into()),
        code_hash: "hash-123456".into(),
        status: "pending".into(),
        requested_at: now,
        expires_at: now + 600_000,
        approved_channel_user_id: None,
    }
}

// Plugin tests

#[test]
fn get_all_connections_empty() {
    let repo = setup();
    let plugins = repo.get_all_connections(OWNER_A).unwrap();
    assert!(plugins.is_empty());
}

#[test]
fn upsert_and_get_plugin() {
    let repo = setup();
    let plugin = sample_connection();
    repo.upsert_connection(OWNER_A, &plugin).unwrap();

    let found = repo.get_connection(OWNER_A, "tg-1").unwrap().unwrap();
    assert_eq!(found.id, "tg-1");
    assert_eq!(found.plugin_key, "telegram");
    assert_eq!(found.name, "My Telegram Bot");
    assert!(!found.enabled);
}

#[test]
fn upsert_plugin_updates_existing() {
    let repo = setup();
    let plugin = sample_connection();
    repo.upsert_connection(OWNER_A, &plugin).unwrap();

    let updated = ChannelConnectionRow {
        name: "Updated Bot".into(),
        enabled: true,
        updated_at: now_ms(),
        ..plugin
    };
    repo.upsert_connection(OWNER_A, &updated).unwrap();

    let found = repo.get_connection(OWNER_A, "tg-1").unwrap().unwrap();
    assert_eq!(found.name, "Updated Bot");
    assert!(found.enabled);
}

#[test]
fn get_all_connections_returns_multiple() {
    let repo = setup();
    repo.upsert_connection(OWNER_A, &sample_connection()).unwrap();

    let now = now_ms();
    let lark = ChannelConnectionRow {
        id: "lark-1".into(),
        owner_user_id: OWNER_A.into(),
        plugin_key: "lark".into(),
        name: "Lark Bot".into(),
        enabled: true,
        config: "{}".into(),
        status: Some("running".into()),
        last_connected: Some(now),
        created_at: now,
        updated_at: now,
    };
    repo.upsert_connection(OWNER_A, &lark).unwrap();

    let all = repo.get_all_connections(OWNER_A).unwrap();
    assert_eq!(all.len(), 2);
}

#[test]
fn plugins_are_filtered_by_owner() {
    let repo = setup();

    repo.upsert_connection(OWNER_A, &sample_connection()).unwrap();

    assert!(repo.get_connection(OWNER_B, "tg-1").unwrap().is_none());
    assert!(repo.get_all_connections(OWNER_B).unwrap().is_empty());
}

#[test]
fn same_plugin_id_can_exist_for_different_owners() {
    let repo = setup();

    let owner_a_plugin = sample_connection();
    let owner_b_plugin = ChannelConnectionRow {
        owner_user_id: OWNER_B.into(),
        name: "Owner B Telegram Bot".into(),
        enabled: true,
        ..sample_connection()
    };

    repo.upsert_connection(OWNER_A, &owner_a_plugin).unwrap();
    repo.upsert_connection(OWNER_B, &owner_b_plugin).unwrap();

    let owner_a_found = repo.get_connection(OWNER_A, "tg-1").unwrap().unwrap();
    let owner_b_found = repo.get_connection(OWNER_B, "tg-1").unwrap().unwrap();
    assert_eq!(owner_a_found.id, "tg-1");
    assert_eq!(owner_b_found.id, "tg-1");
    assert_eq!(owner_a_found.name, "My Telegram Bot");
    assert_eq!(owner_b_found.name, "Owner B Telegram Bot");

    repo.update_connection_status(
        OWNER_B,
        "tg-1",
        &UpdateConnectionStatusParams {
            status: Some("running".into()),
            last_connected: None,
            enabled: None,
        },
    )
    .unwrap();

    let owner_a_after = repo.get_connection(OWNER_A, "tg-1").unwrap().unwrap();
    let owner_b_after = repo.get_connection(OWNER_B, "tg-1").unwrap().unwrap();
    assert_eq!(owner_a_after.status, None);
    assert_eq!(owner_b_after.status, Some("running".into()));
}

#[test]
fn update_connection_status_sets_fields() {
    let repo = setup();
    repo.upsert_connection(OWNER_A, &sample_connection()).unwrap();

    let now = now_ms();
    repo.update_connection_status(
        OWNER_A,
        "tg-1",
        &UpdateConnectionStatusParams {
            status: Some("running".into()),
            last_connected: Some(now),
            enabled: Some(true),
        },
    )
    .unwrap();

    let found = repo.get_connection(OWNER_A, "tg-1").unwrap().unwrap();
    assert_eq!(found.status.as_deref(), Some("running"));
    assert_eq!(found.last_connected, Some(now));
    assert!(found.enabled);
}

#[test]
fn update_connection_status_not_found() {
    let repo = setup();
    let err = repo
        .update_connection_status(
            OWNER_A,
            "nope",
            &UpdateConnectionStatusParams {
                status: Some("error".into()),
                ..Default::default()
            },
        )
        .unwrap_err();
    assert!(matches!(err, DbError::NotFound(_)));
}

#[test]
fn update_connection_status_empty_params_is_noop() {
    let repo = setup();
    repo.upsert_connection(OWNER_A, &sample_connection()).unwrap();
    // No fields to update so it is a no-op, no error.
    repo.update_connection_status(OWNER_A, "tg-1", &UpdateConnectionStatusParams::default())
        .unwrap();
}

#[test]
fn delete_plugin_removes_row() {
    let repo = setup();
    repo.upsert_connection(OWNER_A, &sample_connection()).unwrap();
    repo.delete_connection(OWNER_A, "tg-1").unwrap();
    assert!(repo.get_connection(OWNER_A, "tg-1").unwrap().is_none());
}

#[test]
fn delete_plugin_not_found() {
    let repo = setup();
    let err = repo.delete_connection(OWNER_A, "nope").unwrap_err();
    assert!(matches!(err, DbError::NotFound(_)));
}

// User tests

#[test]
fn get_all_users_empty() {
    let repo = setup();
    let users = repo.get_all_users(OWNER_A).unwrap();
    assert!(users.is_empty());
}

#[test]
fn create_and_get_user_by_platform() {
    let repo = setup();
    seed_connection(&repo, OWNER_A);
    let user = sample_user();
    repo.create_user(OWNER_A, &user).unwrap();

    let found = repo
        .get_user_by_platform(OWNER_A, "tg_12345", "telegram")
        .unwrap()
        .unwrap();
    assert_eq!(found.id, "usr-1");
    assert_eq!(found.display_name.as_deref(), Some("Alice"));
}

#[test]
fn create_duplicate_user_returns_conflict() {
    let repo = setup();
    seed_user(&repo);

    let dup = ChannelUserRow {
        id: "usr-2".into(),
        ..sample_user()
    };
    let err = repo.create_user(OWNER_A, &dup).unwrap_err();
    assert!(matches!(err, DbError::Conflict(_)));
}

#[test]
fn create_user_reactivates_revoked_row() {
    let repo = setup();
    seed_user(&repo);
    repo.revoke_user(OWNER_A, "usr-1").unwrap();

    // Re-authorizing the same identity reuses the revoked audit row
    // instead of inserting a second one.
    let again = ChannelUserRow {
        id: "usr-2".into(),
        display_name: Some("Alice Again".into()),
        ..sample_user()
    };
    repo.create_user(OWNER_A, &again).unwrap();

    let found = repo
        .get_user_by_platform(OWNER_A, "tg_12345", "telegram")
        .unwrap()
        .unwrap();
    assert_eq!(found.id, "usr-1");
    assert_eq!(found.status, "active");
    assert_eq!(found.revoked_at, None);
    assert_eq!(found.display_name.as_deref(), Some("Alice Again"));

    let row_count = repo.read(|store| {
        store
            .users
            .iter()
            .filter(|row| row.owner_user_id == OWNER_A && row.external_user_id == "tg_12345")
            .count()
    });
    assert_eq!(row_count, 1);
}

#[test]
fn platform_users_are_filtered_by_owner() {
    let repo = setup();

    seed_user(&repo);
    seed_connection(&repo, OWNER_B);
    let other = ChannelUserRow {
        id: "usr-2".into(),
        owner_user_id: OWNER_B.into(),
        platform_user_id: "tg_other".into(),
        ..sample_user()
    };
    repo.create_user(OWNER_B, &other).unwrap();

    let owner_a = repo
        .get_user_by_platform(OWNER_A, "tg_12345", "telegram")
        .unwrap()
        .unwrap();
    let owner_b = repo
        .get_user_by_platform(OWNER_B, "tg_other", "telegram")
        .unwrap()
        .unwrap();

    assert_eq!(owner_a.id, "usr-1");
    assert_eq!(owner_b.id, "usr-2");
    assert!(
        repo.get_user_by_platform(OWNER_A, "tg_other", "telegram")
            .unwrap()
            .is_none()
    );
}

#[test]
fn same_platform_user_can_exist_for_different_owners() {
    let repo = setup();

    seed_user(&repo);
    seed_connection(&repo, OWNER_B);
    let other_owner_user = ChannelUserRow {
        id: "usr-2".into(),
        owner_user_id: OWNER_B.into(),
        ..sample_user()
    };
    repo.create_user(OWNER_B, &other_owner_user).unwrap();

    let owner_a = repo
        .get_user_by_platform(OWNER_A, "tg_12345", "telegram")
        .unwrap()
        .unwrap();
    let owner_b = repo
        .get_user_by_platform(OWNER_B, "tg_12345", "telegram")
        .unwrap()
        .unwrap();
    assert_eq!(owner_a.id, "usr-1");
    assert_eq!(owner_b.id, "usr-2");
}

#[test]
fn get_user_by_platform_not_found() {
    let repo = setup();
    assert!(
        repo.get_user_by_platform(OWNER_A, "nope", "telegram")
            .unwrap()
            .is_none()
    );
}

#[test]
fn update_user_last_active_updates_timestamp() {
    let repo = setup();
    seed_user(&repo);

    let new_ts = now_ms() + 5000;
    repo.update_user_last_active(OWNER_A, "usr-1", new_ts).unwrap();

    let found = repo
        .get_user_by_platform(OWNER_A, "tg_12345", "telegram")
        .unwrap()
        .unwrap();
    assert_eq!(found.last_active, Some(new_ts));
}

#[test]
fn update_user_last_active_not_found() {
    let repo = setup();
    let err = repo.update_user_last_active(OWNER_A, "nope", 123).unwrap_err();
    assert!(matches!(err, DbError::NotFound(_)));
}

#[test]
fn revoke_user_hides_user_but_keeps_audit_row() {
    let repo = setup();
    seed_user(&repo);
    repo.revoke_user(OWNER_A, "usr-1").unwrap();

    // Revoked users disappear from every read path.
    assert!(
        repo.get_user_by_platform(OWNER_A, "tg_12345", "telegram")
            .unwrap()
            .is_none()
    );
    assert!(repo.get_all_users(OWNER_A).unwrap().is_empty());

    // The authorization history survives as an audit row.
    let (status, revoked_at) = repo.read(|store| {
        let row = store.users.iter().find(|row| row.id == "usr-1").unwrap();
        (row.status.clone(), row.revoked_at)
    });
    assert_eq!(status, "revoked");
    assert!(revoked_at.is_some());
}

#[test]
fn revoke_user_not_found() {
    let repo = setup();
    let err = repo.revoke_user(OWNER_A, "nope").unwrap_err();
    assert!(matches!(err, DbError::NotFound(_)));
}

#[test]
fn revoke_user_twice_is_not_found() {
    let repo = setup();
    seed_user(&repo);
    repo.revoke_user(OWNER_A, "usr-1").unwrap();

    // Only an ACTIVE row can be revoked.
    let err = repo.revoke_user(OWNER_A, "usr-1").unwrap_err();
    assert!(matches!(err, DbError::NotFound(_)));
}

#[test]
fn revoke_user_deletes_sessions() {
    let repo = setup();
    seed_user(&repo);

    let session = sample_session("usr-1");
    repo.get_or_create_session(OWNER_A, "usr-1", "chat-abc", &session)
        .unwrap();

    // Sessions exist before revocation.
    assert_eq!(repo.get_all_sessions(OWNER_A).unwrap().len(), 1);

    repo.revoke_user(OWNER_A, "usr-1").unwrap();

    // Soft delete keeps the user row, but message routing stops: the
    // sessions are removed outright, not merely hidden behind the join.
    assert!(repo.get_all_sessions(OWNER_A).unwrap().is_empty());
    let session_count =
        repo.read(|store| store.bindings.iter().filter(|row| row.user_id == "usr-1").count());
    assert_eq!(session_count, 0);
}

// Session tests

#[test]
fn get_all_sessions_empty() {
    let repo = setup();
    assert!(repo.get_all_sessions(OWNER_A).unwrap().is_empty());
}

#[test]
fn get_or_create_session_creates_new() {
    let repo = setup();
    seed_user(&repo);

    let new = sample_session("usr-1");
    let result = repo
        .get_or_create_session(OWNER_A, "usr-1", "chat-abc", &new)
        .unwrap();
    assert_eq!(result.id, "sess-1");
    assert_eq!(result.user_id, "usr-1");
    assert_eq!(result.chat_id.as_deref(), Some("chat-abc"));
}

#[test]
fn get_or_create_session_reuses_existing() {
    let repo = setup();
    seed_user(&repo);

    let new = sample_session("usr-1");
    let first = repo
        .get_or_create_session(OWNER_A, "usr-1", "chat-abc", &new)
        .unwrap();

    // Second call with different new_row id should still return the first.
    let another = ChannelConversationBindingRow {
        id: "sess-2".into(),
        ..new
    };
    let second = repo
        .get_or_create_session(OWNER_A, "usr-1", "chat-abc", &another)
        .unwrap();
    assert_eq!(second.id, first.id);
    // last_activity should be updated.
    assert!(second.last_activity >= first.last_activity);
}

#[test]
fn per_chat_isolation_different_chats() {
    let repo = setup();
    seed_user(&repo);

    let s1 = sample_session("usr-1");
    repo.get_or_create_session(OWNER_A, "usr-1", "chat-abc", &s1)
        .unwrap();

    let s2 = ChannelConversationBindingRow {
        id: "sess-2".into(),
        chat_id: Some("chat-xyz".into()),
        ..sample_session("usr-1")
    };
    repo.get_or_create_session(OWNER_A, "usr-1", "chat-xyz", &s2)
        .unwrap();

    assert_eq!(repo.get_all_sessions(OWNER_A).unwrap().len(), 2);
}

#[test]
fn get_session_by_id() {
    let repo = setup();
    seed_user(&repo);

    let new = sample_session("usr-1");
    repo.get_or_create_session(OWNER_A, "usr-1", "chat-abc", &new)
        .unwrap();

    let found = repo.get_session(OWNER_A, "sess-1").unwrap().unwrap();
    assert_eq!(found.user_id, "usr-1");
    assert_eq!(found.chat_id.as_deref(), Some("chat-abc"));
    // Owner and connection are derived from the channel user, not taken
    // from the caller-supplied row (which left both empty).
    assert_eq!(found.owner_user_id, OWNER_A);
    assert_eq!(found.connection_id, "tg-1");
}

#[test]
fn get_session_not_found() {
    let repo = setup();
    assert!(repo.get_session(OWNER_A, "nope").unwrap().is_none());
}

#[test]
fn update_session_activity_updates_timestamp() {
    let repo = setup();
    seed_user(&repo);

    let new = sample_session("usr-1");
    repo.get_or_create_session(OWNER_A, "usr-1", "chat-abc", &new)
        .unwrap();

    let new_ts = now_ms() + 5000;
    repo.update_session_activity(OWNER_A, "sess-1", new_ts).unwrap();

    let found = repo.get_session(OWNER_A, "sess-1").unwrap().unwrap();
    assert_eq!(found.last_activity, new_ts);
}

#[test]
fn update_session_activity_not_found() {
    let repo = setup();
    let err = repo.update_session_activity(OWNER_A, "nope", 123).unwrap_err();
    assert!(matches!(err, DbError::NotFound(_)));
}

#[test]
fn delete_sessions_by_user_removes_all() {
    let repo = setup();
    seed_user(&repo);

    let s1 = sample_session("usr-1");
    repo.get_or_create_session(OWNER_A, "usr-1", "chat-abc", &s1)
        .unwrap();

    let s2 = ChannelConversationBindingRow {
        id: "sess-2".into(),
        chat_id: Some("chat-xyz".into()),
        ..sample_session("usr-1")
    };
    repo.get_or_create_session(OWNER_A, "usr-1", "chat-xyz", &s2)
        .unwrap();

    repo.delete_sessions_by_user(OWNER_A, "usr-1").unwrap();
    assert!(repo.get_all_sessions(OWNER_A).unwrap().is_empty());
}

#[test]
fn delete_sessions_by_user_no_sessions_is_ok() {
    let repo = setup();
    // No sessions exist for this user - should not error.
    repo.delete_sessions_by_user(OWNER_A, "usr-1").unwrap();
}

/// Helper to create a stub conversation for FK-constrained tests.
fn create_stub_conversation(repo: &Repo, user_id: &str, conv_id: &str) {
    repo.change(|store| {
        store
            .conversations
            .push(ConversationOwnerRow { id: conv_id.into(), user_id: user_id.into() })
    });
}

#[test]
fn update_session_conversation_persists() {
    let repo = setup();
    seed_user(&repo);

    let new = sample_session("usr-1");
    repo.get_or_create_session(OWNER_A, "usr-1", "chat-abc", &new)
        .unwrap();

    create_stub_conversation(&repo, OWNER_A, "conv-42");

    repo.update_session_conversation(OWNER_A, "sess-1", "conv-42")
        .unwrap();

    let found = repo.get_session(OWNER_A, "sess-1").unwrap().unwrap();
    assert_eq!(found.conversation_id.as_deref(), Some("conv-42"));
}

#[test]
fn update_session_conversation_rejects_cross_owner_conversation() {
    let repo = setup();
    seed_user(&repo);

    let new = sample_session("usr-1");
    repo.get_or_create_session(OWNER_A, "usr-1", "chat-abc", &new)
        .unwrap();

    create_stub_conversation(&repo, OWNER_B, "conv-other");

    let err = repo
        .update_session_conversation(OWNER_A, "sess-1", "conv-other")
        .unwrap_err();
    assert!(matches!(
        err,
        DbError::Conflict(msg) if msg.starts_with("CROSS_ACCOUNT_REFERENCE:")
    ));
    assert!(
        repo.get_session(OWNER_A, "sess-1")
            .unwrap()
            .unwrap()
            .conversation_id
            .is_none()
    );
}

#[test]
fn update_session_conversation_not_found() {
    let repo = setup();
    let err = repo
        .update_session_conversation(OWNER_A, "nope", "conv-1")
        .unwrap_err();
    assert!(matches!(err, DbError::NotFound(_)));
}

/// Replaces the pre-A3 `update_session_agent_type` coverage: agent
/// configuration is no longer a binding column, so what the binding must
/// now guarantee is that its owner/connection identity comes from the
/// channel user rather than from the caller.
#[test]
fn get_or_create_session_derives_owner_and_connection_ignoring_caller_values() {
    let repo = setup();
    seed_user(&repo);

    // A caller that lies about owner/connection must not be believed.
    let new = ChannelConversationBindingRow {
        owner_user_id: "attacker".into(),
        connection_id: "forged-connection".into(),
        ..sample_session("usr-1")
    };
    let created = repo
        .get_or_create_session(OWNER_A, "usr-1", "chat-abc", &new)
        .unwrap();
    assert_eq!(created.owner_user_id, OWNER_A);
    assert_eq!(created.connection_id, "tg-1");

    let found = repo.get_session(OWNER_A, "sess-1").unwrap().unwrap();
    assert_eq!(found.owner_user_id, OWNER_A);
    assert_eq!(found.connection_id, "tg-1");
}

/// A revoked channel user is no longer routable: the derive-side INSERT
/// filters on `status = 'active'`, so no new binding can be created.
#[test]
fn get_or_create_session_rejects_revoked_channel_user() {
    let repo = setup();
    seed_user(&repo);

    repo.revoke_user(OWNER_A, "usr-1").unwrap();

    let err = repo
        .get_or_create_session(OWNER_A, "usr-1", "chat-abc", &sample_session("usr-1"))
        .unwrap_err();
    assert!(
        matches!(err, DbError::NotFound(_)),
        "revoked user must not get a binding, got: {err:?}"
    );
    assert!(repo.get_all_sessions(OWNER_A).unwrap().is_empty());
}

#[test]
fn delete_session_by_user_chat_removes_only_target() {
    let repo = setup();
    seed_user(&repo);

    let s1 = sample_session("usr-1");
    repo.get_or_create_session(OWNER_A, "usr-1", "chat-abc", &s1)
        .unwrap();

    let s2 = ChannelConversationBindingRow {
        id: "sess-2".into(),
        chat_id: Some("chat-xyz".into()),
        ..sample_session("usr-1")
    };
    repo.get_or_create_session(OWNER_A, "usr-1", "chat-xyz", &s2)
        .unwrap();

    repo.delete_session_by_user_chat(OWNER_A, "usr-1", "chat-abc")
        .unwrap();

    let remaining = repo.get_all_sessions(OWNER_A).unwrap();
    assert_eq!(remaining.len(), 1);
    assert_eq!(remaining[0].chat_id.as_deref(), Some("chat-xyz"));
}

#[test]
fn delete_session_by_user_chat_no_match_is_ok() {
    let repo = setup();
    // No sessions exist - should not error.
    repo.delete_session_by_user_chat(OWNER_A, "usr-1", "chat-abc")
        .unwrap();
}

// Pairing tests

#[test]
fn create_and_get_pairing() {
    let repo = setup();
    seed_connection(&repo, OWNER_A);
    let pairing = sample_pairing();
    repo.create_pairing(OWNER_A, &pairing).unwrap();

    // Addressable by surrogate id ...
    let found = repo.get_pairing(OWNER_A, "pair-1").unwrap().unwrap();
    assert_eq!(found.platform_user_id, "tg_99");
    assert_eq!(found.status, "pending");
    // ... and platform_type is derived from the joined connection.
    assert_eq!(found.platform_type, "telegram");

    // ... and by code hash, while pending.
    let by_hash = repo
        .get_pending_pairing_by_code_hash(OWNER_A, "hash-123456")
        .unwrap()
        .unwrap();
    assert_eq!(by_hash.id, "pair-1");
}

/// The plaintext code must never reach the database: only `code_hash`
/// is stored, and the table has no column that could hold the code.
#[test]
fn pairing_stores_only_the_code_hash() {
    let repo = setup();
    seed_connection(&repo, OWNER_A);
    repo.create_pairing(OWNER_A, &sample_pairing()).unwrap();

    
    let stored = repo.read(|store| {
        store.pairings.iter().find(|row| row.id == "pair-1").unwrap().code_hash.clone()
    });
    assert_eq!(stored, "hash-123456");
    assert_ne!(stored, "123456");
}

#[test]
fn create_duplicate_pairing_returns_conflict() {
    let repo = setup();
    seed_connection(&repo, OWNER_A);
    repo.create_pairing(OWNER_A, &sample_pairing()).unwrap();
    let second = ChannelPairingRequestRow {
        id: "pair-2".into(),
        ..sample_pairing()
    };
    // One pending request per (owner, connection, external user).
    let err = repo.create_pairing(OWNER_A, &second).unwrap_err();
    assert!(matches!(err, DbError::Conflict(_)));
}

#[test]
fn pairing_lookup_is_filtered_by_owner() {
    let repo = setup();
    seed_connection(&repo, OWNER_A);

    repo.create_pairing(OWNER_A, &sample_pairing()).unwrap();

    assert!(repo.get_pairing(OWNER_B, "pair-1").unwrap().is_none());
    assert!(
        repo.get_pending_pairing_by_code_hash(OWNER_B, "hash-123456")
            .unwrap()
            .is_none()
    );
    assert!(repo.get_pending_pairings(OWNER_B).unwrap().is_empty());
}

#[test]
fn same_code_hash_can_exist_for_different_owners() {
    let repo = setup();
    seed_connection(&repo, OWNER_A);
    seed_connection(&repo, OWNER_B);

    repo.create_pairing(OWNER_A, &sample_pairing()).unwrap();
    let owner_b_pairing = ChannelPairingRequestRow {
        id: "pair-2".into(),
        owner_user_id: OWNER_B.into(),
        platform_user_id: "tg_owner_b".into(),
        ..sample_pairing()
    };
    repo.create_pairing(OWNER_B, &owner_b_pairing).unwrap();

    let owner_a = repo
        .get_pending_pairing_by_code_hash(OWNER_A, "hash-123456")
        .unwrap()
        .unwrap();
    let owner_b = repo
        .get_pending_pairing_by_code_hash(OWNER_B, "hash-123456")
        .unwrap()
        .unwrap();
    assert_eq!(owner_a.platform_user_id, "tg_99");
    assert_eq!(owner_b.platform_user_id, "tg_owner_b");
}

#[test]
fn get_pending_pairings_filters_by_status() {
    let repo = setup();
    seed_connection(&repo, OWNER_A);
    let p1 = sample_pairing();
    repo.create_pairing(OWNER_A, &p1).unwrap();

    let p2 = ChannelPairingRequestRow {
        id: "pair-2".into(),
        platform_user_id: "tg_100".into(),
        code_hash: "hash-654321".into(),
        status: "approved".into(),
        ..sample_pairing()
    };
    repo.create_pairing(OWNER_A, &p2).unwrap();

    let pending = repo.get_pending_pairings(OWNER_A).unwrap();
    assert_eq!(pending.len(), 1);
    assert_eq!(pending[0].id, "pair-1");
    assert_eq!(pending[0].code_hash, "hash-123456");
}

#[test]
fn pairing_lookups_not_found() {
    let repo = setup();
    assert!(repo.get_pairing(OWNER_A, "nope").unwrap().is_none());
    assert!(
        repo.get_pending_pairing_by_code_hash(OWNER_A, "hash-000000")
            .unwrap()
            .is_none()
    );
}

/// A non-pending request is invisible to the code-hash lookup, so an
/// already-used code cannot be replayed.
#[test]
fn code_hash_lookup_ignores_non_pending() {
    let repo = setup();
    seed_connection(&repo, OWNER_A);
    repo.create_pairing(OWNER_A, &sample_pairing()).unwrap();
    repo.update_pairing_status(OWNER_A, "pair-1", "rejected", None)
        .unwrap();

    assert!(
        repo.get_pending_pairing_by_code_hash(OWNER_A, "hash-123456")
            .unwrap()
            .is_none()
    );
    // The row itself is still addressable by id.
    assert_eq!(
        repo.get_pairing(OWNER_A, "pair-1").unwrap().unwrap().status,
        "rejected"
    );
}

#[test]
fn update_pairing_status_records_approved_user() {
    let repo = setup();
    seed_user(&repo);
    repo.create_pairing(OWNER_A, &sample_pairing()).unwrap();

    repo.update_pairing_status(OWNER_A, "pair-1", "approved", Some("usr-1"))
        .unwrap();

    let found = repo.get_pairing(OWNER_A, "pair-1").unwrap().unwrap();
    assert_eq!(found.status, "approved");
    assert_eq!(found.approved_channel_user_id.as_deref(), Some("usr-1"));
}

#[test]
fn update_pairing_status_not_found() {
    let repo = setup();
    let err = repo
        .update_pairing_status(OWNER_A, "nope", "approved", None)
        .unwrap_err();
    assert!(matches!(err, DbError::NotFound(_)));
}

#[test]
fn expire_pending_pairings_for_user_targets_one_user() {
    let repo = setup();
    seed_connection(&repo, OWNER_A);
    repo.create_pairing(OWNER_A, &sample_pairing()).unwrap();

    let other = ChannelPairingRequestRow {
        id: "pair-2".into(),
        platform_user_id: "tg_100".into(),
        code_hash: "hash-654321".into(),
        ..sample_pairing()
    };
    repo.create_pairing(OWNER_A, &other).unwrap();

    let expired = repo
        .expire_pending_pairings_for_user(OWNER_A, "tg-1", "tg_99")
        .unwrap();
    assert_eq!(expired, 1);

    assert_eq!(
        repo.get_pairing(OWNER_A, "pair-1").unwrap().unwrap().status,
        "expired"
    );
    assert_eq!(
        repo.get_pairing(OWNER_A, "pair-2").unwrap().unwrap().status,
        "pending"
    );
}

#[test]
fn cleanup_expired_pairings_marks_expired() {
    let repo = setup();
    seed_connection(&repo, OWNER_A);
    let now = now_ms();

    // Create an already-expired pairing.
    let expired = ChannelPairingRequestRow {
        id: "pair-expired".into(),
        platform_user_id: "tg_expired".into(),
        code_hash: "hash-111111".into(),
        expires_at: now - 1000,
        ..sample_pairing()
    };
    repo.create_pairing(OWNER_A, &expired).unwrap();

    // Create a still-valid pairing.
    let valid = ChannelPairingRequestRow {
        id: "pair-valid".into(),
        platform_user_id: "tg_valid".into(),
        code_hash: "hash-222222".into(),
        expires_at: now + 600_000,
        ..sample_pairing()
    };
    repo.create_pairing(OWNER_A, &valid).unwrap();

    let cleaned = repo.cleanup_expired_pairings(OWNER_A, now).unwrap();
    assert_eq!(cleaned, 1);

    let found_expired = repo.get_pairing(OWNER_A, "pair-expired").unwrap().unwrap();
    assert_eq!(found_expired.status, "expired");

    let found_valid = repo.get_pairing(OWNER_A, "pair-valid").unwrap().unwrap();
    assert_eq!(found_valid.status, "pending");
}

#[test]
fn cleanup_expired_pairings_skips_non_pending() {
    let repo = setup();
    seed_connection(&repo, OWNER_A);
    let now = now_ms();

    // Create an expired pairing that is already approved.
    let approved = ChannelPairingRequestRow {
        id: "pair-approved".into(),
        code_hash: "hash-333333".into(),
        expires_at: now - 1000,
        status: "approved".into(),
        ..sample_pairing()
    };
    repo.create_pairing(OWNER_A, &approved).unwrap();

    let cleaned = repo.cleanup_expired_pairings(OWNER_A, now).unwrap();
    assert_eq!(cleaned, 0);

    let found = repo.get_pairing(OWNER_A, "pair-approved").unwrap().unwrap();
    assert_eq!(found.status, "approved");
}

#[test]
fn a_connection_is_found_by_its_plugin() {
    let repo = setup();
    seed_connection(&repo, OWNER_A);
    let all = repo.get_all_connections(OWNER_A).unwrap();
    for row in &all {
        let found = repo.read(|store| store.get_connection_by_plugin_key(OWNER_A, &row.plugin_key));
        assert_eq!(found.as_ref(), Some(row));
        assert_eq!(
            repo.read(|store| store.get_connection_by_plugin_key("stranger", &row.plugin_key)),
            None,
        );
    }
    assert_eq!(repo.read(|store| store.get_connection_by_plugin_key(OWNER_A, "no such")), None);
}

#[test]
fn engine_messages_are_told_apart() {
    assert!(is_unique_violation("(code: 2067) UNIQUE constraint failed: channel_users.id"));
    assert!(!is_unique_violation("FOREIGN KEY constraint failed"));
    assert!(matches!(pairing_write_error("UNIQUE constraint failed: x"), DbError::Conflict(_)));
    assert_eq!(pairing_write_error("disk full"), DbError::Query("disk full".into()));
    let row = sample_user();
    assert!(matches!(channel_user_write_error(&row, "UNIQUE constraint failed: x"), DbError::Conflict(_)));
    assert_eq!(channel_user_write_error(&row, "disk full"), DbError::Query("disk full".into()));
}

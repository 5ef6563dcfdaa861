//! Managing accounts: the first administrator, roles, sessions and the audit.
use aionui_db::admin::accounts::{
    ensure_local_identity, user_write_error, AccountStore, AdminUserRepositoryError, AuditEntry,
};
use aionui_db::admin::rows::{AuditActor, AuthSessionRow, SiteRole, UserRow, UserStatus};
use aionui_db::error::DbError;

struct Repo {
    store: AccountStore,
    serial: i64,
}

fn setup() -> Repo {
    let mut store = AccountStore::new();
    store.users.push(user("system_default_user", "local", None));
    Repo { store, serial: 0 }
}

fn user(id: &str, user_type: &str, username: Option<&str>) -> UserRow {
    UserRow {
        id: id.into(),
        user_type: user_type.into(),
        username: username.map(str::to_owned),
        password_hash: None,
        status: "active".into(),
        site_role: "member".into(),
        must_change_password: false,
        session_generation: 0,
        created_at: 1,
        updated_at: 1,
    }
}

impl Repo {
    fn entry(&mut self) -> AuditEntry {
        self.serial += 1;
        AuditEntry {
            id: format!("audit-{:03}", self.serial),
            actor: AuditActor { user_id: None, username: None },
            now: 100 + self.serial,
        }
    }

    fn bootstrap_initial_admin(
        &mut self,
        username: &str,
        hash: &str,
    ) -> Result<Option<UserRow>, AdminUserRepositoryError> {
        let entry = self.entry();
        self.store.bootstrap_initial_admin(username, hash, &entry)
    }

    fn create_managed_user(
        &mut self,
        username: &str,
        hash: &str,
        role: SiteRole,
    ) -> Result<UserRow, AdminUserRepositoryError> {
        let entry = self.entry();
        let id = format!("user-{}", self.serial);
        self.store.create_managed_user(&id, username, hash, role, &entry)
    }

    fn create_auth_session(&mut self, user_id: &str, expires_at: i64) -> String {
        self.serial += 1;
        let id = format!("session-{}", self.serial);
        self.store.sessions.push(AuthSessionRow {
            id: id.clone(),
            user_id: user_id.into(),
            expires_at,
            revoked_at: None,
            revoke_reason: None,
            created_at: 1,
        });
        id
    }

    fn is_auth_session_active(&self, id: &str, user_id: &str) -> bool {
        self.store
            .sessions
            .iter()
            .any(|row| row.id == id && row.user_id == user_id && row.revoked_at.is_none())
    }
}

#[test]
fn bootstrap_is_atomic_and_marks_temporary_admin() {
    let mut repository = setup();
    let created = repository.bootstrap_initial_admin("admin", "hash").unwrap().unwrap();
    assert_eq!(created.site_role, SiteRole::Admin.as_str());
    assert_eq!(created.status, UserStatus::Active.as_str());
    assert!(created.must_change_password);
    assert!(repository.bootstrap_initial_admin("other", "hash2").unwrap().is_none());
}

#[test]
fn bootstrap_recovers_when_the_system_user_row_is_missing() {
    let mut repository = setup();
    repository.store.users.retain(|row| row.id != "system_default_user");

    let created = repository.bootstrap_initial_admin("recovered-admin", "hash").unwrap().unwrap();
    assert_eq!(created.id, "system_default_user");
    assert_eq!(created.username.as_deref(), Some("recovered-admin"));
    assert_eq!(created.site_role, SiteRole::Admin.as_str());
    assert!(created.must_change_password);
}

#[test]
fn last_usable_admin_cannot_be_demoted_or_disabled() {
    let mut repository = setup();
    repository.bootstrap_initial_admin("admin", "hash").unwrap();
    let entry = repository.entry();
    let demote = repository.store.update_managed_role("system_default_user", SiteRole::Member, &entry);
    assert!(matches!(demote, Err(AdminUserRepositoryError::LastActiveAdmin)));
    let entry = repository.entry();
    let disable =
        repository.store.update_managed_status("system_default_user", UserStatus::Disabled, &entry);
    assert!(matches!(disable, Err(AdminUserRepositoryError::LastActiveAdmin)));

    let second = repository.create_managed_user("second-admin", "hash", SiteRole::Admin).unwrap();
    let entry = repository.entry();
    repository
        .store
        .update_managed_role("system_default_user", SiteRole::Member, &entry)
        .unwrap();
    assert_eq!(second.site_role, SiteRole::Admin.as_str());
}

#[test]
fn browser_admin_repository_excludes_external_identities() {
    let mut repository = setup();
    repository.store.users.push(user("external-1", "aionpro", None));
    assert_eq!(repository.store.count_managed_users(), 1);
    let entry = repository.entry();
    let result = repository.store.update_managed_status("external-1", UserStatus::Disabled, &entry);
    assert!(matches!(result, Err(AdminUserRepositoryError::UnsupportedIdentity)));
}

#[test]
fn password_reset_revokes_only_target_sessions_and_audit_is_append_only() {
    let mut repository = setup();
    repository.bootstrap_initial_admin("admin", "hash").unwrap();
    let member = repository.create_managed_user("member-one", "hash", SiteRole::Member).unwrap();
    let admin_session = repository.create_auth_session("system_default_user", i64::MAX);
    let member_session = repository.create_auth_session(&member.id, i64::MAX);
    let before = repository.store.audit.clone();
    let entry = repository.entry();
    repository.store.reset_managed_password(&member.id, "new-hash", &entry).unwrap();
    assert!(repository.is_auth_session_active(&admin_session, "system_default_user"));
    assert!(!repository.is_auth_session_active(&member_session, &member.id));

    assert_eq!(repository.store.audit.len(), before.len() + 1);
    assert_eq!(repository.store.audit[..before.len()], before[..]);
}

#[test]
fn a_taken_name_is_a_conflict_and_leaves_everything_as_it_was() {
    let mut repository = setup();
    repository.bootstrap_initial_admin("admin", "hash").unwrap();
    let first = repository.create_managed_user("member", "hash", SiteRole::Member).unwrap();
    let before = repository.store.clone();
    assert_eq!(
        repository.create_managed_user("admin", "hash", SiteRole::Member),
        Err(AdminUserRepositoryError::Database(DbError::Conflict("username already exists".into()))),
    );
    let entry = repository.entry();
    assert_eq!(
        repository.store.update_managed_username(&first.id, "admin", &entry),
        Err(AdminUserRepositoryError::Database(DbError::Conflict("username already exists".into()))),
    );
    assert_eq!(repository.store, before);
}

#[test]
fn an_unknown_account_is_not_found() {
    let mut repository = setup();
    let entry = repository.entry();
    assert_eq!(
        repository.store.update_managed_username("nobody", "name", &entry),
        Err(AdminUserRepositoryError::Database(DbError::NotFound("User 'nobody' not found".into()))),
    );
}

#[test]
fn the_audit_records_who_did_what_with_json_details() {
    let mut repository = setup();
    repository.bootstrap_initial_admin("admin", "hash").unwrap();
    let entry = AuditEntry {
        id: "audit-by-admin".into(),
        actor: AuditActor {
            user_id: Some("system_default_user".into()),
            username: Some("admin".into()),
        },
        now: 500,
    };
    let created =
        repository.store.create_managed_user("user-x", "new-one", "hash", SiteRole::Member, &entry).unwrap();
    let record = repository.store.audit.last().unwrap();
    assert_eq!(record.id, "audit-by-admin");
    assert_eq!(record.occurred_at, 500);
    assert_eq!(record.actor_username.as_deref(), Some("admin"));
    assert_eq!(record.action, "user.created");
    assert_eq!(record.target_user_id.as_deref(), Some(created.id.as_str()));
    assert_eq!(record.details, "{\"role\":\"member\"}");
    assert_eq!(created.session_generation, 0);
    assert!(created.must_change_password);
}

#[test]
fn an_audit_page_goes_on_behind_its_cursor() {
    let mut repository = setup();
    repository.bootstrap_initial_admin("admin", "hash").unwrap();
    for name in ["one", "two", "three"] {
        repository.create_managed_user(name, "hash", SiteRole::Member).unwrap();
    }
    let first = repository.store.list_admin_audit(None, 2).unwrap();
    assert_eq!(first.len(), 2);
    let cursor = first[1].id.clone();
    let rest = repository.store.list_admin_audit(Some(cursor.as_str()), 10).unwrap();
    let mut ids: Vec<String> = first.iter().chain(rest.iter()).map(|row| row.id.clone()).collect();
    assert_eq!(ids.len(), repository.store.audit.len());
    ids.dedup();
    assert_eq!(ids.len(), repository.store.audit.len());
    assert!(first[0].occurred_at > rest[0].occurred_at);
}

#[test]
fn managed_users_are_listed_in_pages() {
    let mut repository = setup();
    repository.store.users.push(user("external-1", "aionpro", None));
    repository.create_managed_user("one", "hash", SiteRole::Member).unwrap();
    repository.create_managed_user("two", "hash", SiteRole::Member).unwrap();
    assert_eq!(repository.store.count_managed_users(), 3);
    let page = repository.store.list_managed_users(2, 1);
    let names: Vec<Option<&str>> = page.iter().map(|row| row.username.as_deref()).collect();
    assert_eq!(names, [Some("one"), Some("two")]);
}

#[test]
fn changing_a_role_signs_the_user_out() {
    let mut repository = setup();
    repository.bootstrap_initial_admin("admin", "hash").unwrap();
    let member = repository.create_managed_user("member", "hash", SiteRole::Member).unwrap();
    let session = repository.create_auth_session(&member.id, i64::MAX);
    let entry = repository.entry();
    let changed = repository.store.update_managed_role(&member.id, SiteRole::Admin, &entry).unwrap();
    assert_eq!(changed.site_role, "admin");
    assert_eq!(changed.session_generation, member.session_generation + 1);
    assert!(!repository.is_auth_session_active(&session, &member.id));
}

#[test]
fn a_password_that_was_chosen_need_not_be_changed_again() {
    let mut repository = setup();
    repository.bootstrap_initial_admin("admin", "hash").unwrap();
    let entry = repository.entry();
    let own =
        repository.store.change_own_password("system_default_user", "chosen", &entry).unwrap();
    assert_eq!(own.password_hash.as_deref(), Some("chosen"));
    assert!(!own.must_change_password);
    let entry = repository.entry();
    let reset =
        repository.store.reset_managed_password("system_default_user", "reset", &entry).unwrap();
    assert!(reset.must_change_password);
}

#[test]
fn only_local_accounts_have_a_local_identity() {
    assert_eq!(ensure_local_identity(&user("a", "local", None)), Ok(()));
    assert_eq!(
        ensure_local_identity(&user("b", "aionpro", None)),
        Err(AdminUserRepositoryError::UnsupportedIdentity),
    );
}

#[test]
fn a_refused_write_names_the_name_or_the_message() {
    assert_eq!(
        user_write_error(true, "anything"),
        AdminUserRepositoryError::Database(DbError::Conflict("username already exists".into())),
    );
    assert_eq!(
        user_write_error(false, "disk full"),
        AdminUserRepositoryError::Database(DbError::Query("disk full".into())),
    );
}

#[test]
fn ending_sessions_signs_a_user_out_and_is_on_record() {
    let mut repo = setup();
    let member = repo.create_managed_user("member", "hash", SiteRole::Member).unwrap();
    let session = repo.create_auth_session(&member.id, 10_000);
    let records = repo.store.audit.clone();
    let entry = repo.entry();
    let after = repo.store.revoke_managed_sessions(&member.id, &entry).unwrap();
    assert_eq!(after.session_generation, member.session_generation + 1);
    assert!(!repo.is_auth_session_active(&session, &member.id));
    assert_eq!(repo.store.sessions[0].revoke_reason.as_deref(), Some("admin_revoked"));
    assert_eq!(&repo.store.audit[..records.len()], &records[..]);
    let last = repo.store.audit.last().unwrap();
    assert_eq!((last.action.as_str(), last.details.as_str()), ("user.sessions_revoked", "{}"));
    let entry = repo.entry();
    assert!(matches!(
        repo.store.revoke_managed_sessions("nobody", &entry),
        Err(AdminUserRepositoryError::Database(DbError::NotFound(_))),
    ));
}

#[test]
fn a_role_is_changed_or_refused_and_an_administrator_is_left() {
    let mut repo = setup();
    repo.store.users.push(user("outside", "external", Some("guest")));
    repo.bootstrap_initial_admin("admin", "hash").unwrap();
    let before = repo.store.users.clone();
    let entry = repo.entry();
    let outside = repo.store.update_managed_role("outside", SiteRole::Admin, &entry);
    assert!(matches!(outside, Err(AdminUserRepositoryError::UnsupportedIdentity)));
    let last = repo.store.update_managed_role("system_default_user", SiteRole::Member, &entry);
    assert!(matches!(last, Err(AdminUserRepositoryError::LastActiveAdmin)));
    assert_eq!(repo.store.users, before);

    let second = repo.create_managed_user("second", "hash", SiteRole::Member).unwrap();
    repo.create_auth_session(&second.id, 1_000);
    let entry = repo.entry();
    let raised = repo.store.update_managed_role(&second.id, SiteRole::Admin, &entry).unwrap();
    assert_eq!(raised.site_role, "admin");
    assert!(repo.store.sessions.iter().all(|session| session.revoked_at.is_some()));
    let entry = repo.entry();
    repo.store.update_managed_role("system_default_user", SiteRole::Member, &entry).unwrap();
    let left = |user: &&UserRow| user.site_role == "admin" && user.status == "active";
    assert_eq!(repo.store.users.iter().filter(left).count(), 1);
}

#[test]
fn the_first_administrator_is_set_up_beside_an_account_that_is_full() {
    let mut repo = setup();
    let full = UserRow { session_generation: i64::MAX, ..user("full", "local", Some("full")) };
    repo.store.users.push(full);
    let admin = repo.bootstrap_initial_admin("admin", "hash").unwrap().unwrap();
    assert_eq!((admin.id.as_str(), admin.session_generation), ("system_default_user", 1));
    assert_eq!(repo.store.users[1].session_generation, i64::MAX);
}

#[test]
fn the_first_administrator_gets_the_account_that_is_due() {
    let keyed = |id: &str, name: &str, created_at: i64| UserRow {
        password_hash: Some("old".into()),
        created_at,
        ..user(id, "local", Some(name))
    };
    let mut repo = setup();
    repo.store.users.push(keyed("early", "admin", 0));
    let held = repo.bootstrap_initial_admin("admin", "hash");
    assert!(held.is_err());
    let row = repo.bootstrap_initial_admin("chief", "hash").unwrap().unwrap();
    assert_eq!((row.id.as_str(), row.user_type.as_str()), ("system_default_user", "local"));
    assert_eq!((row.site_role.as_str(), row.status.as_str()), ("admin", "active"));
    assert_eq!(row.username.as_deref(), Some("chief"));
    assert_eq!(row.password_hash.as_deref(), Some("hash"));
    assert!(row.must_change_password);
    assert_eq!(repo.bootstrap_initial_admin("other", "hash").unwrap(), None);

    let mut repo = setup();
    repo.store.users = vec![keyed("late", "admin", 9), keyed("early", "first", 1)];
    let named = repo.bootstrap_initial_admin("admin", "hash").unwrap().unwrap();
    assert_eq!(named.id, "late");
    let mut repo = setup();
    repo.store.users = vec![keyed("late", "last", 9), keyed("early", "first", 1)];
    let oldest = repo.bootstrap_initial_admin("admin", "hash").unwrap().unwrap();
    assert_eq!(oldest.id, "early");
    let mut repo = setup();
    repo.store.users = vec![user("bare", "local", Some("bare"))];
    let made = repo.bootstrap_initial_admin("admin", "hash").unwrap().unwrap();
    assert_eq!(made.id, "system_default_user");
}

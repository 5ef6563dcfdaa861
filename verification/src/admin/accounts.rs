//! Managing accounts: creating them, changing what they may do, and the record
//! of who did it.
use crate::admin::rows::{
    role_text, status_text, AdminAuditRecord, AuditActor, AuthSessionRow, SiteRole, UserRow,
    UserStatus,
};
use crate::error::{missing, not_found, DbError};
use crate::json::{
    json_field, json_object_text, json_opt, json_text, member, text_or_null, write_object,
    JsonField, JsonScalar,
};
use crate::table::{
    any_where, copy_rows, exists_in, find_where, law_selected, least, least_where, limited, lookup,
    model, ordered, select_where, selected, sort_rows, take_limited, update_where, updated, Record,
};
use crate::text::{
    before, borrow_opt, copy_opt, is_some_text, opt_str, opt_text, own_opt, same, text_before,
};
use vstd::prelude::*;

verus! {

/// The model of an account.
pub type User = UserRow<Seq<char>>;

/// The model of a session.
pub type Session = AuthSessionRow<Seq<char>>;

/// The model of an audit record.
pub type Audit = AdminAuditRecord<Seq<char>>;

/// Why an account could not be managed.
#[derive(Debug, Clone, PartialEq, Eq)]
pub enum AdminUserRepositoryError<T = String> {
    /// The storage refused, or what is named does not exist.
    Database(DbError<T>),
    /// The last active administrator cannot be demoted or disabled.
    LastActiveAdmin,
    /// The operation is only supported for local password users.
    UnsupportedIdentity,
}

impl View for AdminUserRepositoryError<String> {
    type V = AdminUserRepositoryError<Seq<char>>;

    open spec fn view(&self) -> AdminUserRepositoryError<Seq<char>> {
        match self {
            AdminUserRepositoryError::Database(error) => AdminUserRepositoryError::Database(error@),
            AdminUserRepositoryError::LastActiveAdmin => AdminUserRepositoryError::LastActiveAdmin,
            AdminUserRepositoryError::UnsupportedIdentity => {
                AdminUserRepositoryError::UnsupportedIdentity
            },
        }
    }
}

/// The model of such an error.
pub type Refusal = AdminUserRepositoryError<Seq<char>>;

/// The account tables.
#[derive(Debug, Clone, PartialEq, Eq)]
pub struct AccountStore {
    pub users: Vec<UserRow>,
    pub sessions: Vec<AuthSessionRow>,
    pub audit: Vec<AdminAuditRecord>,
}

/// The model of the account tables.
#[verifier::ext_equal]
pub struct AccountModel {
    pub users: Seq<User>,
    pub sessions: Seq<Session>,
    pub audit: Seq<Audit>,
}

impl View for AccountStore {
    type V = AccountModel;

    open spec fn view(&self) -> AccountModel {
        AccountModel {
            users: model(self.users@),
            sessions: model(self.sessions@),
            audit: model(self.audit@),
        }
    }
}

// ----------------------------------------------------------------------------
// Accounts
// ----------------------------------------------------------------------------

/// The accounts with an id.
pub open spec fn user_with_id(id: Seq<char>) -> spec_fn(User) -> bool {
    |user: User| user.id == id
}

/// The accounts that administrators manage: those with a password of their own.
pub open spec fn managed() -> spec_fn(User) -> bool {
    |user: User| user.user_type == "local"@
}

/// Whether an account has a password.
pub open spec fn has_password(user: User) -> bool {
    user.password_hash is Some && user.password_hash->0 != ""@
}

/// Whether an account is an administrator's that can be used.
pub open spec fn usable_admin(user: User) -> bool {
    user.user_type == "local"@ && user.site_role == "admin"@ && user.status == "active"@
        && has_password(user)
}

/// The usable administrators.
pub open spec fn is_usable_admin() -> spec_fn(User) -> bool {
    |user: User| usable_admin(user)
}

/// The usable administrators but for one account.
pub open spec fn other_usable_admin(id: Seq<char>) -> spec_fn(User) -> bool {
    |user: User| usable_admin(user) && user.id != id
}

/// The accounts, but for one, that have a name.
pub open spec fn other_with_name(id: Seq<char>, username: Seq<char>) -> spec_fn(User) -> bool {
    |user: User| user.id != id && user.username == Some(username)
}

/// The order in which accounts are listed: the oldest first.
pub open spec fn older_user() -> spec_fn(User, User) -> bool {
    |a: User, b: User|
        a.created_at < b.created_at || (a.created_at == b.created_at && text_before(a.id, b.id))
}

/// The error for an unknown account.
pub open spec fn user_missing(id: Seq<char>) -> Refusal {
    AdminUserRepositoryError::Database(missing("User '"@, id, "' not found"@))
}

/// The error for a name, or an id, that is taken.
pub open spec fn name_taken() -> Refusal {
    AdminUserRepositoryError::Database(DbError::Conflict("username already exists"@))
}

/// The error for an audit id that is taken.
pub open spec fn audit_id_taken() -> Refusal {
    AdminUserRepositoryError::Database(
        DbError::Query("UNIQUE constraint failed: admin_audit_log.id"@),
    )
}

// ----------------------------------------------------------------------------
// Sessions and records
// ----------------------------------------------------------------------------

/// An account's sessions that are not revoked.
pub open spec fn open_session(user_id: Seq<char>) -> spec_fn(Session) -> bool {
    |session: Session| session.user_id == user_id && session.revoked_at is None
}

/// A revoked session.
pub open spec fn revoked(reason: Seq<char>, now: i64) -> spec_fn(Session) -> Session {
    |session: Session|
        AuthSessionRow { revoked_at: Some(now), revoke_reason: Some(reason), ..session }
}

/// The records with an id.
pub open spec fn audit_with_id(id: Seq<char>) -> spec_fn(Audit) -> bool {
    |row: Audit| row.id == id
}

/// Who does something to an account, when, and the id of the record of it.
pub struct AuditEntry {
    pub id: String,
    pub actor: AuditActor,
    pub now: i64,
}

/// The record of something that was done.
pub open spec fn recorded(
    entry: AuditEntry,
    action: Seq<char>,
    target_user_id: Seq<char>,
    target_username: Option<Seq<char>>,
    details: Seq<char>,
) -> Audit {
    AdminAuditRecord {
        id: entry.id@,
        occurred_at: entry.now,
        actor_user_id: opt_text(entry.actor.user_id),
        actor_username: opt_text(entry.actor.username),
        action,
        target_user_id: Some(target_user_id),
        target_username,
        details,
    }
}

/// The text of what was changed from what to what.
pub open spec fn change_details(from: Option<Seq<char>>, to: Seq<char>) -> Seq<char> {
    json_object_text(
        seq![member("from"@, text_or_null(from)), member("to"@, JsonScalar::Text(to))],
    )
}

/// The text of whether a password must be changed.
pub open spec fn password_details(must_change: bool) -> Seq<char> {
    json_object_text(seq![member("must_change_password"@, JsonScalar::Flag(must_change))])
}

// ----------------------------------------------------------------------------
// Changes
// ----------------------------------------------------------------------------

/// The tables after an account was changed: its sessions are revoked and the
/// change is on record.
pub open spec fn changed(
    store: AccountModel,
    user_id: Seq<char>,
    change: spec_fn(User) -> User,
    reason: Seq<char>,
    record: Audit,
) -> AccountModel {
    AccountModel {
        users: updated(store.users, user_with_id(user_id), change),
        sessions: updated(
            store.sessions,
            open_session(user_id),
            revoked(reason, record.occurred_at),
        ),
        audit: store.audit.push(record),
    }
}

/// The account that is to be changed, if it may be: it must exist and have a
/// password of its own.
pub open spec fn target(users: Seq<User>, user_id: Seq<char>) -> Result<User, Refusal> {
    match lookup(users, user_with_id(user_id)) {
        None => Err(user_missing(user_id)),
        Some(user) => if user.user_type == "local"@ {
            Ok(user)
        } else {
            Err(AdminUserRepositoryError::UnsupportedIdentity)
        },
    }
}

/// An account with another name.
pub open spec fn renamed(username: Seq<char>, now: i64) -> spec_fn(User) -> User {
    |user: User|
        UserRow {
            username: Some(username),
            session_generation: (user.session_generation + 1) as i64,
            updated_at: now,
            ..user
        }
}

/// An account with another role.
pub open spec fn with_role(role: SiteRole, now: i64) -> spec_fn(User) -> User {
    |user: User|
        UserRow {
            site_role: role_text(role),
            session_generation: (user.session_generation + 1) as i64,
            updated_at: now,
            ..user
        }
}

/// An account with another status.
pub open spec fn with_status(status: UserStatus, now: i64) -> spec_fn(User) -> User {
    |user: User|
        UserRow {
            status: status_text(status),
            session_generation: (user.session_generation + 1) as i64,
            updated_at: now,
            ..user
        }
}

/// An account with another password.
pub open spec fn with_password(password_hash: Seq<char>, must_change: bool, now: i64) -> spec_fn(
    User,
) -> User {
    |user: User|
        UserRow {
            password_hash: Some(password_hash),
            must_change_password: must_change,
            session_generation: (user.session_generation + 1) as i64,
            updated_at: now,
            ..user
        }
}

/// An account whose sessions are all over.
pub open spec fn signed_out(now: i64) -> spec_fn(User) -> User {
    |user: User|
        UserRow {
            session_generation: (user.session_generation + 1) as i64,
            updated_at: now,
            ..user
        }
}

/// A new account.
pub open spec fn new_user(
    id: Seq<char>,
    username: Seq<char>,
    password_hash: Seq<char>,
    role: Seq<char>,
    session_generation: i64,
    now: i64,
) -> User {
    UserRow {
        id,
        user_type: "local"@,
        username: Some(username),
        password_hash: Some(password_hash),
        status: "active"@,
        site_role: role,
        must_change_password: true,
        session_generation,
        created_at: now,
        updated_at: now,
    }
}

/// A change of an account and what it comes to: the tables and the account after
/// it.
pub open spec fn change_step(
    store: AccountModel,
    user: User,
    change: spec_fn(User) -> User,
    reason: Seq<char>,
    record: Audit,
) -> Result<(AccountModel, User), Refusal> {
    if exists_in(store.audit, audit_with_id(record.id)) {
        Err(audit_id_taken())
    } else {
        Ok((changed(store, user.id, change, reason, record), change(user)))
    }
}

/// What creating an account comes to.
pub open spec fn create_step(
    store: AccountModel,
    id: Seq<char>,
    username: Seq<char>,
    password_hash: Seq<char>,
    role: SiteRole,
    entry: AuditEntry,
) -> Result<(AccountModel, User), Refusal> {
    let user = new_user(id, username, password_hash, role_text(role), 0, entry.now);
    if exists_in(store.users, user_with_id(id)) || exists_in(
        store.users,
        other_with_name(id, username),
    ) {
        Err(name_taken())
    } else if exists_in(store.audit, audit_with_id(entry.id@)) {
        Err(audit_id_taken())
    } else {
        Ok(
            (
                AccountModel {
                    users: store.users.push(user),
                    sessions: store.sessions,
                    audit: store.audit.push(
                        recorded(
                            entry,
                            "user.created"@,
                            id,
                            Some(username),
                            json_object_text(
                                seq![member("role"@, JsonScalar::Text(role_text(role)))],
                            ),
                        ),
                    ),
                },
                user,
            ),
        )
    }
}

/// What renaming an account comes to.
pub open spec fn rename_step(
    store: AccountModel,
    user_id: Seq<char>,
    username: Seq<char>,
    entry: AuditEntry,
) -> Result<(AccountModel, User), Refusal> {
    match target(store.users, user_id) {
        Err(error) => Err(error),
        Ok(user) => if exists_in(store.users, other_with_name(user_id, username)) {
            Err(name_taken())
        } else {
            change_step(
                store,
                user,
                renamed(username, entry.now),
                "username_changed"@,
                recorded(
                    entry,
                    "user.username_changed"@,
                    user_id,
                    Some(username),
                    change_details(user.username, username),
                ),
            )
        },
    }
}

/// What changing an account's role comes to. The last usable administrator keeps
/// theirs.
pub open spec fn role_step(
    store: AccountModel,
    user_id: Seq<char>,
    role: SiteRole,
    entry: AuditEntry,
) -> Result<(AccountModel, User), Refusal> {
    match target(store.users, user_id) {
        Err(error) => Err(error),
        Ok(user) => if user.site_role == "admin"@ && role != SiteRole::Admin && !exists_in(
            store.users,
            other_usable_admin(user_id),
        ) {
            Err(AdminUserRepositoryError::LastActiveAdmin)
        } else {
            change_step(
                store,
                user,
                with_role(role, entry.now),
                "role_changed"@,
                recorded(
                    entry,
                    "user.site_role_changed"@,
                    user_id,
                    user.username,
                    change_details(Some(user.site_role), role_text(role)),
                ),
            )
        },
    }
}

/// What changing an account's status comes to. The last usable administrator
/// stays active.
pub open spec fn status_step(
    store: AccountModel,
    user_id: Seq<char>,
    status: UserStatus,
    entry: AuditEntry,
) -> Result<(AccountModel, User), Refusal> {
    match target(store.users, user_id) {
        Err(error) => Err(error),
        Ok(user) => if user.site_role == "admin"@ && user.status == "active"@ && status
            != UserStatus::Active && !exists_in(store.users, other_usable_admin(user_id)) {
            Err(AdminUserRepositoryError::LastActiveAdmin)
        } else {
            change_step(
                store,
                user,
                with_status(status, entry.now),
                "status_changed"@,
                recorded(
                    entry,
                    "user.status_changed"@,
                    user_id,
                    user.username,
                    change_details(Some(user.status), status_text(status)),
                ),
            )
        },
    }
}

/// What changing an account's password comes to.
pub open spec fn password_step(
    store: AccountModel,
    user_id: Seq<char>,
    password_hash: Seq<char>,
    must_change: bool,
    entry: AuditEntry,
    action: Seq<char>,
) -> Result<(AccountModel, User), Refusal> {
    match target(store.users, user_id) {
        Err(error) => Err(error),
        Ok(user) => change_step(
            store,
            user,
            with_password(password_hash, must_change, entry.now),
            action,
            recorded(entry, action, user_id, user.username, password_details(must_change)),
        ),
    }
}

/// What ending an account's sessions comes to.
pub open spec fn sign_out_step(
    store: AccountModel,
    user_id: Seq<char>,
    entry: AuditEntry,
) -> Result<
    (AccountModel, User),
    Refusal,
> {
    match target(store.users, user_id) {
        Err(error) => Err(error),
        Ok(user) => change_step(
            store,
            user,
            signed_out(entry.now),
            "admin_revoked"@,
            recorded(
                entry,
                "user.sessions_revoked"@,
                user_id,
                user.username,
                json_object_text(seq![]),
            ),
        ),
    }
}

// ----------------------------------------------------------------------------
// The first administrator
// ----------------------------------------------------------------------------

/// The accounts that may become the first administrator's: the system's own, or
/// an active one with a password.
pub open spec fn can_lead() -> spec_fn(User) -> bool {
    |user: User|
        user.user_type == "local"@ && (user.id == "system_default_user"@ || (user.status
            == "active"@ && has_password(user)))
}

/// The order in which they are chosen: the system's own first, then one that has
/// the wanted name, then the oldest.
pub open spec fn leads_before(username: Seq<char>) -> spec_fn(User, User) -> bool {
    |a: User, b: User|
        {
            let a_system = a.id == "system_default_user"@;
            let b_system = b.id == "system_default_user"@;
            let a_named = a.username == Some(username);
            let b_named = b.username == Some(username);
            if a_system != b_system {
                a_system
            } else if a_named != b_named {
                a_named
            } else {
                older_user()(a, b)
            }
        }
}

/// An account that became the first administrator's.
pub open spec fn leading(username: Seq<char>, password_hash: Seq<char>, now: i64) -> spec_fn(
    User,
) -> User {
    |user: User|
        UserRow {
            username: Some(username),
            password_hash: Some(password_hash),
            site_role: "admin"@,
            status: "active"@,
            must_change_password: true,
            session_generation: (user.session_generation + 1) as i64,
            updated_at: now,
            ..user
        }
}

/// A local account by its id.
pub open spec fn local_with_id(id: Seq<char>) -> spec_fn(User) -> bool {
    |user: User| user.id == id && user.user_type == "local"@
}

/// The account that becomes the first administrator's, and the accounts with it;
/// none where there is no room for a new one.
pub open spec fn chosen(
    users: Seq<User>,
    username: Seq<char>,
    password_hash: Seq<char>,
    now: i64,
) -> Option<(Seq<User>, User)> {
    match least(users, can_lead(), leads_before(username)) {
        Some(user) => Some((users, user)),
        None => {
            let user = new_user(
                "system_default_user"@,
                username,
                password_hash,
                "admin"@,
                1,
                now,
            );
            if exists_in(users, user_with_id(user.id)) || exists_in(
                users,
                other_with_name(user.id, username),
            ) {
                None
            } else {
                Some((users.push(user), user))
            }
        },
    }
}

/// What setting the first administrator up comes to: nothing where there is one
/// that can be used.
pub open spec fn bootstrap_step(
    store: AccountModel,
    username: Seq<char>,
    password_hash: Seq<char>,
    entry: AuditEntry,
) -> Result<Option<(AccountModel, User)>, Refusal> {
    if exists_in(store.users, is_usable_admin()) {
        Ok(None)
    } else {
        match chosen(store.users, username, password_hash, entry.now) {
            None => Err(name_taken()),
            Some((users, user)) => if exists_in(users, other_with_name(user.id, username)) {
                Err(name_taken())
            } else if exists_in(store.audit, audit_with_id(entry.id@)) {
                Err(audit_id_taken())
            } else {
                let change = leading(username, password_hash, entry.now);
                Ok(
                    Some(
                        (
                            AccountModel {
                                users: updated(users, local_with_id(user.id), change),
                                sessions: updated(
                                    store.sessions,
                                    open_session(user.id),
                                    revoked("bootstrap_credentials_set"@, entry.now),
                                ),
                                audit: store.audit.push(
                                    recorded(
                                        entry,
                                        "bootstrap.credentials_set"@,
                                        user.id,
                                        Some(username),
                                        password_details(true),
                                    ),
                                ),
                            },
                            change(user),
                        ),
                    ),
                )
            },
        }
    }
}

// ----------------------------------------------------------------------------
// The record
// ----------------------------------------------------------------------------

/// The order in which records are given: the newest first.
pub open spec fn newer_record() -> spec_fn(Audit, Audit) -> bool {
    |a: Audit, b: Audit| is_newer(a, b)
}

/// Whether a record is newer than another.
pub open spec fn is_newer(a: Audit, b: Audit) -> bool {
    a.occurred_at > b.occurred_at || (a.occurred_at == b.occurred_at && text_before(b.id, a.id))
}

/// The records that are older than one.
pub open spec fn older_than(boundary: Audit) -> spec_fn(Audit) -> bool {
    |row: Audit| is_newer(boundary, row)
}

/// Every record.
pub open spec fn any_record() -> spec_fn(Audit) -> bool {
    |row: Audit| true
}

/// A page of the record: the newest, or those behind a given one.
pub open spec fn audit_page(audit: Seq<Audit>, cursor: Option<Seq<char>>, limit: i64) -> Result<
    Seq<Audit>,
    DbError<Seq<char>>,
> {
    match cursor {
        None => Ok(limited(ordered(selected(audit, any_record()), newer_record()), limit, 0)),
        Some(id) => match lookup(audit, audit_with_id(id)) {
            None => Err(DbError::NotFound("audit cursor not found"@)),
            Some(boundary) => Ok(
                limited(
                    ordered(selected(audit, older_than(boundary)), newer_record()),
                    limit,
                    0,
                ),
            ),
        },
    }
}

/// Whether an account operation was carried out as `expected` says.
pub open spec fn account_changed(
    expected: Result<(AccountModel, User), Refusal>,
    result: Result<UserRow, AdminUserRepositoryError>,
    before: AccountModel,
    after: AccountModel,
) -> bool {
    match expected {
        Err(wanted) => (result matches Err(error) && error@ == wanted) && after == before,
        Ok((store, user)) => (result matches Ok(row) && row@ == user) && after == store,
    }
}

/// Whether the session generation of each account with an id can grow.
pub open spec fn generation_can_grow(users: Seq<User>, id: Seq<char>) -> bool {
    forall|i: int|
        0 <= i < users.len() && (#[trigger] users[i]).id == id ==> users[i].session_generation
            < i64::MAX
}

// ----------------------------------------------------------------------------
// The same in running code
// ----------------------------------------------------------------------------

fn find_user(users: &Vec<UserRow>, id: &str) -> (found: Option<usize>)
    ensures
        match found {
            Some(at) => at < users.len() && users[at as int]@.id == id@ && lookup(
                model(users@),
                user_with_id(id@),
            ) == Some(users[at as int]@) && exists_in(model(users@), user_with_id(id@)),
            None => lookup(model(users@), user_with_id(id@)) is None && !exists_in(
                model(users@),
                user_with_id(id@),
            ),
        },
{
    find_where(
        users,
        |user: &UserRow| -> (yes: bool)
            ensures yes == user_with_id(id@)(user@)
            { same(user.id.as_str(), id) },
        Ghost(user_with_id(id@)),
    )
}

fn password_set(user: &UserRow) -> (yes: bool)
    ensures
        yes == has_password(user@),
{
    match &user.password_hash {
        Some(hash) => !same(hash.as_str(), ""),
        None => false,
    }
}

fn is_usable(user: &UserRow) -> (yes: bool)
    ensures
        yes == usable_admin(user@),
{
    same(user.user_type.as_str(), "local") && same(user.site_role.as_str(), "admin") && same(
        user.status.as_str(),
        "active",
    ) && password_set(user)
}

fn another_admin(users: &Vec<UserRow>, id: &str) -> (yes: bool)
    ensures
        yes == exists_in(model(users@), other_usable_admin(id@)),
{
    any_where(
        users,
        |user: &UserRow| -> (yes: bool)
            ensures yes == other_usable_admin(id@)(user@)
            { is_usable(user) && !same(user.id.as_str(), id) },
        Ghost(other_usable_admin(id@)),
    )
}

fn is_name_taken(users: &Vec<UserRow>, id: &str, username: &str) -> (yes: bool)
    ensures
        yes == exists_in(model(users@), other_with_name(id@, username@)),
{
    any_where(
        users,
        |user: &UserRow| -> (yes: bool)
            ensures yes == other_with_name(id@, username@)(user@)
            { !same(user.id.as_str(), id) && is_some_text(&user.username, username) },
        Ghost(other_with_name(id@, username@)),
    )
}

fn is_older(a: &UserRow, b: &UserRow) -> (yes: bool)
    ensures
        yes == older_user()(a@, b@),
{
    a.created_at < b.created_at || (a.created_at == b.created_at && before(
        a.id.as_str(),
        b.id.as_str(),
    ))
}

/// Checks that an account has a password of its own.
pub fn ensure_local_identity(user: &UserRow) -> (result: Result<(), AdminUserRepositoryError>)
    ensures
        match result {
            Ok(()) => user@.user_type == "local"@,
            Err(error) => user@.user_type != "local"@ && error@
                == AdminUserRepositoryError::<Seq<char>>::UnsupportedIdentity,
        },
{
    if same(user.user_type.as_str(), "local") {
        Ok(())
    } else {
        Err(AdminUserRepositoryError::UnsupportedIdentity)
    }
}

/// The error for an account that the storage engine turned down.
pub open spec fn user_refused(unique: bool, message: Seq<char>) -> Refusal {
    if unique {
        name_taken()
    } else {
        AdminUserRepositoryError::Database(DbError::Query(message))
    }
}

/// The error for an account that the storage engine turned down; `unique` says
/// whether it was for the sake of a unique index.
pub fn user_write_error(unique: bool, message: &str) -> (error: AdminUserRepositoryError)
    ensures
        error@ == user_refused(unique, message@),
{
    if unique {
        taken_name()
    } else {
        AdminUserRepositoryError::Database(DbError::Query(message.to_owned()))
    }
}

fn taken_name() -> (error: AdminUserRepositoryError)
    ensures
        error@ == name_taken(),
{
    AdminUserRepositoryError::Database(DbError::Conflict("username already exists".to_owned()))
}

fn taken_audit_id() -> (error: AdminUserRepositoryError)
    ensures
        error@ == audit_id_taken(),
{
    AdminUserRepositoryError::Database(
        DbError::Query("UNIQUE constraint failed: admin_audit_log.id".to_owned()),
    )
}

/// Finds the account that is to be changed, if it may be.
fn find_target(users: &Vec<UserRow>, user_id: &str) -> (result: Result<
    usize,
    AdminUserRepositoryError,
>)
    ensures
        match (result, target(model(users@), user_id@)) {
            (Ok(at), Ok(user)) => at < users.len() && users[at as int]@ == user && user.id
                == user_id@,
            (Err(error), Err(wanted)) => error@ == wanted,
            _ => false,
        },
{
    match find_user(users, user_id) {
        None => Err(
            AdminUserRepositoryError::Database(not_found("User '", user_id, "' not found")),
        ),
        Some(at) => match ensure_local_identity(&users[at]) {
            Ok(()) => Ok(at),
            Err(error) => Err(error),
        },
    }
}

/// Writes what was changed from what to what.
fn write_change(from: Option<&str>, to: &str) -> (text: String)
    ensures
        text@ == change_details(opt_str(from), to@),
{
    let mut fields: Vec<JsonField> = Vec::new();
    fields.push(json_field("from", json_opt(from)));
    fields.push(json_field("to", json_text(to)));
    assert(model(fields@) =~= seq![
        member("from"@, text_or_null(opt_str(from))),
        member("to"@, JsonScalar::Text(to@)),
    ]);
    write_object(&fields)
}

/// Writes whether a password must be changed.
fn write_password_rule(must_change: bool) -> (text: String)
    ensures
        text@ == password_details(must_change),
{
    let mut fields: Vec<JsonField> = Vec::new();
    fields.push(json_field("must_change_password", JsonScalar::Flag(must_change)));
    assert(model(fields@) =~= seq![member("must_change_password"@, JsonScalar::Flag(must_change))]);
    write_object(&fields)
}

fn make_record(
    entry: &AuditEntry,
    action: &str,
    target_user_id: &str,
    target_username: Option<&str>,
    details: String,
) -> (record: AdminAuditRecord)
    ensures
        record@ == recorded(
            *entry,
            action@,
            target_user_id@,
            opt_str(target_username),
            details@,
        ),
{
    AdminAuditRecord {
        id: entry.id.clone(),
        occurred_at: entry.now,
        actor_user_id: copy_opt(&entry.actor.user_id),
        actor_username: copy_opt(&entry.actor.username),
        action: action.to_owned(),
        target_user_id: Some(target_user_id.to_owned()),
        target_username: own_opt(target_username),
        details,
    }
}

impl AccountStore {
    /// Tables without any row.
    pub fn new() -> (store: Self)
        ensures
            store@ == (AccountModel {
                users: Seq::empty(),
                sessions: Seq::empty(),
                audit: Seq::empty(),
            }),
    {
        let store = AccountStore { users: Vec::new(), sessions: Vec::new(), audit: Vec::new() };
        assert(store@ =~= (AccountModel {
            users: Seq::empty(),
            sessions: Seq::empty(),
            audit: Seq::empty(),
        }));
        store
    }

    fn is_audit_id_taken(&self, id: &str) -> (yes: bool)
        ensures
            yes == exists_in(self@.audit, audit_with_id(id@)),
    {
        any_where(
            &self.audit,
            |row: &AdminAuditRecord| -> (yes: bool)
                ensures yes == audit_with_id(id@)(row@)
                { same(row.id.as_str(), id) },
            Ghost(audit_with_id(id@)),
        )
    }

    /// Puts something that was done on record.
    fn append_audit(&mut self, record: AdminAuditRecord)
        ensures
            final(self)@ == (AccountModel {
                audit: old(self)@.audit.push(record@),
                ..old(self)@
            }),
            final(self).users == old(self).users,
    {
        let ghost row = record@;
        let ghost before_push = self.audit@;
        self.audit.push(record);
        assert(model(self.audit@) =~= model(before_push).push(row));
    }

    /// Revokes an account's open sessions.
    fn revoke_sessions(&mut self, user_id: &str, reason: &str, now: i64)
        ensures
            final(self)@ == (AccountModel {
                sessions: updated(
                    old(self)@.sessions,
                    open_session(user_id@),
                    revoked(reason@, now),
                ),
                ..old(self)@
            }),
            final(self).users == old(self).users,
    {
        let _count: u64 = update_where(
            &mut self.sessions,
            |session: &AuthSessionRow| -> (yes: bool)
                ensures yes == open_session(user_id@)(session@)
                { same(session.user_id.as_str(), user_id) && session.revoked_at.is_none() },
            |session: &AuthSessionRow| -> (next: AuthSessionRow)
                ensures next@ == revoked(reason@, now)(session@)
                {
                    AuthSessionRow {
                        revoked_at: Some(now),
                        revoke_reason: Some(reason.to_owned()),
                        ..session.duplicate()
                    }
                },
            Ghost(open_session(user_id@)),
            Ghost(revoked(reason@, now)),
        );
    }

    /// Changes the account at `at`, ends its sessions and puts the change on
    /// record.
    fn change_user<C: Fn(&UserRow) -> UserRow>(
        &mut self,
        at: usize,
        change: C,
        reason: &str,
        record: AdminAuditRecord,
        Ghost(change_spec): Ghost<spec_fn(User) -> User>,
    ) -> (result: Result<UserRow, AdminUserRepositoryError>)
        requires
            at < old(self).users.len(),
            generation_can_grow(old(self)@.users, old(self).users[at as int]@.id),
            forall|r: UserRow| r.session_generation < i64::MAX ==> change.requires((&r,)),
            forall|r: UserRow, n: UserRow| change.ensures((&r,), n) ==> n@ == change_spec(r@),
        ensures
            account_changed(
                change_step(
                    old(self)@,
                    old(self).users[at as int]@,
                    change_spec,
                    reason@,
                    record@,
                ),
                result,
                old(self)@,
                final(self)@,
            ),
    {
        if self.is_audit_id_taken(record.id.as_str()) {
            return Err(taken_audit_id());
        }
        let user_id = self.users[at].id.clone();
        let ghost hit = user_with_id(user_id@);
        let ghost start = self.users@;
        assert forall|i: int| 0 <= i < self.users.len() && hit((#[trigger] self.users[i])@)
            implies change.requires(
            (&self.users[i],),
        ) by {
            assert(model(self.users@)[i] == self.users[i]@);
        }
        let _count: u64 = update_where(
            &mut self.users,
            |user: &UserRow| -> (yes: bool)
                ensures yes == hit(user@)
                { same(user.id.as_str(), user_id.as_str()) },
            change,
            Ghost(hit),
            Ghost(change_spec),
        );
        proof {
            assert(model(self.users@).len() == model(start).len());
            assert(model(start)[at as int] == start[at as int]@);
            assert(model(self.users@)[at as int] == change_spec(start[at as int]@));
        }
        let now: i64 = record.occurred_at;
        self.revoke_sessions(user_id.as_str(), reason, now);
        self.append_audit(record);
        Ok(self.users[at].duplicate())
    }

    /// The accounts that administrators manage, the oldest first, a page of them.
    pub fn list_managed_users(&self, limit: i64, offset: i64) -> (list: Vec<UserRow>)
        ensures
            model(list@) == limited(
                ordered(selected(self@.users, managed()), older_user()),
                limit,
                offset,
            ),
    {
        let hits = select_where(
            &self.users,
            |user: &UserRow| -> (yes: bool)
                ensures yes == managed()(user@)
                { same(user.user_type.as_str(), "local") },
            Ghost(managed()),
        );
        let sorted = sort_rows(
            hits,
            |a: &UserRow, b: &UserRow| -> (yes: bool)
                ensures yes == older_user()(a@, b@)
                { is_older(a, b) },
            Ghost(older_user()),
        );
        take_limited(&sorted, limit, offset)
    }

    /// How many accounts administrators manage.
    pub fn count_managed_users(&self) -> (count: i64)
        requires
            self.users.len() <= i64::MAX,
        ensures
            count == selected(self@.users, managed()).len(),
    {
        let hits = select_where(
            &self.users,
            |user: &UserRow| -> (yes: bool)
                ensures yes == managed()(user@)
                { same(user.user_type.as_str(), "local") },
            Ghost(managed()),
        );
        proof {
            law_selected(self@.users, managed());
            assert(model(hits@).len() == hits.len());
        }
        hits.len() as i64
    }

    /// Creates an account. Its password has to be changed at the first sign-in.
    pub fn create_managed_user(
        &mut self,
        id: &str,
        username: &str,
        password_hash: &str,
        role: SiteRole,
        entry: &AuditEntry,
    ) -> (result: Result<UserRow, AdminUserRepositoryError>)
        ensures
            account_changed(
                create_step(old(self)@, id@, username@, password_hash@, role, *entry),
                result,
                old(self)@,
                final(self)@,
            ),
    {
        if find_user(&self.users, id).is_some() || is_name_taken(&self.users, id, username) {
            return Err(taken_name());
        }
        if self.is_audit_id_taken(entry.id.as_str()) {
            return Err(taken_audit_id());
        }
        let user = make_user(id, username, password_hash, role.as_str(), 0, entry.now);
        let copy = user.duplicate();
        let ghost start = self.users@;
        self.users.push(user);
        assert(model(self.users@) =~= model(start).push(copy@));
        let mut fields: Vec<JsonField> = Vec::new();
        fields.push(json_field("role", json_text(role.as_str())));
        assert(model(fields@) =~= seq![member("role"@, JsonScalar::Text(role_text(role)))]);
        let details = write_object(&fields);
        let record = make_record(entry, "user.created", id, Some(username), details);
        self.append_audit(record);
        Ok(copy)
    }

    /// Renames an account and ends its sessions.
    pub fn update_managed_username(
        &mut self,
        user_id: &str,
        username: &str,
        entry: &AuditEntry,
    ) -> (result:
        Result<UserRow, AdminUserRepositoryError>)
        requires
            generation_can_grow(old(self)@.users, user_id@),
        ensures
            account_changed(
                rename_step(old(self)@, user_id@, username@, *entry),
                result,
                old(self)@,
                final(self)@,
            ),
    {
        let at: usize = match find_target(&self.users, user_id) {
            Ok(at) => at,
            Err(error) => {
                return Err(error);
            },
        };
        if is_name_taken(&self.users, user_id, username) {
            return Err(taken_name());
        }
        let details = write_change(borrow_opt(&self.users[at].username), username);
        let record = make_record(
            entry,
            "user.username_changed",
            user_id,
            Some(username),
            details,
        );
        let now: i64 = entry.now;
        self.change_user(
            at,
            |user: &UserRow| -> (next: UserRow)
                requires user.session_generation < i64::MAX
                ensures next@ == renamed(username@, now)(user@)
                {
                    UserRow {
                        username: Some(username.to_owned()),
                        session_generation: user.session_generation + 1,
                        updated_at: now,
                        ..user.duplicate()
                    }
                },
            "username_changed",
            record,
            Ghost(renamed(username@, now)),
        )
    }

    /// Changes an account's role and ends its sessions. The last usable
    /// administrator cannot be demoted.
    pub fn update_managed_role(
        &mut self,
        user_id: &str,
        role: SiteRole,
        entry: &AuditEntry,
    ) -> (result:
        Result<UserRow, AdminUserRepositoryError>)
        requires
            generation_can_grow(old(self)@.users, user_id@),
        ensures
            account_changed(
                role_step(old(self)@, user_id@, role, *entry),
                result,
                old(self)@,
                final(self)@,
            ),
    {
        let at: usize = match find_target(&self.users, user_id) {
            Ok(at) => at,
            Err(error) => {
                return Err(error);
            },
        };
        let stays_admin = match role {
            SiteRole::Admin => true,
            SiteRole::Member => false,
        };
        if same(self.users[at].site_role.as_str(), "admin") && !stays_admin && !another_admin(
            &self.users,
            user_id,
        ) {
            return Err(AdminUserRepositoryError::LastActiveAdmin);
        }
        let details = write_change(Some(self.users[at].site_role.as_str()), role.as_str());
        let record = make_record(
            entry,
            "user.site_role_changed",
            user_id,
            borrow_opt(&self.users[at].username),
            details,
        );
        let now: i64 = entry.now;
        self.change_user(
            at,
            |user: &UserRow| -> (next: UserRow)
                requires user.session_generation < i64::MAX
                ensures next@ == with_role(role, now)(user@)
                {
                    UserRow {
                        site_role: role.as_str().to_owned(),
                        session_generation: user.session_generation + 1,
                        updated_at: now,
                        ..user.duplicate()
                    }
                },
            "role_changed",
            record,
            Ghost(with_role(role, now)),
        )
    }

    /// Changes an account's status and ends its sessions. The last usable
    /// administrator cannot be disabled.
    pub fn update_managed_status(
        &mut self,
        user_id: &str,
        status: UserStatus,
        entry: &AuditEntry,
    ) -> (result:
        Result<UserRow, AdminUserRepositoryError>)
        requires
            generation_can_grow(old(self)@.users, user_id@),
        ensures
            account_changed(
                status_step(old(self)@, user_id@, status, *entry),
                result,
                old(self)@,
                final(self)@,
            ),
    {
        let at: usize = match find_target(&self.users, user_id) {
            Ok(at) => at,
            Err(error) => {
                return Err(error);
            },
        };
        let stays_active = match status {
            UserStatus::Active => true,
            UserStatus::Disabled => false,
        };
        if same(self.users[at].site_role.as_str(), "admin") && same(
            self.users[at].status.as_str(),
            "active",
        ) && !stays_active && !another_admin(&self.users, user_id) {
            return Err(AdminUserRepositoryError::LastActiveAdmin);
        }
        let details = write_change(Some(self.users[at].status.as_str()), status.as_str());
        let record = make_record(
            entry,
            "user.status_changed",
            user_id,
            borrow_opt(&self.users[at].username),
            details,
        );
        let now: i64 = entry.now;
        self.change_user(
            at,
            |user: &UserRow| -> (next: UserRow)
                requires user.session_generation < i64::MAX
                ensures next@ == with_status(status, now)(user@)
                {
                    UserRow {
                        status: status.as_str().to_owned(),
                        session_generation: user.session_generation + 1,
                        updated_at: now,
                        ..user.duplicate()
                    }
                },
            "status_changed",
            record,
            Ghost(with_status(status, now)),
        )
    }

    /// Changes an account's password and ends its sessions.
    fn password_mutation(
        &mut self,
        user_id: &str,
        password_hash: &str,
        must_change: bool,
        entry: &AuditEntry,
        action: &str,
    ) -> (result: Result<UserRow, AdminUserRepositoryError>)
        requires
            generation_can_grow(old(self)@.users, user_id@),
        ensures
            account_changed(
                password_step(
                    old(self)@,
                    user_id@,
                    password_hash@,
                    must_change,
                    *entry,
                    action@,
                ),
                result,
                old(self)@,
                final(self)@,
            ),
    {
        let at: usize = match find_target(&self.users, user_id) {
            Ok(at) => at,
            Err(error) => {
                return Err(error);
            },
        };
        let details = write_password_rule(must_change);
        let record = make_record(
            entry,
            action,
            user_id,
            borrow_opt(&self.users[at].username),
            details,
        );
        let now: i64 = entry.now;
        self.change_user(
            at,
            |user: &UserRow| -> (next: UserRow)
                requires user.session_generation < i64::MAX
                ensures next@ == with_password(password_hash@, must_change, now)(user@)
                {
                    UserRow {
                        password_hash: Some(password_hash.to_owned()),
                        must_change_password: must_change,
                        session_generation: user.session_generation + 1,
                        updated_at: now,
                        ..user.duplicate()
                    }
                },
            action,
            record,
            Ghost(with_password(password_hash@, must_change, now)),
        )
    }

    /// Gives an account a password that has to be changed at the next sign-in.
    pub fn reset_managed_password(
        &mut self,
        user_id: &str,
        password_hash: &str,
        entry: &AuditEntry,
    ) -> (result:
        Result<UserRow, AdminUserRepositoryError>)
        requires
            generation_can_grow(old(self)@.users, user_id@),
        ensures
            account_changed(
                password_step(
                    old(self)@,
                    user_id@,
                    password_hash@,
                    true,
                    *entry,
                    "user.password_reset"@,
                ),
                result,
                old(self)@,
                final(self)@,
            ),
    {
        self.password_mutation(user_id, password_hash, true, entry, "user.password_reset")
    }

    /// Gives an account the password that its owner chose.
    pub fn change_own_password(
        &mut self,
        user_id: &str,
        password_hash: &str,
        entry: &AuditEntry,
    ) -> (result:
        Result<UserRow, AdminUserRepositoryError>)
        requires
            generation_can_grow(old(self)@.users, user_id@),
        ensures
            account_changed(
                password_step(
                    old(self)@,
                    user_id@,
                    password_hash@,
                    false,
                    *entry,
                    "user.password_changed"@,
                ),
                result,
                old(self)@,
                final(self)@,
            ),
    {
        self.password_mutation(user_id, password_hash, false, entry, "user.password_changed")
    }

    /// Ends an account's sessions.
    pub fn revoke_managed_sessions(&mut self, user_id: &str, entry: &AuditEntry) -> (result: Result<
        UserRow,
        AdminUserRepositoryError,
    >)
        requires
            generation_can_grow(old(self)@.users, user_id@),
        ensures
            account_changed(
                sign_out_step(old(self)@, user_id@, *entry),
                result,
                old(self)@,
                final(self)@,
            ),
    {
        let at: usize = match find_target(&self.users, user_id) {
            Ok(at) => at,
            Err(error) => {
                return Err(error);
            },
        };
        let fields: Vec<JsonField> = Vec::new();
        assert(model(fields@) =~= seq![]);
        let details = write_object(&fields);
        let record = make_record(
            entry,
            "user.sessions_revoked",
            user_id,
            borrow_opt(&self.users[at].username),
            details,
        );
        let now: i64 = entry.now;
        self.change_user(
            at,
            |user: &UserRow| -> (next: UserRow)
                requires user.session_generation < i64::MAX
                ensures next@ == signed_out(now)(user@)
                {
                    UserRow {
                        session_generation: user.session_generation + 1,
                        updated_at: now,
                        ..user.duplicate()
                    }
                },
            "admin_revoked",
            record,
            Ghost(signed_out(now)),
        )
    }

    /// Finds the account that becomes the first administrator's, or adds it; none
    /// where there is no room for it.
    fn choose_leader(
        &mut self,
        username: &str,
        password_hash: &str,
        now: i64,
    ) -> (found: Option<usize>)
        ensures
            match (found, chosen(old(self)@.users, username@, password_hash@, now)) {
                (Some(at), Some((users, user))) => {
                    &&& at < final(self).users.len()
                    &&& final(self).users[at as int]@ == user
                    &&& final(self)@ == (AccountModel { users, ..old(self)@ })
                    &&& user.user_type == "local"@
                },
                (None, None) => final(self)@ == old(self)@,
                _ => false,
            },
    {
        let ghost order = leads_before(username@);
        let best = least_where(
            &self.users,
            |user: &UserRow| -> (yes: bool)
                ensures yes == can_lead()(user@)
                {
                    same(user.user_type.as_str(), "local") && (same(
                        user.id.as_str(),
                        "system_default_user",
                    ) || (same(user.status.as_str(), "active") && password_set(user)))
                },
            |a: &UserRow, b: &UserRow| -> (yes: bool)
                ensures yes == order(a@, b@)
                {
                    let a_system = same(a.id.as_str(), "system_default_user");
                    let b_system = same(b.id.as_str(), "system_default_user");
                    let a_named = is_some_text(&a.username, username);
                    let b_named = is_some_text(&b.username, username);
                    if a_system != b_system {
                        a_system
                    } else if a_named != b_named {
                        a_named
                    } else {
                        is_older(a, b)
                    }
                },
            Ghost(can_lead()),
            Ghost(order),
        );
        match best {
            Some(at) => Some(at),
            None => {
                let id = "system_default_user";
                if find_user(&self.users, id).is_some() || is_name_taken(
                    &self.users,
                    id,
                    username,
                ) {
                    None
                } else {
                    let user = make_user(id, username, password_hash, "admin", 1, now);
                    let ghost row = user@;
                    let ghost start = self.users@;
                    self.users.push(user);
                    assert(model(self.users@) =~= model(start).push(row));
                    Some(self.users.len() - 1)
                }
            },
        }
    }

    /// Sets the first administrator up, unless there is one that can be used.
    pub fn bootstrap_initial_admin(
        &mut self,
        username: &str,
        password_hash: &str,
        entry: &AuditEntry,
    ) -> (result:
        Result<Option<UserRow>, AdminUserRepositoryError>)
        requires
            !exists_in(old(self)@.users, is_usable_admin()) ==> (chosen(
                old(self)@.users,
                username@,
                password_hash@,
                entry.now,
            ) matches Some((_, leader)) ==> forall|i: int|
                0 <= i < old(self)@.users.len() && local_with_id(leader.id)(
                    #[trigger] old(self)@.users[i],
                ) ==> old(self)@.users[i].session_generation < i64::MAX),
        ensures
            match bootstrap_step(old(self)@, username@, password_hash@, *entry) {
                Err(wanted) => {
                    &&& result matches Err(error) && error@ == wanted
                    &&& final(self)@ == old(self)@
                },
                Ok(None) => result matches Ok(None) && final(self)@ == old(self)@,
                Ok(Some((store, user))) => {
                    &&& result matches Ok(Some(row)) && row@ == user
                    &&& final(self)@ == store
                },
            },
    {
        let settled = any_where(
            &self.users,
            |user: &UserRow| -> (yes: bool)
                ensures yes == is_usable_admin()(user@)
                { is_usable(user) },
            Ghost(is_usable_admin()),
        );
        if settled {
            return Ok(None);
        }
        let users = copy_rows(&self.users);
        let mut draft = AccountStore { users, sessions: Vec::new(), audit: Vec::new() };
        let at: usize = match draft.choose_leader(username, password_hash, entry.now) {
            Some(at) => at,
            None => {
                return Err(taken_name());
            },
        };
        let user_id = draft.users[at].id.clone();
        if is_name_taken(&draft.users, user_id.as_str(), username) {
            return Err(taken_name());
        }
        if self.is_audit_id_taken(entry.id.as_str()) {
            return Err(taken_audit_id());
        }
        let ghost hit = local_with_id(user_id@);
        let ghost change = leading(username@, password_hash@, entry.now);
        let ghost start = draft.users@;
        assert forall|i: int| 0 <= i < draft.users.len() && hit((#[trigger] draft.users[i])@)
            implies draft.users[i].session_generation
            < i64::MAX by {
            assert(model(draft.users@)[i] == draft.users[i]@);
            if i < self.users.len() {
                assert(old(self)@.users[i] == self.users[i]@);
            }
        }
        let _count: u64 = update_where(
            &mut draft.users,
            |user: &UserRow| -> (yes: bool)
                ensures yes == hit(user@)
                {
                    same(user.id.as_str(), user_id.as_str()) && same(
                        user.user_type.as_str(),
                        "local",
                    )
                },
            |user: &UserRow| -> (next: UserRow)
                requires user.session_generation < i64::MAX
                ensures next@ == change(user@)
                {
                    UserRow {
                        username: Some(username.to_owned()),
                        password_hash: Some(password_hash.to_owned()),
                        site_role: "admin".to_owned(),
                        status: "active".to_owned(),
                        must_change_password: true,
                        session_generation: user.session_generation + 1,
                        updated_at: entry.now,
                        ..user.duplicate()
                    }
                },
            Ghost(hit),
            Ghost(change),
        );
        proof {
            assert(model(draft.users@).len() == model(start).len());
            assert(model(start)[at as int] == start[at as int]@);
            assert(model(draft.users@)[at as int] == change(start[at as int]@));
        }
        self.users = draft.users;
        self.revoke_sessions(user_id.as_str(), "bootstrap_credentials_set", entry.now);
        let details = write_password_rule(true);
        let record = make_record(
            entry,
            "bootstrap.credentials_set",
            user_id.as_str(),
            Some(username),
            details,
        );
        self.append_audit(record);
        Ok(Some(self.users[at].duplicate()))
    }

    /// A page of the record, the newest first, from the start or from behind a
    /// given record.
    pub fn list_admin_audit(&self, cursor: Option<&str>, limit: i64) -> (result: Result<
        Vec<AdminAuditRecord>,
        DbError,
    >)
        ensures
            match (result, audit_page(self@.audit, opt_str(cursor), limit)) {
                (Ok(list), Ok(wanted)) => model(list@) == wanted,
                (Err(error), Err(wanted)) => error@ == wanted,
                _ => false,
            },
    {
        let boundary = match cursor {
            None => None,
            Some(id) => {
                let found = find_where(
                    &self.audit,
                    |row: &AdminAuditRecord| -> (yes: bool)
                        ensures yes == audit_with_id(id@)(row@)
                        { same(row.id.as_str(), id) },
                    Ghost(audit_with_id(id@)),
                );
                match found {
                    Some(at) => Some(&self.audit[at]),
                    None => {
                        return Err(DbError::NotFound("audit cursor not found".to_owned()));
                    },
                }
            },
        };
        let ghost hit = match boundary {
            Some(row) => older_than(row@),
            None => any_record(),
        };
        let hits = select_where(
            &self.audit,
            |row: &AdminAuditRecord| -> (yes: bool)
                ensures yes == hit(row@)
                {
                    match boundary {
                        Some(limit_row) => record_is_newer(limit_row, row),
                        None => true,
                    }
                },
            Ghost(hit),
        );
        let sorted = sort_rows(
            hits,
            |a: &AdminAuditRecord, b: &AdminAuditRecord| -> (yes: bool)
                ensures yes == newer_record()(a@, b@)
                { record_is_newer(a, b) },
            Ghost(newer_record()),
        );
        Ok(take_limited(&sorted, limit, 0))
    }
}

fn record_is_newer(a: &AdminAuditRecord, b: &AdminAuditRecord) -> (yes: bool)
    ensures
        yes == is_newer(a@, b@),
{
    a.occurred_at > b.occurred_at || (a.occurred_at == b.occurred_at && before(
        b.id.as_str(),
        a.id.as_str(),
    ))
}

fn make_user(
    id: &str,
    username: &str,
    password_hash: &str,
    role: &str,
    session_generation: i64,
    now: i64,
) -> (user: UserRow)
    ensures
        user@ == new_user(id@, username@, password_hash@, role@, session_generation, now),
{
    UserRow {
        id: id.to_owned(),
        user_type: "local".to_owned(),
        username: Some(username.to_owned()),
        password_hash: Some(password_hash.to_owned()),
        status: "active".to_owned(),
        site_role: role.to_owned(),
        must_change_password: true,
        session_generation,
        created_at: now,
        updated_at: now,
    }
}

} // verus!

//! The rows of the account tables.
use crate::table::Record;
use crate::text::{copy_opt, opt_text};
use vstd::prelude::*;

verus! {

/// An account.
#[derive(Debug, Clone, PartialEq, Eq)]
pub struct UserRow<T = String> {
    pub id: T,
    pub user_type: T,
    pub username: Option<T>,
    pub password_hash: Option<T>,
    pub status: T,
    pub site_role: T,
    pub must_change_password: bool,
    pub session_generation: i64,
    pub created_at: i64,
    pub updated_at: i64,
}

impl View for UserRow<String> {
    type V = UserRow<Seq<char>>;

    open spec fn view(&self) -> UserRow<Seq<char>> {
        UserRow {
            id: self.id@,
            user_type: self.user_type@,
            username: opt_text(self.username),
            password_hash: opt_text(self.password_hash),
            status: self.status@,
            site_role: self.site_role@,
            must_change_password: self.must_change_password,
            session_generation: self.session_generation,
            created_at: self.created_at,
            updated_at: self.updated_at,
        }
    }
}

impl Record for UserRow<String> {
    fn duplicate(&self) -> (copy: Self) {
        UserRow {
            id: self.id.clone(),
            user_type: self.user_type.clone(),
            username: copy_opt(&self.username),
            password_hash: copy_opt(&self.password_hash),
            status: self.status.clone(),
            site_role: self.site_role.clone(),
            must_change_password: self.must_change_password,
            session_generation: self.session_generation,
            created_at: self.created_at,
            updated_at: self.updated_at,
        }
    }
}

/// A signed-in session of an account.
#[derive(Debug, Clone, PartialEq, Eq)]
pub struct AuthSessionRow<T = String> {
    pub id: T,
    pub user_id: T,
    pub expires_at: i64,
    pub revoked_at: Option<i64>,
    pub revoke_reason: Option<T>,
    pub created_at: i64,
}

impl View for AuthSessionRow<String> {
    type V = AuthSessionRow<Seq<char>>;

    open spec fn view(&self) -> AuthSessionRow<Seq<char>> {
        AuthSessionRow {
            id: self.id@,
            user_id: self.user_id@,
            expires_at: self.expires_at,
            revoked_at: self.revoked_at,
            revoke_reason: opt_text(self.revoke_reason),
            created_at: self.created_at,
        }
    }
}

impl Record for AuthSessionRow<String> {
    fn duplicate(&self) -> (copy: Self) {
        AuthSessionRow {
            id: self.id.clone(),
            user_id: self.user_id.clone(),
            expires_at: self.expires_at,
            revoked_at: self.revoked_at,
            revoke_reason: copy_opt(&self.revoke_reason),
            created_at: self.created_at,
        }
    }
}

/// A record of something that was done to an account.
#[derive(Debug, Clone, PartialEq, Eq)]
pub struct AdminAuditRecord<T = String> {
    pub id: T,
    pub occurred_at: i64,
    pub actor_user_id: Option<T>,
    pub actor_username: Option<T>,
    pub action: T,
    pub target_user_id: Option<T>,
    pub target_username: Option<T>,
    pub details: T,
}

impl View for AdminAuditRecord<String> {
    type V = AdminAuditRecord<Seq<char>>;

    open spec fn view(&self) -> AdminAuditRecord<Seq<char>> {
        AdminAuditRecord {
            id: self.id@,
            occurred_at: self.occurred_at,
            actor_user_id: opt_text(self.actor_user_id),
            actor_username: opt_text(self.actor_username),
            action: self.action@,
            target_user_id: opt_text(self.target_user_id),
            target_username: opt_text(self.target_username),
            details: self.details@,
        }
    }
}

impl Record for AdminAuditRecord<String> {
    fn duplicate(&self) -> (copy: Self) {
        AdminAuditRecord {
            id: self.id.clone(),
            occurred_at: self.occurred_at,
            actor_user_id: copy_opt(&self.actor_user_id),
            actor_username: copy_opt(&self.actor_username),
            action: self.action.clone(),
            target_user_id: copy_opt(&self.target_user_id),
            target_username: copy_opt(&self.target_username),
            details: self.details.clone(),
        }
    }
}

/// Who did something to an account.
#[derive(Debug, Clone, PartialEq, Eq)]
pub struct AuditActor {
    pub user_id: Option<String>,
    pub username: Option<String>,
}

/// What an account may do.
#[derive(Debug, Clone, Copy, PartialEq, Eq)]
pub enum SiteRole {
    Admin,
    Member,
}

/// Whether an account may be used.
#[derive(Debug, Clone, Copy, PartialEq, Eq)]
pub enum UserStatus {
    Active,
    Disabled,
}

/// The text of a role.
pub open spec fn role_text(role: SiteRole) -> Seq<char> {
    match role {
        SiteRole::Admin => "admin"@,
        SiteRole::Member => "member"@,
    }
}

/// The text of a status.
pub open spec fn status_text(status: UserStatus) -> Seq<char> {
    match status {
        UserStatus::Active => "active"@,
        UserStatus::Disabled => "disabled"@,
    }
}

impl SiteRole {
    /// The role as it is stored.
    pub fn as_str(self) -> (text: &'static str)
        ensures
            text@ == role_text(self),
    {
        match self {
            SiteRole::Admin => "admin",
            SiteRole::Member => "member",
        }
    }
}

impl UserStatus {
    /// The status as it is stored.
    pub fn as_str(self) -> (text: &'static str)
        ensures
            text@ == status_text(self),
    {
        match self {
            UserStatus::Active => "active",
            UserStatus::Disabled => "disabled",
        }
    }
}

} // verus!

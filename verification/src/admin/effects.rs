//! What operations on accounts come to, told by the rows.
use crate::admin::accounts::{
    account_changed, any_record, Refusal, audit_page, audit_with_id, bootstrap_step, create_step,
    is_usable_admin, managed, newer_record, older_than, older_user, other_usable_admin,
    other_with_name, password_step, rename_step, role_step, sign_out_step, status_step, target,
    user_with_id, AccountModel, AdminUserRepositoryError, Audit, AuditEntry, Session, User,
};
use crate::admin::laws::distinct_users;
use crate::admin::rows::{SiteRole, UserRow, UserStatus};
use crate::json::{json_object_text, member, text_or_null, JsonScalar};
use crate::table::{
    exists_in, is_ordered, law_limited_listing, lemma_lookup, lemma_orders_by, limited, lookup,
    ordered, orders, selected,
};
use crate::text::{lemma_text_order, lemma_text_transitive, opt_text, text_before};
use vstd::prelude::*;

verus! {

/// Whether an account is whose it was.
pub open spec fn is_the_same_account(new: User, old: User) -> bool {
    new.id == old.id && new.user_type == old.user_type && new.created_at == old.created_at
}

/// Whether a user has to sign in again: every session of theirs that was open is
/// over, for a reason that is named; one that was over stays as it is.
pub open spec fn has_to_sign_in(
    before: Seq<Session>,
    after: Seq<Session>,
    user_id: Seq<char>,
    reason: Seq<char>,
    now: i64,
) -> bool {
    &&& after.len() == before.len()
    &&& forall|i: int|
        0 <= i < before.len() && (before[i].user_id != user_id || before[i].revoked_at is Some)
            ==> #[trigger] after[i] == before[i]
    &&& forall|i: int|
        0 <= i < before.len() && before[i].user_id == user_id && before[i].revoked_at is None ==> {
            &&& (#[trigger] after[i]).id == before[i].id
            &&& after[i].user_id == user_id
            &&& after[i].expires_at == before[i].expires_at
            &&& after[i].created_at == before[i].created_at
            &&& after[i].revoked_at == Some(now)
            &&& after[i].revoke_reason == Some(reason)
        }
}

/// Whether a record says who did what to whom, and when.
pub open spec fn tells(
    record: Audit,
    entry: AuditEntry,
    action: Seq<char>,
    user_id: Seq<char>,
    username: Option<Seq<char>>,
) -> bool {
    &&& record.id == entry.id@
    &&& record.occurred_at == entry.now
    &&& record.actor_user_id == opt_text(entry.actor.user_id)
    &&& record.actor_username == opt_text(entry.actor.username)
    &&& record.action == action
    &&& record.target_user_id == Some(user_id)
    &&& record.target_username == username
}

/// Whether a record is added behind those that are there.
pub open spec fn is_added_to(after: Seq<Audit>, before: Seq<Audit>) -> bool {
    &&& after.len() == before.len() + 1
    &&& forall|i: int| 0 <= i < before.len() ==> #[trigger] after[i] == before[i]
    &&& forall|i: int| 0 <= i < before.len() ==> (#[trigger] before[i]).id != after.last().id
}

/// Whether an operation changed one local account, to the one that it gives, made
/// its user sign in again, and left every other account as it is.
pub open spec fn changes_one(
    before: AccountModel,
    after: AccountModel,
    user: User,
    at: int,
    reason: Seq<char>,
    entry: AuditEntry,
) -> bool {
    &&& 0 <= at < before.users.len()
    &&& before.users[at].user_type == "local"@
    &&& is_the_same_account(user, before.users[at])
    &&& before.users[at].session_generation < i64::MAX ==> user.session_generation
        == before.users[at].session_generation + 1
    &&& user.updated_at == entry.now
    &&& after.users.len() == before.users.len()
    &&& after.users[at] == user
    &&& forall|i: int|
        0 <= i < before.users.len() && i != at ==> #[trigger] after.users[i] == before.users[i]
    &&& has_to_sign_in(before.sessions, after.sessions, user.id, reason, entry.now)
    &&& is_added_to(after.audit, before.audit)
}

proof fn lemma_found(store: AccountModel, user_id: Seq<char>) -> (at: int)
    ensures
        target(store.users, user_id) matches Ok(user) ==> 0 <= at < store.users.len()
            && store.users[at] == user && user.id == user_id && user.user_type == "local"@,
{
    lemma_lookup(store.users, user_with_id(user_id));
    choose|at: int|
        0 <= at < store.users.len() && Some(store.users[at]) == lookup(
            store.users,
            user_with_id(user_id),
        )
}

proof fn lemma_not_on_record(audit: Seq<Audit>, id: Seq<char>)
    requires
        !exists_in(audit, audit_with_id(id)),
    ensures
        forall|i: int| 0 <= i < audit.len() ==> (#[trigger] audit[i]).id != id,
{
    assert forall|i: int| 0 <= i < audit.len() implies (#[trigger] audit[i]).id != id by {
        assert(!audit_with_id(id)(audit[i]));
    }
}

/// Whether no other account has a name.
pub open spec fn name_is_free(users: Seq<User>, id: Seq<char>, username: Seq<char>) -> bool {
    forall|i: int|
        0 <= i < users.len() && (#[trigger] users[i]).id != id ==> users[i].username != Some(
            username,
        )
}

proof fn lemma_name_is_free(users: Seq<User>, id: Seq<char>, username: Seq<char>)
    ensures
        exists_in(users, other_with_name(id, username)) == !name_is_free(users, id, username),
{
    let hit = other_with_name(id, username);
    if exists_in(users, hit) {
        let i = choose|i: int| 0 <= i < users.len() && hit(#[trigger] users[i]);
        assert(users[i].id != id);
    } else {
        assert forall|i: int| 0 <= i < users.len() && (#[trigger] users[i]).id != id
            implies users[i].username != Some(username) by {
            assert(!hit(users[i]));
        }
    }
}

/// A new account is local, active and of the role that is named, with a password
/// that has to be changed; its id and its name are nobody else's.
pub proof fn law_account_is_created(
    store: AccountModel,
    id: Seq<char>,
    username: Seq<char>,
    password_hash: Seq<char>,
    role: SiteRole,
    entry: AuditEntry,
)
    ensures
        create_step(store, id, username, password_hash, role, entry) matches Ok((after, user)) ==> {
            &&& after.users == store.users.push(user)
            &&& after.sessions == store.sessions
            &&& user.id == id
            &&& user.user_type == "local"@
            &&& user.username == Some(username)
            &&& user.password_hash == Some(password_hash)
            &&& user.status == "active"@
            &&& role == SiteRole::Admin ==> user.site_role == "admin"@
            &&& role == SiteRole::Member ==> user.site_role == "member"@
            &&& user.must_change_password
            &&& user.session_generation == 0
            &&& user.created_at == entry.now
            &&& user.updated_at == entry.now
            &&& forall|i: int| 0 <= i < store.users.len() ==> (#[trigger] store.users[i]).id != id
            &&& name_is_free(store.users, id, username)
            &&& is_added_to(after.audit, store.audit)
            &&& tells(after.audit.last(), entry, "user.created"@, id, Some(username))
            &&& after.audit.last().details == json_object_text(
                seq![member("role"@, JsonScalar::Text(user.site_role))],
            )
        },
{
    if let Ok((after, user)) = create_step(store, id, username, password_hash, role, entry) {
        lemma_not_on_record(store.audit, entry.id@);
        lemma_name_is_free(store.users, id, username);
        assert forall|i: int| 0 <= i < store.users.len() implies (#[trigger] store.users[i]).id
            != id by {
            assert(!user_with_id(id)(store.users[i]));
        }
    }
}

/// Renaming an account changes its name, to one that no other has, and nothing
/// else of it; the record says from what to what.
pub proof fn law_account_is_renamed(
    store: AccountModel,
    user_id: Seq<char>,
    username: Seq<char>,
    entry: AuditEntry,
)
    requires
        distinct_users(store.users),
    ensures
        rename_step(store, user_id, username, entry) matches Ok((after, user)) ==> exists|at: int|
            #![trigger store.users[at]]
            {
                let old = store.users[at];
                &&& changes_one(store, after, user, at, "username_changed"@, entry)
                &&& old.id == user_id
                &&& user.username == Some(username)
                &&& name_is_free(store.users, user_id, username)
                &&& user.password_hash == old.password_hash
                &&& user.status == old.status
                &&& user.site_role == old.site_role
                &&& user.must_change_password == old.must_change_password
                &&& tells(
                    after.audit.last(),
                    entry,
                    "user.username_changed"@,
                    user_id,
                    Some(username),
                )
                &&& after.audit.last().details == json_object_text(
                    seq![
                        member("from"@, text_or_null(old.username)),
                        member("to"@, JsonScalar::Text(username)),
                    ],
                )
            },
{
    let at = lemma_found(store, user_id);
    if let Ok((after, user)) = rename_step(store, user_id, username, entry) {
        lemma_not_on_record(store.audit, entry.id@);
        lemma_name_is_free(store.users, user_id, username);
        assert(changes_one(store, after, user, at, "username_changed"@, entry)) by {
            assert forall|i: int| 0 <= i < store.users.len() && i != at
                implies #[trigger] after.users[i] == store.users[i] by {
                assert(store.users[i].id != store.users[at].id);
            }
        }
        assert(store.users[at].id == user_id);
    }
}

/// Changing a role changes the role and nothing else of an account; a demotion is
/// carried out only where another administrator can still sign in.
pub proof fn law_role_is_changed(
    store: AccountModel,
    user_id: Seq<char>,
    role: SiteRole,
    entry: AuditEntry,
)
    requires
        distinct_users(store.users),
    ensures
        role_step(store, user_id, role, entry) matches Ok((after, user)) ==> exists|at: int|
            #![trigger store.users[at]]
            {
                let old = store.users[at];
                &&& changes_one(store, after, user, at, "role_changed"@, entry)
                &&& old.id == user_id
                &&& role == SiteRole::Admin ==> user.site_role == "admin"@
                &&& role == SiteRole::Member ==> user.site_role == "member"@
                &&& user.username == old.username
                &&& user.password_hash == old.password_hash
                &&& user.status == old.status
                &&& user.must_change_password == old.must_change_password
                &&& old.site_role == "admin"@ && role == SiteRole::Member ==> another_can_lead(
                    store.users,
                    user_id,
                )
                &&& tells(
                    after.audit.last(),
                    entry,
                    "user.site_role_changed"@,
                    user_id,
                    old.username,
                )
                &&& after.audit.last().details == json_object_text(
                    seq![
                        member("from"@, JsonScalar::Text(old.site_role)),
                        member("to"@, JsonScalar::Text(user.site_role)),
                    ],
                )
            },
{
    let at = lemma_found(store, user_id);
    if let Ok((after, user)) = role_step(store, user_id, role, entry) {
        lemma_not_on_record(store.audit, entry.id@);
        lemma_another(store.users, user_id);
        assert(changes_one(store, after, user, at, "role_changed"@, entry)) by {
            assert forall|i: int| 0 <= i < store.users.len() && i != at
                implies #[trigger] after.users[i] == store.users[i] by {
                assert(store.users[i].id != store.users[at].id);
            }
        }
        assert(store.users[at].id == user_id);
    }
}

/// Whether another account is an administrator's who can sign in.
pub open spec fn another_can_lead(users: Seq<User>, user_id: Seq<char>) -> bool {
    exists|i: int|
        0 <= i < users.len() && (#[trigger] users[i]).id != user_id && can_lead_now(users[i])
}

/// Whether an account is local, active and an administrator's, with a password.
pub open spec fn can_lead_now(user: User) -> bool {
    &&& user.user_type == "local"@
    &&& user.site_role == "admin"@
    &&& user.status == "active"@
    &&& user.password_hash is Some
    &&& user.password_hash->0 != ""@
}

proof fn lemma_another(users: Seq<User>, user_id: Seq<char>)
    ensures
        exists_in(users, other_usable_admin(user_id)) == another_can_lead(users, user_id),
{
    let hit = other_usable_admin(user_id);
    if exists_in(users, hit) {
        let i = choose|i: int| 0 <= i < users.len() && hit(#[trigger] users[i]);
        assert(users[i].id != user_id && can_lead_now(users[i]));
    }
    if another_can_lead(users, user_id) {
        let i = choose|i: int|
            0 <= i < users.len() && (#[trigger] users[i]).id != user_id && can_lead_now(users[i]);
        assert(hit(users[i]));
    }
}

/// Changing a status changes the status and nothing else of an account; an active
/// administrator is disabled only where another can still sign in.
pub proof fn law_status_is_changed(
    store: AccountModel,
    user_id: Seq<char>,
    status: UserStatus,
    entry: AuditEntry,
)
    requires
        distinct_users(store.users),
    ensures
        status_step(store, user_id, status, entry) matches Ok((after, user)) ==> exists|at: int|
            #![trigger store.users[at]]
            {
                let old = store.users[at];
                &&& changes_one(store, after, user, at, "status_changed"@, entry)
                &&& old.id == user_id
                &&& status == UserStatus::Active ==> user.status == "active"@
                &&& status == UserStatus::Disabled ==> user.status == "disabled"@
                &&& user.username == old.username
                &&& user.password_hash == old.password_hash
                &&& user.site_role == old.site_role
                &&& user.must_change_password == old.must_change_password
                &&& old.site_role == "admin"@ && old.status == "active"@ && status
                    == UserStatus::Disabled ==> another_can_lead(store.users, user_id)
                &&& tells(
                    after.audit.last(),
                    entry,
                    "user.status_changed"@,
                    user_id,
                    old.username,
                )
                &&& after.audit.last().details == json_object_text(
                    seq![
                        member("from"@, JsonScalar::Text(old.status)),
                        member("to"@, JsonScalar::Text(user.status)),
                    ],
                )
            },
{
    let at = lemma_found(store, user_id);
    if let Ok((after, user)) = status_step(store, user_id, status, entry) {
        lemma_not_on_record(store.audit, entry.id@);
        lemma_another(store.users, user_id);
        assert(changes_one(store, after, user, at, "status_changed"@, entry)) by {
            assert forall|i: int| 0 <= i < store.users.len() && i != at
                implies #[trigger] after.users[i] == store.users[i] by {
                assert(store.users[i].id != store.users[at].id);
            }
        }
        assert(store.users[at].id == user_id);
    }
}

/// A new password is the account's password, to be changed or not as is said, and
/// nothing else of the account changes.
pub proof fn law_password_is_set(
    store: AccountModel,
    user_id: Seq<char>,
    password_hash: Seq<char>,
    must_change: bool,
    entry: AuditEntry,
    action: Seq<char>,
)
    requires
        distinct_users(store.users),
    ensures
        password_step(store, user_id, password_hash, must_change, entry, action) matches Ok(
            (after, user),
        ) ==> exists|at: int|
            #![trigger store.users[at]]
            {
                let old = store.users[at];
                &&& changes_one(store, after, user, at, action, entry)
                &&& old.id == user_id
                &&& user.password_hash == Some(password_hash)
                &&& user.must_change_password == must_change
                &&& user.username == old.username
                &&& user.status == old.status
                &&& user.site_role == old.site_role
                &&& tells(after.audit.last(), entry, action, user_id, old.username)
                &&& after.audit.last().details == json_object_text(
                    seq![member("must_change_password"@, JsonScalar::Flag(must_change))],
                )
            },
{
    let at = lemma_found(store, user_id);
    if let Ok((after, user)) = password_step(
        store,
        user_id,
        password_hash,
        must_change,
        entry,
        action,
    ) {
        lemma_not_on_record(store.audit, entry.id@);
        assert(changes_one(store, after, user, at, action, entry)) by {
            assert forall|i: int| 0 <= i < store.users.len() && i != at
                implies #[trigger] after.users[i] == store.users[i] by {
                assert(store.users[i].id != store.users[at].id);
            }
        }
        assert(store.users[at].id == user_id);
    }
}

/// Signing a user out everywhere ends their sessions and changes nothing else of
/// the account.
pub proof fn law_user_is_signed_out(store: AccountModel, user_id: Seq<char>, entry: AuditEntry)
    requires
        distinct_users(store.users),
    ensures
        sign_out_step(store, user_id, entry) matches Ok((after, user)) ==> exists|at: int|
            #![trigger store.users[at]]
            {
                let old = store.users[at];
                &&& changes_one(store, after, user, at, "admin_revoked"@, entry)
                &&& old.id == user_id
                &&& user.username == old.username
                &&& user.password_hash == old.password_hash
                &&& user.status == old.status
                &&& user.site_role == old.site_role
                &&& user.must_change_password == old.must_change_password
                &&& tells(
                    after.audit.last(),
                    entry,
                    "user.sessions_revoked"@,
                    user_id,
                    old.username,
                )
            },
{
    let at = lemma_found(store, user_id);
    if let Ok((after, user)) = sign_out_step(store, user_id, entry) {
        lemma_not_on_record(store.audit, entry.id@);
        assert(changes_one(store, after, user, at, "admin_revoked"@, entry)) by {
            assert forall|i: int| 0 <= i < store.users.len() && i != at
                implies #[trigger] after.users[i] == store.users[i] by {
                assert(store.users[i].id != store.users[at].id);
            }
        }
        assert(store.users[at].id == user_id);
    }
}

/// An operation on an account that does not exist, or is not local, is refused as
/// such, and on no other.
pub proof fn law_only_local_accounts_are_managed(users: Seq<User>, user_id: Seq<char>)
    requires
        distinct_users(users),
    ensures
        target(users, user_id) is Ok <==> exists|i: int|
            0 <= i < users.len() && (#[trigger] users[i]).id == user_id && users[i].user_type
                == "local"@,
        (target(users, user_id) matches Err(AdminUserRepositoryError::UnsupportedIdentity)) <==> exists|i: int|
            0 <= i < users.len() && (#[trigger] users[i]).id == user_id && users[i].user_type
                != "local"@,
{
    let hit = user_with_id(user_id);
    lemma_lookup(users, hit);
    if let Some(user) = lookup(users, hit) {
        let k = choose|k: int| 0 <= k < users.len() && users[k] == user;
        assert(users[k].id == user_id);
        assert forall|i: int| 0 <= i < users.len() && (#[trigger] users[i]).id == user_id
            implies i == k by {
            if i != k {
                assert(users[i].id != users[k].id);
            }
        }
    } else {
        assert forall|i: int| 0 <= i < users.len() implies (#[trigger] users[i]).id != user_id by {
            assert(!hit(users[i]));
        }
    }
}

/// The first administrator's set-up touches the one account, which signs in anew
/// with the given name and password, and says so on the record.
pub proof fn law_bootstrap_touches_one(
    store: AccountModel,
    username: Seq<char>,
    password_hash: Seq<char>,
    entry: AuditEntry,
)
    ensures
        bootstrap_step(store, username, password_hash, entry) matches Ok(Some((after, user))) ==> {
            &&& user.username == Some(username)
            &&& user.password_hash == Some(password_hash)
            &&& user.site_role == "admin"@
            &&& user.status == "active"@
            &&& user.must_change_password
            &&& user.updated_at == entry.now
            &&& forall|i: int|
                0 <= i < store.users.len() && store.users[i].id != user.id
                    ==> #[trigger] after.users[i] == store.users[i]
            &&& forall|i: int|
                0 <= i < store.users.len() && store.users[i].id == user.id
                    && store.users[i].user_type == "local"@ && store.users[i].session_generation
                    < i64::MAX ==> (#[trigger] after.users[i]).session_generation
                    == store.users[i].session_generation + 1
            &&& forall|i: int|
                0 <= i < store.users.len() ==> !can_lead_now(#[trigger] store.users[i])
            &&& name_is_free(after.users, user.id, username)
            &&& has_to_sign_in(
                store.sessions,
                after.sessions,
                user.id,
                "bootstrap_credentials_set"@,
                entry.now,
            )
            &&& is_added_to(after.audit, store.audit)
            &&& tells(
                after.audit.last(),
                entry,
                "bootstrap.credentials_set"@,
                user.id,
                Some(username),
            )
        },
{
    if let Ok(Some((after, user))) = bootstrap_step(store, username, password_hash, entry) {
        lemma_not_on_record(store.audit, entry.id@);
        assert forall|i: int| 0 <= i < store.users.len() implies !can_lead_now(
            #[trigger] store.users[i],
        ) by {
            assert(!is_usable_admin()(store.users[i]));
        }
        assert forall|i: int| 0 <= i < after.users.len() && (#[trigger] after.users[i]).id
            != user.id implies after.users[i].username != Some(username) by {
            if i < store.users.len() {
                assert(after.users[i] == store.users[i]);
                assert(!other_with_name(user.id, username)(store.users[i]));
            }
        }
    }
}

// ----------------------------------------------------------------------------
// Listings
// ----------------------------------------------------------------------------

/// A page of accounts holds local accounts alone, the oldest first; without a
/// limit and from the start it holds all of them.
pub proof fn law_local_accounts_are_listed(users: Seq<User>, limit: i64, offset: i64)
    ensures
        ({
            let list = limited(ordered(selected(users, managed()), older_user()), limit, offset);
            &&& forall|i: int|
                0 <= i < list.len() ==> users.contains(#[trigger] list[i]) && list[i].user_type
                    == "local"@
            &&& forall|i: int, j: int|
                0 <= i < j < list.len() ==> (#[trigger] list[i]).created_at <= (
                #[trigger] list[j]).created_at
            &&& limit >= 0 ==> list.len() <= limit
            &&& offset <= 0 && (limit < 0 || list.len() < limit) ==> forall|user: User|
                users.contains(user) && user.user_type == "local"@ ==> #[trigger] list.contains(
                    user,
                )
        }),
{
    let less = older_user();
    let list = limited(ordered(selected(users, managed()), less), limit, offset);
    assert(orders(less)) by {
        assert forall|a: User, b: User| #[trigger] less(a, b) implies !less(b, a) by {
            lemma_text_order(a.id, b.id);
        }
        assert forall|a: User, b: User, c: User| #[trigger] less(a, c) && !less(b, c)
            implies #[trigger] less(a, b) by {
            lemma_text_order(a.id, b.id);
            lemma_text_order(a.id, c.id);
            lemma_text_order(b.id, c.id);
            if text_before(a.id, c.id) && text_before(c.id, b.id) {
                lemma_text_transitive(a.id, c.id, b.id);
            }
        }
    }
    law_limited_listing(users, managed(), less, limit, offset);
    assert forall|i: int| 0 <= i < list.len() implies users.contains(#[trigger] list[i])
        && list[i].user_type == "local"@ by {
        assert(managed()(list[i]));
    }
    assert forall|i: int, j: int| 0 <= i < j < list.len() implies (#[trigger] list[i]).created_at
        <= (#[trigger] list[j]).created_at by {
        assert(!less(list[j], list[i]));
    }
    if offset <= 0 && (limit < 0 || list.len() < limit) {
        assert forall|user: User| users.contains(user) && user.user_type == "local"@
            implies #[trigger] list.contains(user) by {
            assert(managed()(user));
        }
    }
}

/// The record is read from the newest entry on, or from behind the one that was
/// read last; without a limit all that there is of it is read.
pub proof fn law_audit_is_read(audit: Seq<Audit>, cursor: Option<Seq<char>>, limit: i64)
    ensures
        audit_page(audit, cursor, limit) matches Ok(list) ==> {
            &&& limit >= 0 ==> list.len() <= limit
            &&& forall|i: int| 0 <= i < list.len() ==> audit.contains(#[trigger] list[i])
            &&& forall|i: int, j: int|
                0 <= i < j < list.len() ==> (#[trigger] list[i]).occurred_at >= (
                #[trigger] list[j]).occurred_at
            &&& cursor is None && (limit < 0 || list.len() < limit) ==> forall|row: Audit|
                audit.contains(row) ==> #[trigger] list.contains(row)
            &&& cursor is Some ==> exists|k: int|
                0 <= k < audit.len() && (#[trigger] audit[k]).id == cursor->0 && is_read_behind(
                    audit,
                    list,
                    audit[k],
                    limit,
                )
        },
        audit_page(audit, cursor, limit) is Err <==> cursor is Some && forall|k: int|
            0 <= k < audit.len() ==> (#[trigger] audit[k]).id != cursor->0,
{
    let less = newer_record();
    lemma_orders_by(less, |a: Audit| -(a.occurred_at as int), |a: Audit| a.id, true);
    match cursor {
        None => {
            let list = audit_page(audit, cursor, limit)->Ok_0;
            law_limited_listing(audit, any_record(), less, limit, 0);
            lemma_newest_first(list);
            if limit < 0 || list.len() < limit {
                assert forall|row: Audit| audit.contains(row) implies #[trigger] list.contains(
                    row,
                ) by {
                    assert(any_record()(row));
                }
            }
        },
        Some(id) => {
            let hit = audit_with_id(id);
            lemma_lookup(audit, hit);
            if let Some(boundary) = lookup(audit, hit) {
                let list = audit_page(audit, cursor, limit)->Ok_0;
                let k = choose|k: int| 0 <= k < audit.len() && audit[k] == boundary;
                law_limited_listing(audit, older_than(boundary), less, limit, 0);
                lemma_newest_first(list);
                assert forall|i: int| 0 <= i < list.len() implies (
                #[trigger] list[i]).occurred_at <= boundary.occurred_at by {
                    assert(older_than(boundary)(list[i]));
                }
                if limit < 0 || list.len() < limit {
                    assert forall|row: Audit|
                        audit.contains(row) && row.occurred_at
                            < boundary.occurred_at implies #[trigger] list.contains(row) by {
                        assert(older_than(boundary)(row));
                    }
                }
                assert(audit[k].id == id);
                assert(is_read_behind(audit, list, audit[k], limit));
            } else {
                assert forall|k: int| 0 <= k < audit.len() implies (#[trigger] audit[k]).id
                    != id by {
                    assert(!hit(audit[k]));
                }
            }
        },
    }
}

proof fn lemma_newest_first(list: Seq<Audit>)
    requires
        is_ordered(list, newer_record()),
    ensures
        forall|i: int, j: int|
            0 <= i < j < list.len() ==> (#[trigger] list[i]).occurred_at >= (
            #[trigger] list[j]).occurred_at,
{
    assert forall|i: int, j: int| 0 <= i < j < list.len() implies (
    #[trigger] list[i]).occurred_at >= (#[trigger] list[j]).occurred_at by {
        assert(!newer_record()(list[j], list[i]));
    }
}

/// Whether a page is what lies behind a record: nothing later, and everything
/// earlier where there is room.
pub open spec fn is_read_behind(
    audit: Seq<Audit>,
    list: Seq<Audit>,
    boundary: Audit,
    limit: i64,
) -> bool {
    &&& forall|i: int|
        0 <= i < list.len() ==> (#[trigger] list[i]).occurred_at <= boundary.occurred_at
    &&& limit < 0 || list.len() < limit ==> forall|row: Audit|
        audit.contains(row) && row.occurred_at < boundary.occurred_at ==> #[trigger] list.contains(
            row,
        )
}

/// Whether a record's id is new.
pub open spec fn is_new_record(audit: Seq<Audit>, entry: AuditEntry) -> bool {
    forall|i: int| 0 <= i < audit.len() ==> (#[trigger] audit[i]).id != entry.id@
}

/// Whether an account is there and local.
pub open spec fn is_managed(users: Seq<User>, user_id: Seq<char>) -> bool {
    exists|i: int|
        0 <= i < users.len() && (#[trigger] users[i]).id == user_id && users[i].user_type
            == "local"@
}

/// An operation on a local account whose record is new is carried out: a rename to
/// a free name, a promotion, a demotion or a disabling that leaves another
/// administrator who can sign in, an enabling, a new password and a signing out.
pub proof fn law_operations_are_owed(
    store: AccountModel,
    user_id: Seq<char>,
    username: Seq<char>,
    role: SiteRole,
    status: UserStatus,
    password_hash: Seq<char>,
    must_change: bool,
    action: Seq<char>,
    entry: AuditEntry,
)
    requires
        distinct_users(store.users),
        is_managed(store.users, user_id),
        is_new_record(store.audit, entry),
    ensures
        name_is_free(store.users, user_id, username) ==> rename_step(
            store,
            user_id,
            username,
            entry,
        ) is Ok,
        role == SiteRole::Admin || another_can_lead(store.users, user_id) ==> role_step(
            store,
            user_id,
            role,
            entry,
        ) is Ok,
        status == UserStatus::Active || another_can_lead(store.users, user_id) ==> status_step(
            store,
            user_id,
            status,
            entry,
        ) is Ok,
        password_step(store, user_id, password_hash, must_change, entry, action) is Ok,
        sign_out_step(store, user_id, entry) is Ok,
{
    law_only_local_accounts_are_managed(store.users, user_id);
    lemma_name_is_free(store.users, user_id, username);
    lemma_another(store.users, user_id);
    assert(!exists_in(store.audit, audit_with_id(entry.id@))) by {
        let hit = audit_with_id(entry.id@);
        if exists_in(store.audit, hit) {
            let i = choose|i: int| 0 <= i < store.audit.len() && hit(#[trigger] store.audit[i]);
            assert(store.audit[i].id == entry.id@);
        }
    }
}

/// An account with a new id and a free name, on a new record, is created.
pub proof fn law_creation_is_owed(
    store: AccountModel,
    id: Seq<char>,
    username: Seq<char>,
    password_hash: Seq<char>,
    role: SiteRole,
    entry: AuditEntry,
)
    requires
        forall|i: int| 0 <= i < store.users.len() ==> (#[trigger] store.users[i]).id != id,
        name_is_free(store.users, id, username),
        is_new_record(store.audit, entry),
    ensures
        create_step(store, id, username, password_hash, role, entry) is Ok,
{
    lemma_name_is_free(store.users, id, username);
    let known = user_with_id(id);
    if exists_in(store.users, known) {
        let i = choose|i: int| 0 <= i < store.users.len() && known(#[trigger] store.users[i]);
        assert(store.users[i].id == id);
    }
    let hit = audit_with_id(entry.id@);
    if exists_in(store.audit, hit) {
        let i = choose|i: int| 0 <= i < store.audit.len() && hit(#[trigger] store.audit[i]);
        assert(store.audit[i].id == entry.id@);
    }
}

/// An operation that is refused changes nothing, and one that is not gives the user
/// that it left.
pub proof fn law_refusal_changes_nothing(
    expected: Result<(AccountModel, User), Refusal>,
    result: Result<UserRow, AdminUserRepositoryError>,
    before: AccountModel,
    after: AccountModel,
)
    requires
        account_changed(expected, result, before, after),
    ensures
        result matches Err(error) ==> after == before && expected == Err::<
            (AccountModel, User),
            Refusal,
        >(error@),
        result matches Ok(row) ==> expected == Ok::<(AccountModel, User), Refusal>((after, row@)),
{
}

/// Someone who is no admin that can lead is no last one: their status is changed, and
/// someone who is no admin at all is given any role.
pub proof fn law_only_a_leader_can_be_the_last(
    store: AccountModel,
    user_id: Seq<char>,
    role: SiteRole,
    status: UserStatus,
    entry: AuditEntry,
)
    requires
        distinct_users(store.users),
        is_managed(store.users, user_id),
        is_new_record(store.audit, entry),
    ensures
        (forall|i: int|
            0 <= i < store.users.len() && (#[trigger] store.users[i]).id == user_id
                ==> store.users[i].site_role != "admin"@ || store.users[i].status != "active"@)
            ==> status_step(store, user_id, status, entry) is Ok,
        (forall|i: int|
            0 <= i < store.users.len() && (#[trigger] store.users[i]).id == user_id
                ==> store.users[i].site_role != "admin"@) ==> role_step(
            store,
            user_id,
            role,
            entry,
        ) is Ok,
{
    law_operations_are_owed(
        store,
        user_id,
        user_id,
        SiteRole::Admin,
        UserStatus::Active,
        user_id,
        false,
        user_id,
        entry,
    );
    lemma_lookup(store.users, user_with_id(user_id));
    assert(!exists_in(store.audit, audit_with_id(entry.id@))) by {
        let hit = audit_with_id(entry.id@);
        if exists_in(store.audit, hit) {
            let i = choose|i: int| 0 <= i < store.audit.len() && hit(#[trigger] store.audit[i]);
            assert(store.audit[i].id == entry.id@);
        }
    }
}

} // verus!

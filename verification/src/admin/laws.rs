//! What managing accounts promises: a site never loses its last administrator,
//! a change of an account ends its sessions, and the record only grows.
use crate::admin::accounts::{
    account_changed, audit_page, audit_with_id, bootstrap_step, can_lead, changed, chosen,
    create_step, has_password, is_newer, is_usable_admin, leading, leads_before, local_with_id,
    newer_record, older_than, other_usable_admin, password_step, rename_step, renamed, role_step,
    sign_out_step, signed_out, status_step, target, usable_admin, user_with_id, with_password,
    with_role, with_status, AccountModel, AdminUserRepositoryError, Audit, AuditEntry, Refusal,
    User,
};
use crate::admin::rows::{role_text, SiteRole, UserRow, UserStatus};
use crate::table::{
    exists_in, law_least, law_ordered, law_selected, least, lemma_lookup, limited, lookup, ordered,
    orders, selected, updated,
};
use crate::text::{lemma_text_order, lemma_text_transitive, text_before};
use vstd::prelude::*;

verus! {

/// Whether some administrator can still sign in.
pub open spec fn has_admin(store: AccountModel) -> bool {
    exists_in(store.users, is_usable_admin())
}

/// A change that leaves the changed account a usable administrator's, or leaves
/// another, leaves one.
proof fn lemma_admin_left(
    users: Seq<User>,
    id: Seq<char>,
    change: spec_fn(User) -> User,
)
    requires
        exists_in(users, is_usable_admin()),
        exists_in(users, other_usable_admin(id)) || forall|user: User|
            usable_admin(user) ==> #[trigger] usable_admin(change(user)),
    ensures
        exists_in(updated(users, user_with_id(id), change), is_usable_admin()),
{
    let after = updated(users, user_with_id(id), change);
    if exists_in(users, other_usable_admin(id)) {
        let i = choose|i: int| 0 <= i < users.len() && other_usable_admin(id)(#[trigger] users[i]);
        assert(after[i] == users[i]);
        assert(is_usable_admin()(after[i]));
    } else {
        let i = choose|i: int| 0 <= i < users.len() && is_usable_admin()(#[trigger] users[i]);
        assert(usable_admin(change(users[i])));
        assert(is_usable_admin()(after[i]));
    }
}

/// The account that an operation is about is one of the accounts.
proof fn lemma_target(users: Seq<User>, id: Seq<char>)
    ensures
        target(users, id) matches Ok(user) ==> user.id == id && users.contains(user),
{
    lemma_lookup(users, user_with_id(id));
}

/// Where every administrator is the account itself, the account's first row is
/// one only if each row that counts is of that account.
proof fn lemma_sole_admin(users: Seq<User>, id: Seq<char>)
    requires
        exists_in(users, is_usable_admin()),
        !exists_in(users, other_usable_admin(id)),
    ensures
        exists|i: int|
            0 <= i < users.len() && usable_admin(#[trigger] users[i]) && users[i].id == id,
{
    let i = choose|i: int| 0 <= i < users.len() && is_usable_admin()(#[trigger] users[i]);
    assert(usable_admin(users[i]));
    if users[i].id != id {
        assert(other_usable_admin(id)(users[i]));
    }
}

/// Whether no two accounts share an id.
pub open spec fn distinct_users(users: Seq<User>) -> bool {
    forall|i: int, j: int|
        0 <= i < users.len() && 0 <= j < users.len() && i != j ==> (#[trigger] users[i]).id != (
        #[trigger] users[j]).id
}

/// The last usable administrator can be neither demoted nor disabled: where there
/// is one, there is one after every change of a role or a status.
pub proof fn law_last_admin_stays(
    store: AccountModel,
    user_id: Seq<char>,
    role: SiteRole,
    status: UserStatus,
    entry: AuditEntry,
)
    requires
        distinct_users(store.users),
        has_admin(store),
    ensures
        role_step(store, user_id, role, entry) matches Ok((after, _)) ==> has_admin(after),
        status_step(store, user_id, status, entry) matches Ok((after, _)) ==> has_admin(after),
{
    let users = store.users;
    lemma_target(users, user_id);
    let by_role = with_role(role, entry.now);
    let by_status = with_status(status, entry.now);
    if exists_in(users, other_usable_admin(user_id)) {
        lemma_admin_left(users, user_id, by_role);
        lemma_admin_left(users, user_id, by_status);
    } else {
        lemma_sole_admin(users, user_id);
        let i = choose|i: int|
            0 <= i < users.len() && usable_admin(#[trigger] users[i]) && users[i].id == user_id;
        if let Ok(user) = target(users, user_id) {
            let k = choose|k: int| 0 <= k < users.len() && users[k] == user;
            if k != i {
                assert(users[k].id != users[i].id);
            }
        }
        if role_step(store, user_id, role, entry) is Ok {
            assert(role == SiteRole::Admin);
            lemma_admin_left(users, user_id, by_role);
        }
        if status_step(store, user_id, status, entry) is Ok {
            assert(status == UserStatus::Active);
            lemma_admin_left(users, user_id, by_status);
        }
    }
}

/// Creating and renaming accounts and ending sessions leave a usable
/// administrator where there is one, and so does a new password that is not
/// empty.
pub proof fn law_other_changes_keep_admin(
    store: AccountModel,
    user_id: Seq<char>,
    username: Seq<char>,
    password_hash: Seq<char>,
    must_change: bool,
    role: SiteRole,
    action: Seq<char>,
    entry: AuditEntry,
)
    requires
        has_admin(store),
    ensures
        create_step(store, user_id, username, password_hash, role, entry) matches Ok((after, _))
            ==> has_admin(after),
        rename_step(store, user_id, username, entry) matches Ok((after, _)) ==> has_admin(after),
        sign_out_step(store, user_id, entry) matches Ok((after, _)) ==> has_admin(after),
        password_hash != ""@ ==> (password_step(
            store,
            user_id,
            password_hash,
            must_change,
            entry,
            action,
        ) matches Ok((after, _)) ==> has_admin(after)),
{
    let users = store.users;
    lemma_target(users, user_id);
    lemma_admin_left(users, user_id, renamed(username, entry.now));
    lemma_admin_left(users, user_id, signed_out(entry.now));
    if password_hash != ""@ {
        lemma_admin_left(users, user_id, with_password(password_hash, must_change, entry.now));
    }
    let i = choose|i: int| 0 <= i < users.len() && is_usable_admin()(#[trigger] users[i]);
    if let Ok((after, _)) = create_step(
        store,
        user_id,
        username,
        password_hash,
        role,
        entry,
    ) {
        assert(after.users[i] == users[i]);
        assert(is_usable_admin()(after.users[i]));
    }
}

/// The accounts that the first administrator may get are in a strict order.
proof fn lemma_leads_order(username: Seq<char>)
    ensures
        orders(leads_before(username)),
{
    let less = leads_before(username);
    assert forall|a: User, b: User| #[trigger] less(a, b) implies !less(b, a) by {
        lemma_text_order(a.id, b.id);
    }
    assert forall|a: User, b: User, c: User| #[trigger] less(a, c) && !less(b, c)
        implies #[trigger] less(
        a,
        b,
    ) by {
        lemma_text_order(a.id, b.id);
        lemma_text_order(a.id, c.id);
        lemma_text_order(b.id, c.id);
        if text_before(a.id, c.id) && text_before(c.id, b.id) {
            lemma_text_transitive(a.id, c.id, b.id);
        }
    }
}

/// The active local accounts that have a password.
pub open spec fn signs_in() -> spec_fn(User) -> bool {
    |user: User| user.user_type == "local"@ && user.status == "active"@ && has_password(user)
}

/// Whether an account is as the first administrator's is set up.
pub open spec fn is_set_up(user: User, username: Seq<char>, password_hash: Seq<char>) -> bool {
    &&& user.user_type == "local"@
    &&& user.site_role == "admin"@
    &&& user.status == "active"@
    &&& user.must_change_password
    &&& user.username == Some(username)
    &&& user.password_hash == Some(password_hash)
}

/// The first administrator is set up unless there is one that can be used. They
/// get the system's own account where it is local, or where no active local
/// account has a password; else one of the accounts with a password: one of the
/// given name where there is one, and the oldest of those. With a password that
/// is not empty they can be used, and setting one up again changes nothing.
pub proof fn law_bootstrap_gives_admin(
    store: AccountModel,
    username: Seq<char>,
    password_hash: Seq<char>,
    entry: AuditEntry,
    other_name: Seq<char>,
    other_hash: Seq<char>,
    later: AuditEntry,
)
    ensures
        (bootstrap_step(store, username, password_hash, entry) matches Ok(None)) <==> has_admin(
            store,
        ),
        bootstrap_step(store, username, password_hash, entry) matches Ok(Some((after, user))) ==> {
            let system = "system_default_user"@;
            &&& is_set_up(user, username, password_hash)
            &&& after.users.contains(user)
            &&& if exists_in(store.users, local_with_id(system)) || !exists_in(
                store.users,
                signs_in(),
            ) {
                user.id == system
            } else {
                exists|i: int|
                    0 <= i < store.users.len() && (#[trigger] store.users[i]).id == user.id
                        && signs_in()(store.users[i]) && is_first(store.users, i, username)
            }
            &&& password_hash != ""@ ==> has_admin(after) && bootstrap_step(
                after,
                other_name,
                other_hash,
                later,
            ) == Ok::<Option<(AccountModel, User)>, Refusal>(None)
        },
{
    let users = store.users;
    let less = leads_before(username);
    let system = "system_default_user"@;
    lemma_leads_order(username);
    law_least(users, can_lead(), less);
    if exists_in(users, local_with_id(system)) {
        let i = choose|i: int| 0 <= i < users.len() && local_with_id(system)(#[trigger] users[i]);
        assert(can_lead()(users[i]));
    }
    if exists_in(users, signs_in()) {
        let i = choose|i: int| 0 <= i < users.len() && signs_in()(#[trigger] users[i]);
        assert(can_lead()(users[i]));
    }
    if let Ok(Some((after, user))) = bootstrap_step(store, username, password_hash, entry) {
        let (all, leader) = chosen(users, username, password_hash, entry.now)->0;
        if all.len() > users.len() {
            assert(all[all.len() - 1] == leader);
        }
        let k = choose|k: int| 0 <= k < all.len() && all[k] == leader;
        assert(local_with_id(leader.id)(all[k]));
        assert(after.users[k] == leading(username, password_hash, entry.now)(leader));
        if password_hash != ""@ {
            assert(is_usable_admin()(after.users[k]));
        }
        if least(users, can_lead(), less) is Some && leader.id != system {
            assert(signs_in()(users[k]));
            assert forall|i: int| 0 <= i < users.len() && signs_in()(#[trigger] users[i])
                implies !less(users[i], users[k]) by {
                assert(can_lead()(users[i]));
            }
            assert(is_first(users, k, username));
        }
    }
}

/// Whether no account with a password comes before one: neither one of the given
/// name, where this one has another, nor one that is older.
pub open spec fn is_first(users: Seq<User>, at: int, username: Seq<char>) -> bool {
    forall|i: int|
        0 <= i < users.len() && signs_in()(#[trigger] users[i]) ==> !leads_before(username)(
            users[i],
            users[at],
        )
}

/// A change of an account ends each of its sessions, leaves every other session
/// alone, and adds one record behind the ones that are there.
pub proof fn law_change_ends_sessions(
    store: AccountModel,
    user_id: Seq<char>,
    change: spec_fn(User) -> User,
    reason: Seq<char>,
    record: Audit,
)
    ensures
        ({
            let after = changed(store, user_id, change, reason, record);
            &&& after.sessions.len() == store.sessions.len()
            &&& forall|i: int|
                0 <= i < after.sessions.len() && (#[trigger] after.sessions[i]).user_id == user_id
                    ==> after.sessions[i].revoked_at is Some
            &&& forall|i: int|
                0 <= i < store.sessions.len() && store.sessions[i].user_id != user_id
                    ==> #[trigger] after.sessions[i] == store.sessions[i]
            &&& after.audit.len() == store.audit.len() + 1
            &&& after.audit.drop_last() == store.audit
            &&& after.audit.last() == record
        }),
{
    let after = changed(store, user_id, change, reason, record);
    assert(after.audit.drop_last() =~= store.audit);
}

/// Changing a role is refused for the last usable administrator exactly where it
/// would demote them, and for an account that is not local; a refusal changes
/// nothing. Otherwise the account has the role and its sessions are over. Either
/// way a site that had a usable administrator has one still.
pub proof fn law_role_change(
    before: AccountModel,
    after: AccountModel,
    user_id: Seq<char>,
    role: SiteRole,
    entry: AuditEntry,
    result: Result<UserRow, AdminUserRepositoryError>,
)
    requires
        account_changed(role_step(before, user_id, role, entry), result, before, after),
    ensures
        (result matches Err(AdminUserRepositoryError::LastActiveAdmin)) <==> (lookup(
            before.users,
            user_with_id(user_id),
        ) matches Some(user) && user.user_type == "local"@ && user.site_role == "admin"@ && role
            != SiteRole::Admin && !exists_in(before.users, other_usable_admin(user_id))),
        (result matches Err(AdminUserRepositoryError::UnsupportedIdentity)) <==> (lookup(
            before.users,
            user_with_id(user_id),
        ) matches Some(user) && user.user_type != "local"@),
        result is Err ==> after == before,
        result matches Ok(user) ==> user@.id == user_id && user@.site_role == role_text(role)
            && after.users.contains(user@) && forall|i: int|
            0 <= i < after.sessions.len() && (#[trigger] after.sessions[i]).user_id == user_id
                ==> after.sessions[i].revoked_at is Some,
        distinct_users(before.users) ==> distinct_users(after.users) && (has_admin(before)
            ==> has_admin(after)),
{
    lemma_target(before.users, user_id);
    if let Ok(user) = target(before.users, user_id) {
        let change = with_role(role, entry.now);
        let k = choose|k: int| 0 <= k < before.users.len() && before.users[k] == user;
        if let Ok((store, row)) = role_step(before, user_id, role, entry) {
            assert(store.users[k] == change(user));
        }
        if distinct_users(before.users) {
            lemma_ids_stay_apart(before.users, user_with_id(user_id), change);
        }
    }
    if distinct_users(before.users) && has_admin(before) {
        law_last_admin_stays(before, user_id, role, UserStatus::Active, entry);
    }
}

/// Changes of accounts that keep the ids keep them apart.
proof fn lemma_ids_stay_apart(
    users: Seq<User>,
    hit: spec_fn(User) -> bool,
    change: spec_fn(User) -> User,
)
    requires
        distinct_users(users),
        forall|user: User| (#[trigger] change(user)).id == user.id,
    ensures
        distinct_users(updated(users, hit, change)),
{
    let after = updated(users, hit, change);
    assert forall|i: int, j: int|
        0 <= i < after.len() && 0 <= j < after.len() && i != j implies (#[trigger] after[i]).id != (
    #[trigger] after[j]).id by {
        assert(users[i].id != users[j].id);
    }
}

/// No two accounts ever share an id: each operation keeps the ids apart.
pub proof fn law_ids_stay_apart(
    store: AccountModel,
    user_id: Seq<char>,
    username: Seq<char>,
    password_hash: Seq<char>,
    must_change: bool,
    role: SiteRole,
    status: UserStatus,
    action: Seq<char>,
    entry: AuditEntry,
)
    requires
        distinct_users(store.users),
    ensures
        create_step(store, user_id, username, password_hash, role, entry) matches Ok((after, _))
            ==> distinct_users(after.users),
        rename_step(store, user_id, username, entry) matches Ok((after, _)) ==> distinct_users(
            after.users,
        ),
        role_step(store, user_id, role, entry) matches Ok((after, _)) ==> distinct_users(
            after.users,
        ),
        status_step(store, user_id, status, entry) matches Ok((after, _)) ==> distinct_users(
            after.users,
        ),
        password_step(
            store,
            user_id,
            password_hash,
            must_change,
            entry,
            action,
        ) matches Ok((after, _)) ==> distinct_users(after.users),
        sign_out_step(store, user_id, entry) matches Ok((after, _)) ==> distinct_users(after.users),
        bootstrap_step(store, username, password_hash, entry) matches Ok(Some((after, _)))
            ==> distinct_users(after.users),
{
    let users = store.users;
    lemma_target(users, user_id);
    let hit = user_with_id(user_id);
    lemma_ids_stay_apart(users, hit, renamed(username, entry.now));
    lemma_ids_stay_apart(users, hit, with_role(role, entry.now));
    lemma_ids_stay_apart(users, hit, with_status(status, entry.now));
    lemma_ids_stay_apart(users, hit, with_password(password_hash, must_change, entry.now));
    lemma_ids_stay_apart(users, hit, signed_out(entry.now));
    if let Ok((after, row)) = create_step(store, user_id, username, password_hash, role, entry) {
        lemma_new_id_apart(users, row);
    }
    if let Ok(Some((after, row))) = bootstrap_step(store, username, password_hash, entry) {
        let (all, leader) = chosen(users, username, password_hash, entry.now)->0;
        if least(users, can_lead(), leads_before(username)) is None {
            lemma_new_id_apart(users, leader);
        }
        lemma_ids_stay_apart(
            all,
            local_with_id(leader.id),
            leading(username, password_hash, entry.now),
        );
    }
}

/// An account under a new id keeps the ids apart.
proof fn lemma_new_id_apart(users: Seq<User>, user: User)
    requires
        distinct_users(users),
        !exists_in(users, user_with_id(user.id)),
    ensures
        distinct_users(users.push(user)),
{
    let after = users.push(user);
    assert forall|i: int, j: int|
        0 <= i < after.len() && 0 <= j < after.len() && i != j implies (#[trigger] after[i]).id != (
    #[trigger] after[j]).id by {
        if i < users.len() {
            assert(!user_with_id(user.id)(users[i]));
        }
        if j < users.len() {
            assert(!user_with_id(user.id)(users[j]));
        }
    }
}

/// Whether one record by an actor, at a time and about an account, was put behind
/// the records that were there.
pub open spec fn on_record(
    before: AccountModel,
    after: AccountModel,
    user: User,
    entry: AuditEntry,
) -> bool {
    &&& after.audit.len() == before.audit.len() + 1
    &&& after.audit.drop_last() == before.audit
    &&& after.audit.last().id == entry.id@
    &&& after.audit.last().occurred_at == entry.now
    &&& after.audit.last().target_user_id == Some(user.id)
}

/// The record only grows: each operation on accounts that is carried out keeps
/// every record as it is and adds one of its own behind them.
pub proof fn law_audit_only_grows(
    store: AccountModel,
    user_id: Seq<char>,
    username: Seq<char>,
    password_hash: Seq<char>,
    must_change: bool,
    role: SiteRole,
    status: UserStatus,
    action: Seq<char>,
    entry: AuditEntry,
)
    ensures
        create_step(store, user_id, username, password_hash, role, entry) matches Ok((after, user))
            ==> on_record(store, after, user, entry),
        rename_step(store, user_id, username, entry) matches Ok((after, user)) ==> on_record(
            store,
            after,
            user,
            entry,
        ),
        role_step(store, user_id, role, entry) matches Ok((after, user)) ==> on_record(
            store,
            after,
            user,
            entry,
        ),
        status_step(store, user_id, status, entry) matches Ok((after, user)) ==> on_record(
            store,
            after,
            user,
            entry,
        ),
        password_step(store, user_id, password_hash, must_change, entry, action) matches Ok(
            (after, user),
        ) ==> on_record(store, after, user, entry),
        sign_out_step(store, user_id, entry) matches Ok((after, user)) ==> on_record(
            store,
            after,
            user,
            entry,
        ),
        bootstrap_step(store, username, password_hash, entry) matches Ok(Some((after, user)))
            ==> on_record(store, after, user, entry),
{
    lemma_target(store.users, user_id);
    assert forall|record: Audit| #[trigger] store.audit.push(record).drop_last() == store.audit by {
        assert(store.audit.push(record).drop_last() =~= store.audit);
    }
}

// ----------------------------------------------------------------------------
// Reading the record
// ----------------------------------------------------------------------------

proof fn lemma_record_order()
    ensures
        orders(newer_record()),
{
    let less = newer_record();
    assert forall|a: Audit, b: Audit| #[trigger] less(a, b) implies !less(b, a) by {
        lemma_text_order(a.id, b.id);
    }
    assert forall|a: Audit, b: Audit, c: Audit| #[trigger] less(a, c) && !less(b, c)
        implies #[trigger] less(
        a,
        b,
    ) by {
        lemma_text_order(b.id, c.id);
        lemma_text_order(a.id, b.id);
        lemma_text_order(a.id, c.id);
        if text_before(c.id, a.id) && text_before(b.id, c.id) {
            lemma_text_transitive(b.id, c.id, a.id);
        }
    }
}

/// A page behind a record holds only records that are older than it, each stored,
/// the newest first.
pub proof fn law_audit_page_goes_on(
    audit: Seq<Audit>,
    cursor: Seq<char>,
    limit: i64,
    boundary: Audit,
)
    requires
        lookup(audit, audit_with_id(cursor)) == Some(
            boundary,
        ),
    ensures
        audit_page(audit, Some(cursor), limit) matches Ok(rows) && (forall|i: int|
            0 <= i < rows.len() ==> is_newer(boundary, #[trigger] rows[i]) && audit.contains(
                rows[i],
            )) && forall|i: int, j: int|
            0 <= i < j < rows.len() ==> !is_newer(#[trigger] rows[j], #[trigger] rows[i]),
{
    let hit = older_than(boundary);
    let less = newer_record();
    let some = selected(audit, hit);
    let all = ordered(some, less);
    lemma_record_order();
    law_ordered(some, less);
    law_selected(audit, hit);
    let rows = limited(all, limit, 0);
    assert forall|i: int| 0 <= i < rows.len() implies is_newer(boundary, #[trigger] rows[i])
        && audit.contains(rows[i]) by {
        assert(rows[i] == all[i]);
        assert(all.contains(all[i]));
        assert(some.contains(all[i]));
    }
    assert forall|i: int, j: int| 0 <= i < j < rows.len() implies !is_newer(
        #[trigger] rows[j],
        #[trigger] rows[i],
    ) by {
        assert(rows[i] == all[i] && rows[j] == all[j]);
        assert(!less(all[j], all[i]));
    }
}

} // verus!

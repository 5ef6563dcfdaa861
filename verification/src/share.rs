//! Resources that are shared: they stay private unless their owner says so.
use crate::error::{conflict, missing, not_found, DbError};
use crate::table::{
    delete_where, exists_in, fetch_where, find_where, found, law_full_listing, law_put_is_found,
    law_removed, lemma_orders_by, lemma_lookup, list_where, lookup, model, ordered, put, put_row,
    removed, selected, Record,
};
use crate::text::{before, opt_text, same, text_before};
use crate::write::{
    is_bad_value, is_duplicate, is_missing_reference, reports_bad_value, reports_duplicate,
    reports_missing_reference, Verdict,
};
use vstd::prelude::*;

verus! {

/// What kind of resource is shared.
#[derive(Debug, Clone, Copy, PartialEq, Eq, Structural)]
pub enum ShareResourceType {
    Conversation,
    Project,
    Provider,
}

/// What a share allows.
#[derive(Debug, Clone, Copy, PartialEq, Eq, Structural)]
pub enum SharePermission {
    View,
    Edit,
}

/// What a user may do with a resource.
#[derive(Debug, Clone, Copy, PartialEq, Eq, Structural)]
pub enum ResourceAccess {
    Nothing,
    View,
    Edit,
    Owner,
}

/// The text of a kind of resource.
pub open spec fn kind_text(kind: ShareResourceType) -> Seq<char> {
    match kind {
        ShareResourceType::Conversation => "conversation"@,
        ShareResourceType::Project => "project"@,
        ShareResourceType::Provider => "provider"@,
    }
}

/// The text of a permission.
pub open spec fn permission_text(permission: SharePermission) -> Seq<char> {
    match permission {
        SharePermission::View => "view"@,
        SharePermission::Edit => "edit"@,
    }
}

/// The permission that a text names.
pub open spec fn permission_of(text: Seq<char>) -> Option<SharePermission> {
    if text == "view"@ {
        Some(SharePermission::View)
    } else if text == "edit"@ {
        Some(SharePermission::Edit)
    } else {
        None
    }
}

impl ShareResourceType {
    /// The kind as it is stored.
    pub fn as_str(self) -> (text: &'static str)
        ensures
            text@ == kind_text(self),
    {
        match self {
            ShareResourceType::Conversation => "conversation",
            ShareResourceType::Project => "project",
            ShareResourceType::Provider => "provider",
        }
    }
}

impl SharePermission {
    /// The permission as it is stored.
    pub fn as_str(self) -> (text: &'static str)
        ensures
            text@ == permission_text(self),
    {
        match self {
            SharePermission::View => "view",
            SharePermission::Edit => "edit",
        }
    }

    /// The permission that a stored text names.
    pub fn parse(text: &str) -> (permission: Option<Self>)
        ensures
            permission == permission_of(text@),
    {
        if same(text, "view") {
            Some(SharePermission::View)
        } else if same(text, "edit") {
            Some(SharePermission::Edit)
        } else {
            None
        }
    }
}

impl ResourceAccess {
    /// Whether the resource may be changed.
    pub open spec fn edits(self) -> bool {
        self is Owner || self is Edit
    }

    /// Whether the resource may be changed.
    pub fn allows_edit(self) -> (yes: bool)
        ensures
            yes == self.edits(),
    {
        match self {
            ResourceAccess::Owner => true,
            ResourceAccess::Edit => true,
            ResourceAccess::View => false,
            ResourceAccess::Nothing => false,
        }
    }
}

/// A resource that its owner lets another user see or edit.
#[derive(Debug, Clone, PartialEq, Eq)]
pub struct ResourceShareRow<T = String> {
    pub id: T,
    pub resource_type: T,
    pub resource_id: T,
    pub owner_user_id: T,
    pub grantee_user_id: T,
    pub permission: T,
    pub created_at: i64,
    pub created_by: T,
}

impl View for ResourceShareRow<String> {
    type V = ResourceShareRow<Seq<char>>;

    open spec fn view(&self) -> ResourceShareRow<Seq<char>> {
        ResourceShareRow {
            id: self.id@,
            resource_type: self.resource_type@,
            resource_id: self.resource_id@,
            owner_user_id: self.owner_user_id@,
            grantee_user_id: self.grantee_user_id@,
            permission: self.permission@,
            created_at: self.created_at,
            created_by: self.created_by@,
        }
    }
}

impl Record for ResourceShareRow<String> {
    fn duplicate(&self) -> (copy: Self) {
        ResourceShareRow {
            id: self.id.clone(),
            resource_type: self.resource_type.clone(),
            resource_id: self.resource_id.clone(),
            owner_user_id: self.owner_user_id.clone(),
            grantee_user_id: self.grantee_user_id.clone(),
            permission: self.permission.clone(),
            created_at: self.created_at,
            created_by: self.created_by.clone(),
        }
    }
}

/// The model of a share.
pub type Share = ResourceShareRow<Seq<char>>;

/// Whose a resource is.
#[derive(Debug, Clone, PartialEq, Eq)]
pub struct ResourceOwnerRow<T = String> {
    pub resource_type: T,
    pub resource_id: T,
    pub user_id: T,
}

impl View for ResourceOwnerRow<String> {
    type V = ResourceOwnerRow<Seq<char>>;

    open spec fn view(&self) -> ResourceOwnerRow<Seq<char>> {
        ResourceOwnerRow {
            resource_type: self.resource_type@,
            resource_id: self.resource_id@,
            user_id: self.user_id@,
        }
    }
}

impl Record for ResourceOwnerRow<String> {
    fn duplicate(&self) -> (copy: Self) {
        ResourceOwnerRow {
            resource_type: self.resource_type.clone(),
            resource_id: self.resource_id.clone(),
            user_id: self.user_id.clone(),
        }
    }
}

/// The model of an owned resource.
pub type Owned = ResourceOwnerRow<Seq<char>>;

/// A share to be made.
#[derive(Debug, Clone, PartialEq, Eq)]
pub struct GrantShareParams<'a> {
    pub resource_type: ShareResourceType,
    pub resource_id: &'a str,
    pub owner_user_id: &'a str,
    pub grantee_user_id: &'a str,
    pub permission: SharePermission,
    pub created_by: &'a str,
}

/// The model of a share to be made.
pub struct Grant {
    pub resource_type: ShareResourceType,
    pub resource_id: Seq<char>,
    pub owner_user_id: Seq<char>,
    pub grantee_user_id: Seq<char>,
    pub permission: SharePermission,
    pub created_by: Seq<char>,
}

impl<'a> View for GrantShareParams<'a> {
    type V = Grant;

    open spec fn view(&self) -> Grant {
        Grant {
            resource_type: self.resource_type,
            resource_id: self.resource_id@,
            owner_user_id: self.owner_user_id@,
            grantee_user_id: self.grantee_user_id@,
            permission: self.permission,
            created_by: self.created_by@,
        }
    }
}

// ----------------------------------------------------------------------------
// The model
// ----------------------------------------------------------------------------

/// The shares, and whose the resources are.
#[derive(Debug, Clone, PartialEq, Eq)]
pub struct ShareStore {
    pub shares: Vec<ResourceShareRow>,
    pub resources: Vec<ResourceOwnerRow>,
}

/// The model of the shares.
#[verifier::ext_equal]
pub struct ShareModel {
    pub shares: Seq<Share>,
    pub resources: Seq<Owned>,
}

impl View for ShareStore {
    type V = ShareModel;

    open spec fn view(&self) -> ShareModel {
        ShareModel { shares: model(self.shares@), resources: model(self.resources@) }
    }
}

/// The share with an id.
pub open spec fn with_id(id: Seq<char>) -> spec_fn(Share) -> bool {
    |row: Share| row.id == id
}

/// The shares of a resource.
pub open spec fn of_resource(kind: ShareResourceType, id: Seq<char>) -> spec_fn(Share) -> bool {
    |row: Share| row.resource_type == kind_text(kind) && row.resource_id == id
}

/// A user's share of a resource.
pub open spec fn share_of(
    kind: ShareResourceType,
    id: Seq<char>,
    user_id: Seq<char>,
) -> spec_fn(Share) -> bool {
    |row: Share|
        row.resource_type == kind_text(kind) && row.resource_id == id && row.grantee_user_id
            == user_id
}

/// The shares that an owner has made.
pub open spec fn granted_by(user_id: Seq<char>) -> spec_fn(Share) -> bool {
    |row: Share| row.owner_user_id == user_id
}

/// The shares that a user has got.
pub open spec fn received_by(user_id: Seq<char>) -> spec_fn(Share) -> bool {
    |row: Share| row.grantee_user_id == user_id
}

/// The order of the shares of a resource: the oldest first.
pub open spec fn oldest_first() -> spec_fn(Share, Share) -> bool {
    |a: Share, b: Share|
        a.created_at < b.created_at || (a.created_at == b.created_at && (text_before(a.id, b.id)))
}

/// The order of a user's shares: the latest first.
pub open spec fn latest_first() -> spec_fn(Share, Share) -> bool {
    |a: Share, b: Share|
        b.created_at < a.created_at || (a.created_at == b.created_at && (text_before(b.id, a.id)))
}

/// A resource.
pub open spec fn resource(kind: ShareResourceType, id: Seq<char>) -> spec_fn(Owned) -> bool {
    |row: Owned| row.resource_type == kind_text(kind) && row.resource_id == id
}

impl Grant {
    /// The share as it is made.
    pub open spec fn made(self, id: Seq<char>, now: i64) -> Share {
        ResourceShareRow {
            id,
            resource_type: kind_text(self.resource_type),
            resource_id: self.resource_id,
            owner_user_id: self.owner_user_id,
            grantee_user_id: self.grantee_user_id,
            permission: permission_text(self.permission),
            created_at: now,
            created_by: self.created_by,
        }
    }

    /// A share that is made anew. Its id and its age stay.
    pub open spec fn renewed(self) -> spec_fn(Share) -> Share {
        |row: Share|
            ResourceShareRow {
                permission: permission_text(self.permission),
                created_by: self.created_by,
                owner_user_id: self.owner_user_id,
                ..row
            }
    }

    /// The user's share that is made or made anew.
    pub open spec fn place(self) -> spec_fn(Share) -> bool {
        share_of(self.resource_type, self.resource_id, self.grantee_user_id)
    }
}

/// The shares after one was made or made anew.
pub open spec fn shares_after(
    shares: Seq<Share>,
    grant: Grant,
    id: Seq<char>,
    now: i64,
) -> Seq<Share> {
    put(shares, grant.place(), grant.renewed(), grant.made(id, now))
}

/// The error for a share that the storage engine turned down.
pub open spec fn share_refused(code: Option<Seq<char>>, message: Seq<char>) -> DbError<Seq<char>> {
    if reports_duplicate(code) {
        DbError::Conflict("Share already exists"@)
    } else if reports_missing_reference(code) {
        DbError::NotFound("Referenced user or resource is missing"@)
    } else if reports_bad_value(code) {
        DbError::Conflict(message)
    } else {
        DbError::Query(message)
    }
}

/// What making a share comes to: the shares after it, and the share.
pub open spec fn grant_step(
    shares: Seq<Share>,
    grant: Grant,
    id: Seq<char>,
    now: i64,
    verdict: Verdict<Seq<char>>,
) -> Result<(Seq<Share>, Share), DbError<Seq<char>>> {
    if grant.owner_user_id == grant.grantee_user_id {
        Err(DbError::Conflict("Cannot share a resource with its owner"@))
    } else {
        match verdict {
            Verdict::Refused { code, message } => Err(share_refused(code, message)),
            Verdict::Accepted => {
                let after = shares_after(shares, grant, id, now);
                match lookup(after, grant.place()) {
                    Some(share) => Ok((after, share)),
                    None => Err(DbError::NotFound("Share row missing after grant"@)),
                }
            },
        }
    }
}

/// Whether making a share was carried out as `expected` says.
pub open spec fn granted(
    expected: Result<(Seq<Share>, Share), DbError<Seq<char>>>,
    result: Result<ResourceShareRow, DbError>,
    before: ShareModel,
    after: ShareModel,
) -> bool {
    match expected {
        Err(wanted) => (result matches Err(error) && error@ == wanted) && after == before,
        Ok((shares, share)) => (result matches Ok(row) && row@ == share) && after == (ShareModel {
            shares,
            ..before
        }),
    }
}

/// What a user's share of a resource allows.
pub open spec fn permission_in(
    shares: Seq<Share>,
    kind: ShareResourceType,
    id: Seq<char>,
    user_id: Seq<char>,
) -> Option<SharePermission> {
    match lookup(shares, share_of(kind, id, user_id)) {
        Some(share) => permission_of(share.permission),
        None => None,
    }
}

/// Whose a resource is.
pub open spec fn owner_in(resources: Seq<Owned>, kind: ShareResourceType, id: Seq<char>) -> Option<
    Seq<char>,
> {
    match lookup(resources, resource(kind, id)) {
        Some(row) => Some(row.user_id),
        None => None,
    }
}

impl ShareModel {
    /// What a user may do with a resource. A resource that is not there and one
    /// that was not shared look the same.
    pub open spec fn access(
        self,
        kind: ShareResourceType,
        id: Seq<char>,
        user_id: Seq<char>,
    ) -> ResourceAccess {
        match owner_in(self.resources, kind, id) {
            None => ResourceAccess::Nothing,
            Some(owner) => if owner == user_id {
                ResourceAccess::Owner
            } else {
                match permission_in(self.shares, kind, id, user_id) {
                    Some(SharePermission::Edit) => ResourceAccess::Edit,
                    Some(SharePermission::View) => ResourceAccess::View,
                    None => ResourceAccess::Nothing,
                }
            },
        }
    }
}

// ----------------------------------------------------------------------------
// The same in running code
// ----------------------------------------------------------------------------

/// The error for a share that the storage engine turned down.
pub fn share_write_error(code: &Option<String>, message: &str) -> (error: DbError)
    ensures
        error@ == share_refused(opt_text(*code), message@),
{
    if is_duplicate(code) {
        conflict("Share already exists")
    } else if is_missing_reference(code) {
        DbError::NotFound("Referenced user or resource is missing".to_owned())
    } else if is_bad_value(code) {
        conflict(message)
    } else {
        DbError::Query(message.to_owned())
    }
}

fn is_share_of(
    row: &ResourceShareRow,
    kind: ShareResourceType,
    id: &str,
    user_id: &str,
) -> (yes: bool)
    ensures
        yes == share_of(kind, id@, user_id@)(row@),
{
    same(row.resource_type.as_str(), kind.as_str()) && same(row.resource_id.as_str(), id) && same(
        row.grantee_user_id.as_str(),
        user_id,
    )
}

impl ShareStore {
    /// Makes a share, or makes it anew where the user has one, once the storage
    /// engine has spoken.
    pub fn grant(
        &mut self,
        params: &GrantShareParams<'_>,
        id: &str,
        now: i64,
        verdict: &Verdict,
    ) -> (result:
        Result<ResourceShareRow, DbError>)
        ensures
            granted(
                grant_step(old(self)@.shares, params@, id@, now, verdict@),
                result,
                old(self)@,
                final(self)@,
            ),
    {
        if same(params.owner_user_id, params.grantee_user_id) {
            return Err(conflict("Cannot share a resource with its owner"));
        }
        match verdict {
            Verdict::Refused { code, message } => {
                return Err(share_write_error(code, message.as_str()));
            },
            Verdict::Accepted => {},
        }
        let kind = params.resource_type;
        let resource_id = params.resource_id;
        let grantee = params.grantee_user_id;
        let ghost here = params@.place();
        let ghost change = params@.renewed();
        let row = ResourceShareRow {
            id: id.to_owned(),
            resource_type: kind.as_str().to_owned(),
            resource_id: resource_id.to_owned(),
            owner_user_id: params.owner_user_id.to_owned(),
            grantee_user_id: grantee.to_owned(),
            permission: params.permission.as_str().to_owned(),
            created_at: now,
            created_by: params.created_by.to_owned(),
        };
        proof {
            law_put_is_found(self@.shares, here, change, row@);
        }
        put_row(
            &mut self.shares,
            |row: &ResourceShareRow| -> (yes: bool)
                ensures yes == here(row@)
                { is_share_of(row, kind, resource_id, grantee) },
            |row: &ResourceShareRow| -> (next: ResourceShareRow)
                ensures next@ == change(row@)
                {
                    ResourceShareRow {
                        permission: params.permission.as_str().to_owned(),
                        created_by: params.created_by.to_owned(),
                        owner_user_id: params.owner_user_id.to_owned(),
                        ..row.duplicate()
                    }
                },
            row,
            Ghost(here),
            Ghost(change),
        );
        let share = fetch_where(
            &self.shares,
            |row: &ResourceShareRow| -> (yes: bool)
                ensures yes == here(row@)
                { is_share_of(row, kind, resource_id, grantee) },
            Ghost(here),
        );
        match share {
            Some(share) => Ok(share),
            None => Err(DbError::NotFound("Share row missing after grant".to_owned())),
        }
    }

    /// Takes a share back.
    pub fn revoke(&mut self, share_id: &str) -> (result: Result<(), DbError>)
        ensures
            if exists_in(old(self)@.shares, with_id(share_id@)) {
                &&& result is Ok
                &&& final(self)@ == (ShareModel {
                    shares: removed(old(self)@.shares, with_id(share_id@)),
                    ..old(self)@
                })
            } else {
                &&& result matches Err(error)
                &&& error@ == missing("Share '"@, share_id@, "' not found"@)
                &&& final(self)@ == old(self)@
            },
    {
        let known = find_where(
            &self.shares,
            |row: &ResourceShareRow| -> (yes: bool)
                ensures yes == with_id(share_id@)(row@)
                { same(row.id.as_str(), share_id) },
            Ghost(with_id(share_id@)),
        );
        if known.is_none() {
            return Err(not_found("Share '", share_id, "' not found"));
        }
        let _count: u64 = delete_where(
            &mut self.shares,
            |row: &ResourceShareRow| -> (yes: bool)
                ensures yes == with_id(share_id@)(row@)
                { same(row.id.as_str(), share_id) },
            Ghost(with_id(share_id@)),
        );
        Ok(())
    }

    /// The shares of a resource.
    pub fn list_for_resource(
        &self,
        resource_type: ShareResourceType,
        resource_id: &str,
    ) -> (list: Vec<
        ResourceShareRow,
    >)
        ensures
            model(list@) == ordered(
                selected(self@.shares, of_resource(resource_type, resource_id@)),
                oldest_first(),
            ),
    {
        list_where(
            &self.shares,
            |row: &ResourceShareRow| -> (yes: bool)
                ensures yes == of_resource(resource_type, resource_id@)(row@)
                {
                    same(row.resource_type.as_str(), resource_type.as_str()) && same(
                        row.resource_id.as_str(),
                        resource_id,
                    )
                },
            |a: &ResourceShareRow, b: &ResourceShareRow| -> (yes: bool)
                ensures yes == oldest_first()(a@, b@)
                {
                    a.created_at < b.created_at
                        || (a.created_at == b.created_at && (before(a.id.as_str(), b.id.as_str())))
                },
            Ghost(of_resource(resource_type, resource_id@)),
            Ghost(oldest_first()),
        )
    }

    /// The shares that an owner has made.
    pub fn list_granted_by(&self, owner_user_id: &str) -> (list: Vec<ResourceShareRow>)
        ensures
            model(list@) == ordered(
                selected(self@.shares, granted_by(owner_user_id@)),
                latest_first(),
            ),
    {
        list_where(
            &self.shares,
            |row: &ResourceShareRow| -> (yes: bool)
                ensures yes == granted_by(owner_user_id@)(row@)
                { same(row.owner_user_id.as_str(), owner_user_id) },
            |a: &ResourceShareRow, b: &ResourceShareRow| -> (yes: bool)
                ensures yes == latest_first()(a@, b@)
                {
                    b.created_at < a.created_at
                        || (a.created_at == b.created_at && (before(b.id.as_str(), a.id.as_str())))
                },
            Ghost(granted_by(owner_user_id@)),
            Ghost(latest_first()),
        )
    }

    /// The shares that a user has got.
    pub fn list_received_by(&self, grantee_user_id: &str) -> (list: Vec<ResourceShareRow>)
        ensures
            model(list@) == ordered(
                selected(self@.shares, received_by(grantee_user_id@)),
                latest_first(),
            ),
    {
        list_where(
            &self.shares,
            |row: &ResourceShareRow| -> (yes: bool)
                ensures yes == received_by(grantee_user_id@)(row@)
                { same(row.grantee_user_id.as_str(), grantee_user_id) },
            |a: &ResourceShareRow, b: &ResourceShareRow| -> (yes: bool)
                ensures yes == latest_first()(a@, b@)
                {
                    b.created_at < a.created_at
                        || (a.created_at == b.created_at && (before(b.id.as_str(), a.id.as_str())))
                },
            Ghost(received_by(grantee_user_id@)),
            Ghost(latest_first()),
        )
    }

    /// What a user's share of a resource allows. Owning it is no share.
    pub fn get_permission(
        &self,
        resource_type: ShareResourceType,
        resource_id: &str,
        grantee_user_id: &str,
    ) -> (permission: Option<SharePermission>)
        ensures
            permission == permission_in(
                self@.shares,
                resource_type,
                resource_id@,
                grantee_user_id@,
            ),
    {
        let ghost here = share_of(resource_type, resource_id@, grantee_user_id@);
        let found = find_where(
            &self.shares,
            |row: &ResourceShareRow| -> (yes: bool)
                ensures yes == here(row@)
                { is_share_of(row, resource_type, resource_id, grantee_user_id) },
            Ghost(here),
        );
        match found {
            Some(at) => SharePermission::parse(self.shares[at].permission.as_str()),
            None => None,
        }
    }

    /// What a user may do with a resource.
    pub fn resolve_access(
        &self,
        resource_type: ShareResourceType,
        resource_id: &str,
        user_id: &str,
    ) -> (access:
        ResourceAccess)
        ensures
            access == self@.access(resource_type, resource_id@, user_id@),
    {
        match self.resource_owner(resource_type, resource_id) {
            None => ResourceAccess::Nothing,
            Some(owner) => if same(owner.as_str(), user_id) {
                ResourceAccess::Owner
            } else {
                match self.get_permission(resource_type, resource_id, user_id) {
                    Some(SharePermission::Edit) => ResourceAccess::Edit,
                    Some(SharePermission::View) => ResourceAccess::View,
                    None => ResourceAccess::Nothing,
                }
            },
        }
    }

    /// Whose a resource is.
    pub fn resource_owner(
        &self,
        resource_type: ShareResourceType,
        resource_id: &str,
    ) -> (owner: Option<
        String,
    >)
        ensures
            opt_text(owner) == owner_in(self@.resources, resource_type, resource_id@),
    {
        let found = find_where(
            &self.resources,
            |row: &ResourceOwnerRow| -> (yes: bool)
                ensures yes == resource(resource_type, resource_id@)(row@)
                {
                    same(row.resource_type.as_str(), resource_type.as_str()) && same(
                        row.resource_id.as_str(),
                        resource_id,
                    )
                },
            Ghost(resource(resource_type, resource_id@)),
        );
        match found {
            Some(at) => Some(self.resources[at].user_id.clone()),
            None => None,
        }
    }

    /// A share.
    pub fn find_by_id(&self, share_id: &str) -> (row: Option<ResourceShareRow>)
        ensures
            found(row) == lookup(self@.shares, with_id(share_id@)),
    {
        fetch_where(
            &self.shares,
            |row: &ResourceShareRow| -> (yes: bool)
                ensures yes == with_id(share_id@)(row@)
                { same(row.id.as_str(), share_id) },
            Ghost(with_id(share_id@)),
        )
    }
}

// ----------------------------------------------------------------------------
// What sharing promises
// ----------------------------------------------------------------------------

/// What was granted is what the user may do; the user's other share, if there was
/// one, is the same share still.
pub proof fn law_grant_gives_access(store: ShareModel, grant: Grant, id: Seq<char>, now: i64)
    requires
        owner_in(store.resources, grant.resource_type, grant.resource_id) matches Some(owner)
            && owner != grant.grantee_user_id,
    ensures
        ({
            let shares = shares_after(store.shares, grant, id, now);
            let after = ShareModel { shares, ..store };
            &&& after.access(grant.resource_type, grant.resource_id, grant.grantee_user_id) == (
            match grant.permission {
                SharePermission::View => ResourceAccess::View,
                SharePermission::Edit => ResourceAccess::Edit,
            })
            &&& lookup(store.shares, grant.place()) matches Some(known) ==> (lookup(
                shares,
                grant.place(),
            ) matches Some(share) && share.id == known.id && share.created_at == known.created_at)
        }),
{
    reveal_strlit("view");
    reveal_strlit("edit");
    assert("view"@[0] != "edit"@[0]);
    law_put_is_found(store.shares, grant.place(), grant.renewed(), grant.made(id, now));
}

/// A resource that was never shared with a user is closed to them, unless they
/// own it.
pub proof fn law_private_by_default(
    store: ShareModel,
    kind: ShareResourceType,
    id: Seq<char>,
    user_id: Seq<char>,
)
    requires
        !exists_in(store.shares, share_of(kind, id, user_id)),
        owner_in(store.resources, kind, id) != Some(user_id),
    ensures
        store.access(kind, id, user_id) == ResourceAccess::Nothing,
{
    lemma_lookup(store.shares, share_of(kind, id, user_id));
}

/// Only an owner, or a user with a share that says so, edits a resource.
pub proof fn law_edit_is_granted(
    store: ShareModel,
    kind: ShareResourceType,
    id: Seq<char>,
    user_id: Seq<char>,
)
    requires
        store.access(kind, id, user_id).edits(),
    ensures
        owner_in(store.resources, kind, id) == Some(user_id) || exists|share: Share| #[trigger]
            store.shares.contains(share) && share_of(kind, id, user_id)(share) && share.permission
                == "edit"@,
{
    lemma_lookup(store.shares, share_of(kind, id, user_id));
    if owner_in(store.resources, kind, id) != Some(user_id) {
        let share = lookup(store.shares, share_of(kind, id, user_id))->0;
        assert(store.shares.contains(share));
    }
}

/// A share that was taken back gives nothing any more.
pub proof fn law_revoked_closes(
    store: ShareModel,
    share: Share,
    kind: ShareResourceType,
    id: Seq<char>,
    user_id: Seq<char>,
)
    requires
        share_of(kind, id, user_id)(share),
        forall|other: Share| #[trigger]
            store.shares.contains(other) && share_of(kind, id, user_id)(other) ==> other.id
                == share.id,
        owner_in(store.resources, kind, id) != Some(user_id),
    ensures
        ({
            let after = ShareModel { shares: removed(store.shares, with_id(share.id)), ..store };
            after.access(kind, id, user_id) == ResourceAccess::Nothing
        }),
{
    let left = removed(store.shares, with_id(share.id));
    law_removed(store.shares, with_id(share.id));
    lemma_lookup(left, share_of(kind, id, user_id));
    if lookup(left, share_of(kind, id, user_id)) is Some {
        let other = lookup(left, share_of(kind, id, user_id))->0;
        assert(left.contains(other));
        assert(store.shares.contains(other));
    }
}

/// A grant is never to the owner. It leaves one share of the resource for the
/// user: the one that was there, with its id and its age, or a new one; it says
/// what is allowed, who owns the resource and who granted it. Every other share
/// is as it was.
pub proof fn law_grant_is_on_record(
    shares: Seq<Share>,
    grant: Grant,
    id: Seq<char>,
    now: i64,
    verdict: Verdict<Seq<char>>,
)
    ensures
        grant_step(shares, grant, id, now, verdict) matches Ok((after, share)) ==> {
            &&& verdict is Accepted
            &&& grant.owner_user_id != grant.grantee_user_id
            &&& after.contains(share)
            &&& share.resource_id == grant.resource_id
            &&& share.owner_user_id == grant.owner_user_id
            &&& share.grantee_user_id == grant.grantee_user_id
            &&& share.created_by == grant.created_by
            &&& grant.permission == SharePermission::View ==> share.permission == "view"@
            &&& grant.permission == SharePermission::Edit ==> share.permission == "edit"@
            &&& grant.resource_type == ShareResourceType::Conversation ==> share.resource_type
                == "conversation"@
            &&& grant.resource_type == ShareResourceType::Project ==> share.resource_type
                == "project"@
            &&& grant.resource_type == ShareResourceType::Provider ==> share.resource_type
                == "provider"@
            &&& forall|i: int|
                0 <= i < shares.len() && !(shares[i].resource_type == share.resource_type
                    && shares[i].resource_id == grant.resource_id && shares[i].grantee_user_id
                    == grant.grantee_user_id) ==> #[trigger] after[i] == shares[i]
            &&& forall|i: int|
                0 <= i < shares.len() && shares[i].resource_type == share.resource_type
                    && shares[i].resource_id == grant.resource_id && shares[i].grantee_user_id
                    == grant.grantee_user_id ==> (#[trigger] after[i]).id == shares[i].id
                    && after[i].created_at == shares[i].created_at && after[i].permission
                    == share.permission && after.len() == shares.len()
            &&& (forall|i: int|
                0 <= i < shares.len() ==> !((#[trigger] shares[i]).resource_type
                    == share.resource_type && shares[i].resource_id == grant.resource_id
                    && shares[i].grantee_user_id == grant.grantee_user_id)) ==> after
                == shares.push(share) && share.id == id && share.created_at == now
        },
{
    let hit = grant.place();
    if let Ok((after, share)) = grant_step(shares, grant, id, now, verdict) {
        lemma_lookup(after, hit);
        let k = choose|k: int| 0 <= k < after.len() && after[k] == share;
        assert(hit(after[k]));
        if exists_in(shares, hit) {
            let i = choose|i: int| 0 <= i < shares.len() && hit(#[trigger] shares[i]);
            assert(hit(shares[k]));
        } else {
            if k < shares.len() {
                assert(!hit(shares[k]));
            }
        }
        assert forall|i: int| 0 <= i < shares.len() implies hit(#[trigger] shares[i]) == (
        shares[i].resource_type == share.resource_type && shares[i].resource_id
            == grant.resource_id && shares[i].grantee_user_id == grant.grantee_user_id) by {}
    }
}

/// Whether a share is of a resource, for a user.
pub open spec fn is_share_for(
    share: Share,
    kind: ShareResourceType,
    id: Seq<char>,
    user_id: Seq<char>,
) -> bool {
    &&& share.resource_id == id
    &&& share.grantee_user_id == user_id
    &&& share.resource_type == (match kind {
        ShareResourceType::Conversation => "conversation"@,
        ShareResourceType::Project => "project"@,
        ShareResourceType::Provider => "provider"@,
    })
}

/// What a user may do with a resource that is there: everything where they own it,
/// else what their share of it says, and nothing without one.
pub proof fn law_access_is_owned_or_shared(
    store: ShareModel,
    kind: ShareResourceType,
    id: Seq<char>,
    user_id: Seq<char>,
)
    requires
        forall|i: int, j: int|
            0 <= i < store.shares.len() && 0 <= j < store.shares.len() && is_share_for(
                #[trigger] store.shares[i],
                kind,
                id,
                user_id,
            ) && is_share_for(#[trigger] store.shares[j], kind, id, user_id) ==> i == j,
    ensures
        ({
            let access = store.access(kind, id, user_id);
            let owner = owner_in(store.resources, kind, id);
            &&& access == ResourceAccess::Owner <==> owner == Some(user_id)
            &&& owner is None ==> access == ResourceAccess::Nothing
            &&& owner is Some && owner != Some(user_id) ==> {
                &&& access == ResourceAccess::Edit <==> exists|i: int|
                    0 <= i < store.shares.len() && is_share_for(
                        #[trigger] store.shares[i],
                        kind,
                        id,
                        user_id,
                    ) && store.shares[i].permission == "edit"@
                &&& access == ResourceAccess::View <==> exists|i: int|
                    0 <= i < store.shares.len() && is_share_for(
                        #[trigger] store.shares[i],
                        kind,
                        id,
                        user_id,
                    ) && store.shares[i].permission == "view"@
            }
        }),
{
    reveal_strlit("view");
    reveal_strlit("edit");
    assert("view"@[0] != "edit"@[0]);
    let hit = share_of(kind, id, user_id);
    lemma_lookup(store.shares, hit);
    assert forall|i: int| 0 <= i < store.shares.len() implies hit(#[trigger] store.shares[i])
        == is_share_for(store.shares[i], kind, id, user_id) by {}
    if let Some(share) = lookup(store.shares, hit) {
        let k = choose|k: int| 0 <= k < store.shares.len() && store.shares[k] == share;
        assert(hit(store.shares[k]));
    }
}

/// The owner of a resource is whom its row names.
pub proof fn law_owner_is_on_record(resources: Seq<Owned>, kind: ShareResourceType, id: Seq<char>)
    ensures
        owner_in(resources, kind, id) matches Some(owner) ==> exists|i: int|
            0 <= i < resources.len() && (#[trigger] resources[i]).resource_id == id
                && resources[i].user_id == owner && resources[i].resource_type == (match kind {
                ShareResourceType::Conversation => "conversation"@,
                ShareResourceType::Project => "project"@,
                ShareResourceType::Provider => "provider"@,
            }),
        owner_in(resources, kind, id) is None ==> forall|i: int|
            0 <= i < resources.len() ==> !((#[trigger] resources[i]).resource_id == id
                && resources[i].resource_type == (match kind {
                ShareResourceType::Conversation => "conversation"@,
                ShareResourceType::Project => "project"@,
                ShareResourceType::Provider => "provider"@,
            })),
{
    let hit = resource(kind, id);
    lemma_lookup(resources, hit);
    if let Some(row) = lookup(resources, hit) {
        let i = choose|i: int| 0 <= i < resources.len() && resources[i] == row;
        assert(hit(resources[i]));
    } else {
        assert forall|i: int| 0 <= i < resources.len() implies !((
        #[trigger] resources[i]).resource_id == id && resources[i].resource_type == (match kind {
            ShareResourceType::Conversation => "conversation"@,
            ShareResourceType::Project => "project"@,
            ShareResourceType::Provider => "provider"@,
        })) by {
            assert(!hit(resources[i]));
        }
    }
}

/// Taking a share back takes that share and no other.
pub proof fn law_one_share_is_taken_back(shares: Seq<Share>, id: Seq<char>)
    ensures
        forall|share: Share| #[trigger]
            removed(shares, with_id(id)).contains(share) <==> shares.contains(share) && share.id
                != id,
{
    law_removed(shares, with_id(id));
}

/// The lists of shares hold exactly those of the resource, the oldest first, those
/// that the user granted and those that the user got, the latest first.
pub proof fn law_shares_are_listed(
    shares: Seq<Share>,
    kind: ShareResourceType,
    id: Seq<char>,
    user_id: Seq<char>,
)
    ensures
        ({
            let list = ordered(selected(shares, of_resource(kind, id)), oldest_first());
            &&& forall|row: Share| #[trigger]
                list.contains(row) <==> shares.contains(row) && row.resource_id == id
                    && row.resource_type == (match kind {
                    ShareResourceType::Conversation => "conversation"@,
                    ShareResourceType::Project => "project"@,
                    ShareResourceType::Provider => "provider"@,
                })
            &&& forall|i: int, j: int|
                0 <= i < j < list.len() ==> (#[trigger] list[i]).created_at <= (
                #[trigger] list[j]).created_at
        }),
        ({
            let list = ordered(selected(shares, granted_by(user_id)), latest_first());
            &&& forall|row: Share| #[trigger]
                list.contains(row) <==> shares.contains(row) && row.owner_user_id == user_id
            &&& forall|i: int, j: int|
                0 <= i < j < list.len() ==> (#[trigger] list[i]).created_at >= (
                #[trigger] list[j]).created_at
        }),
        ({
            let list = ordered(selected(shares, received_by(user_id)), latest_first());
            &&& forall|row: Share| #[trigger]
                list.contains(row) <==> shares.contains(row) && row.grantee_user_id == user_id
            &&& forall|i: int, j: int|
                0 <= i < j < list.len() ==> (#[trigger] list[i]).created_at >= (
                #[trigger] list[j]).created_at
        }),
{
    let up = oldest_first();
    let down = latest_first();
    lemma_orders_by(up, |a: Share| a.created_at as int, |a: Share| a.id, false);
    lemma_orders_by(down, |a: Share| -(a.created_at as int), |a: Share| a.id, true);
    law_full_listing(shares, of_resource(kind, id), up);
    law_full_listing(shares, granted_by(user_id), down);
    law_full_listing(shares, received_by(user_id), down);
    let here = ordered(selected(shares, of_resource(kind, id)), up);
    let given = ordered(selected(shares, granted_by(user_id)), down);
    let got = ordered(selected(shares, received_by(user_id)), down);
    assert forall|i: int, j: int| 0 <= i < j < here.len() implies (#[trigger] here[i]).created_at
        <= (#[trigger] here[j]).created_at by {
        assert(!up(here[j], here[i]));
    }
    assert forall|i: int, j: int| 0 <= i < j < given.len() implies (
    #[trigger] given[i]).created_at >= (#[trigger] given[j]).created_at by {
        assert(!down(given[j], given[i]));
    }
    assert forall|i: int, j: int| 0 <= i < j < got.len() implies (#[trigger] got[i]).created_at >= (
    #[trigger] got[j]).created_at by {
        assert(!down(got[j], got[i]));
    }
}

/// A grant that fails changes nothing, and one that does not gives the share that it
/// left and touches nothing but the shares.
pub proof fn law_failed_grant_changes_nothing(
    expected: Result<(Seq<Share>, Share), DbError<Seq<char>>>,
    result: Result<ResourceShareRow, DbError>,
    before: ShareModel,
    after: ShareModel,
)
    requires
        granted(expected, result, before, after),
    ensures
        result matches Err(error) ==> after == before && expected == Err::<
            (Seq<Share>, Share),
            DbError<Seq<char>>,
        >(error@),
        result matches Ok(row) ==> expected == Ok::<(Seq<Share>, Share), DbError<Seq<char>>>(
            (after.shares, row@),
        ) && after == (ShareModel { shares: after.shares, ..before }),
{
}

} // verus!

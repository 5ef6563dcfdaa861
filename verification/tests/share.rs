//! Sharing resources.
use aionui_db::error::DbError;
use aionui_db::share::{
    share_write_error, GrantShareParams, ResourceAccess, ResourceOwnerRow, ResourceShareRow,
    SharePermission, ShareResourceType, ShareStore,
};
use aionui_db::write::Verdict;

struct Repo {
    store: ShareStore,
    serial: i64,
}

fn setup() -> (Repo, String, String) {
    let owned = |kind: &str, id: &str| ResourceOwnerRow {
        resource_type: kind.into(),
        resource_id: id.into(),
        user_id: "user_owner".into(),
    };
    let store = ShareStore {
        shares: Vec::new(),
        resources: vec![
            owned("conversation", "conv_1"),
            owned("provider", "prov_1"),
            owned("project", "proj_1"),
        ],
    };
    (Repo { store, serial: 0 }, "user_owner".into(), "user_grantee".into())
}

impl Repo {
    fn grant(&mut self, params: GrantShareParams<'_>) -> Result<ResourceShareRow, DbError> {
        self.serial += 1;
        let id = format!("share_{}", self.serial);
        self.store.grant(&params, &id, 100 + self.serial, &Verdict::Accepted)
    }
}

fn params<'a>(
    kind: ShareResourceType,
    id: &'a str,
    owner: &'a str,
    grantee: &'a str,
    permission: SharePermission,
) -> GrantShareParams<'a> {
    GrantShareParams {
        resource_type: kind,
        resource_id: id,
        owner_user_id: owner,
        grantee_user_id: grantee,
        permission,
        created_by: owner,
    }
}

#[test]
fn grant_and_resolve_access() {
    let (mut repo, owner_id, grantee_id) = setup();

    assert_eq!(
        repo.store.resolve_access(ShareResourceType::Conversation, "conv_1", &owner_id),
        ResourceAccess::Owner
    );
    assert_eq!(
        repo.store.resolve_access(ShareResourceType::Conversation, "conv_1", &grantee_id),
        ResourceAccess::Nothing
    );

    let share = repo
        .grant(params(
            ShareResourceType::Conversation,
            "conv_1",
            &owner_id,
            &grantee_id,
            SharePermission::View,
        ))
        .unwrap();

    assert_eq!(share.permission, "view");
    assert_eq!(
        repo.store.resolve_access(ShareResourceType::Conversation, "conv_1", &grantee_id),
        ResourceAccess::View
    );
    assert!(!repo
        .store
        .resolve_access(ShareResourceType::Conversation, "conv_1", &grantee_id)
        .allows_edit());
}

#[test]
fn grant_upserts_permission() {
    let (mut repo, owner_id, grantee_id) = setup();

    let first = repo
        .grant(params(
            ShareResourceType::Provider,
            "prov_1",
            &owner_id,
            &grantee_id,
            SharePermission::View,
        ))
        .unwrap();

    let upgraded = repo
        .grant(params(
            ShareResourceType::Provider,
            "prov_1",
            &owner_id,
            &grantee_id,
            SharePermission::Edit,
        ))
        .unwrap();

    assert_eq!(upgraded.permission, "edit");
    assert_eq!(upgraded.id, first.id);
    assert_eq!(upgraded.created_at, first.created_at);
    assert_eq!(repo.store.list_for_resource(ShareResourceType::Provider, "prov_1").len(), 1);
    assert_eq!(
        repo.store.resolve_access(ShareResourceType::Provider, "prov_1", &grantee_id),
        ResourceAccess::Edit
    );
}

#[test]
fn revoke_removes_access() {
    let (mut repo, owner_id, grantee_id) = setup();
    let share = repo
        .grant(params(
            ShareResourceType::Project,
            "proj_1",
            &owner_id,
            &grantee_id,
            SharePermission::Edit,
        ))
        .unwrap();

    repo.store.revoke(&share.id).unwrap();
    assert_eq!(
        repo.store.resolve_access(ShareResourceType::Project, "proj_1", &grantee_id),
        ResourceAccess::Nothing
    );
    assert_eq!(
        repo.store.revoke(&share.id).unwrap_err(),
        DbError::NotFound("Share 'share_1' not found".into())
    );
}

#[test]
fn cannot_share_with_self() {
    let (mut repo, owner_id, _) = setup();
    let err = repo
        .grant(params(
            ShareResourceType::Conversation,
            "conv_1",
            &owner_id,
            &owner_id,
            SharePermission::View,
        ))
        .unwrap_err();
    assert!(matches!(err, DbError::Conflict(_)));
    assert!(repo.store.shares.is_empty());
}

#[test]
fn list_granted_and_received() {
    let (mut repo, owner_id, grantee_id) = setup();
    repo.grant(params(
        ShareResourceType::Conversation,
        "conv_1",
        &owner_id,
        &grantee_id,
        SharePermission::View,
    ))
    .unwrap();

    assert_eq!(repo.store.list_granted_by(&owner_id).len(), 1);
    assert!(repo.store.list_granted_by(&grantee_id).is_empty());
    assert_eq!(repo.store.list_received_by(&grantee_id).len(), 1);
    assert!(repo.store.list_received_by(&owner_id).is_empty());
}

#[test]
fn missing_resource_resolves_none() {
    let (repo, owner_id, _) = setup();
    assert_eq!(
        repo.store.resolve_access(ShareResourceType::Conversation, "missing", &owner_id),
        ResourceAccess::Nothing
    );
}

#[test]
fn a_share_that_is_turned_down_changes_nothing() {
    let (mut repo, owner_id, grantee_id) = setup();
    let wanted = params(
        ShareResourceType::Conversation,
        "conv_1",
        &owner_id,
        &grantee_id,
        SharePermission::View,
    );
    for (code, expected) in [
        (Some("2067"), DbError::Conflict("Share already exists".into())),
        (Some("1555"), DbError::Conflict("Share already exists".into())),
        (Some("787"), DbError::NotFound("Referenced user or resource is missing".into())),
        (Some("275"), DbError::Conflict("said the engine".into())),
        (Some("5"), DbError::Query("said the engine".into())),
        (None, DbError::Query("said the engine".into())),
    ] {
        let code = code.map(str::to_owned);
        assert_eq!(share_write_error(&code, "said the engine"), expected);
        let verdict = Verdict::Refused { code, message: "said the engine".into() };
        assert_eq!(repo.store.grant(&wanted, "share_x", 5, &verdict), Err(expected));
        assert!(repo.store.shares.is_empty());
    }
}

#[test]
fn shares_are_listed_in_their_order() {
    let (mut repo, owner_id, _) = setup();
    for grantee in ["a", "b", "c"] {
        repo.grant(params(
            ShareResourceType::Conversation,
            "conv_1",
            &owner_id,
            grantee,
            SharePermission::View,
        ))
        .unwrap();
    }
    let of_resource: Vec<String> = repo
        .store
        .list_for_resource(ShareResourceType::Conversation, "conv_1")
        .into_iter()
        .map(|row| row.grantee_user_id)
        .collect();
    assert_eq!(of_resource, ["a", "b", "c"]);
    let granted: Vec<String> =
        repo.store.list_granted_by(&owner_id).into_iter().map(|row| row.grantee_user_id).collect();
    assert_eq!(granted, ["c", "b", "a"]);
    assert_eq!(repo.store.find_by_id("share_2").unwrap().grantee_user_id, "b");
    assert_eq!(repo.store.find_by_id("share_9"), None);
}

#[test]
fn a_permission_of_an_unknown_text_gives_nothing() {
    let (mut repo, owner_id, grantee_id) = setup();
    repo.grant(params(
        ShareResourceType::Conversation,
        "conv_1",
        &owner_id,
        &grantee_id,
        SharePermission::Edit,
    ))
    .unwrap();
    repo.store.shares[0].permission = "admin".into();
    assert_eq!(
        repo.store.get_permission(ShareResourceType::Conversation, "conv_1", &grantee_id),
        None
    );
    assert_eq!(SharePermission::parse("edit"), Some(SharePermission::Edit));
    assert_eq!(SharePermission::parse("view"), Some(SharePermission::View));
    assert_eq!(SharePermission::parse("owner"), None);
}

#[test]
fn the_owner_of_a_resource_is_looked_up_by_kind_and_id() {
    let (repo, owner_id, _) = setup();
    assert_eq!(
        repo.store.resource_owner(ShareResourceType::Conversation, "conv_1"),
        Some(owner_id),
    );
    assert_eq!(repo.store.resource_owner(ShareResourceType::Project, "conv_1"), None);
}

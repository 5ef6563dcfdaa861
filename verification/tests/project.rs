//! Projects, what is known of them and what belongs to them.
use aionui_db::error::DbError;
use aionui_db::project::rows::{
    InConversationRow, OwnedThingRow, ProjectCommandProfileRow, ProjectKnowledgeContextRow,
    ProjectKnowledgeFactRow, ProjectKnowledgeIndexRow, ProjectRepositoryFactsRow, ProjectRow,
    ProjectRuntimeProfileRow, UpdateProjectParams,
};
use aionui_db::project::store::{project_write_error, ProjectStore};
use aionui_db::write::Verdict;

fn project(id: &str, user: &str, updated_at: i64) -> ProjectRow {
    ProjectRow {
        id: id.into(),
        user_id: user.into(),
        name: format!("name of {id}"),
        local_path: format!("/path/{id}"),
        repository_url: Some("https://example.com/repo".into()),
        default_branch: None,
        project_type: "rust".into(),
        created_at: 1,
        updated_at,
    }
}

fn owned(id: &str, user: &str) -> OwnedThingRow {
    OwnedThingRow { id: id.into(), user_id: user.into() }
}

fn inside(id: &str, conversation: &str) -> InConversationRow {
    InConversationRow { id: id.into(), conversation_id: conversation.into() }
}

fn setup() -> ProjectStore {
    let mut store = ProjectStore {
        projects: Vec::new(),
        commands: Vec::new(),
        runtimes: Vec::new(),
        repositories: Vec::new(),
        indexes: Vec::new(),
        knowledge: Vec::new(),
        contexts: Vec::new(),
        links: Vec::new(),
        conversations: vec![owned("conv-1", "user-1"), owned("conv-2", "user-2")],
        teams: vec![owned("team-1", "user-1")],
        cron_jobs: vec![inside("cron-1", "conv-1"), inside("cron-2", "conv-2")],
        channel_sessions: vec![inside("session-2", "conv-2")],
    };
    for row in [project("p1", "user-1", 5), project("p2", "user-1", 9), project("p3", "user-2", 7)] {
        store.create(&row, &Verdict::Accepted).unwrap();
    }
    store
}

fn index(project_id: &str, generation: i64) -> ProjectKnowledgeIndexRow {
    ProjectKnowledgeIndexRow {
        project_id: project_id.into(),
        provider: "local".into(),
        provider_project_name: "name".into(),
        provider_version: None,
        status: "ready".into(),
        generation,
        source_commit: None,
        indexed_at: Some(generation),
        changed_paths_json: "[]".into(),
        error_category: None,
        updated_at: generation,
    }
}

fn fact(id: &str, project_id: &str, generation: i64, kind: &str, name: &str) -> ProjectKnowledgeFactRow {
    ProjectKnowledgeFactRow {
        id: id.into(),
        project_id: project_id.into(),
        generation,
        kind: kind.into(),
        name: name.into(),
        qualified_name: None,
        source_path: "src/lib.rs".into(),
        source_line: 1,
        indexed_at: generation,
    }
}

#[test]
fn an_update_changes_what_it_gives_and_nothing_else() {
    let mut store = setup();
    let params = UpdateProjectParams {
        name: Some("renamed".into()),
        repository_url: Some(None),
        default_branch: Some(Some("main".into())),
        ..Default::default()
    };
    let row = store.update_for_user("p1", "user-1", &params, 20, &Verdict::Accepted).unwrap();
    assert_eq!(row.name, "renamed");
    assert_eq!(row.local_path, "/path/p1");
    assert_eq!(row.repository_url, None);
    assert_eq!(row.default_branch.as_deref(), Some("main"));
    assert_eq!(row.project_type, "rust");
    assert_eq!(row.created_at, 1);
    assert_eq!(row.updated_at, 20);
    assert_eq!(store.get_for_user("p1", "user-1"), Some(row));
    assert_eq!(store.get_for_user("p2", "user-1"), Some(project("p2", "user-1", 9)));
}

#[test]
fn other_users_find_no_project() {
    let mut store = setup();
    assert_eq!(store.get_for_user("p1", "user-2"), None);
    assert_eq!(
        store.update_for_user("p1", "user-2", &UpdateProjectParams::default(), 20, &Verdict::Accepted),
        Err(DbError::NotFound("project p1".into())),
    );
    assert!(!store.delete_for_user("p1", "user-2"));
    assert!(store.delete_for_user("p1", "user-1"));
    assert!(!store.delete_for_user("p1", "user-1"));
    let ids: Vec<String> = store.list_for_user("user-1").into_iter().map(|row| row.id).collect();
    assert_eq!(ids, ["p2"]);
}

#[test]
fn projects_changed_last_come_first() {
    let store = setup();
    let ids: Vec<String> = store.list_for_user("user-1").into_iter().map(|row| row.id).collect();
    assert_eq!(ids, ["p2", "p1"]);
}

#[test]
fn a_taken_path_is_a_conflict_that_names_it() {
    let mut store = setup();
    let before = store.clone();
    let verdict = Verdict::Refused { code: Some("2067".into()), message: "no".into() };
    assert_eq!(
        store.create(&project("p4", "user-1", 1), &verdict),
        Err(DbError::Conflict("project path already registered: /path/p4".into())),
    );
    let params = UpdateProjectParams { local_path: Some("/taken".into()), ..Default::default() };
    assert_eq!(
        store.update_for_user("p1", "user-1", &params, 20, &verdict),
        Err(DbError::Conflict("project path already registered: /taken".into())),
    );
    assert_eq!(store, before);
    assert_eq!(project_write_error(&None, "no", "/x"), DbError::Query("no".into()));
}

#[test]
fn profiles_are_written_anew_and_read_by_their_user() {
    let mut store = setup();
    let commands = |build: &str| ProjectCommandProfileRow {
        project_id: "p1".into(),
        install_command: None,
        format_command: None,
        lint_command: None,
        typecheck_command: None,
        unit_test_command: None,
        integration_test_command: None,
        e2e_command: None,
        build_command: Some(build.into()),
        security_scan_command: None,
        command_timeout_seconds: 60,
        updated_at: 1,
    };
    store.upsert_command_profile(&commands("make"));
    store.upsert_command_profile(&commands("cargo build"));
    assert_eq!(store.commands.len(), 1);
    assert_eq!(store.get_command_profile("p1", "user-1"), Some(commands("cargo build")));
    assert_eq!(store.get_command_profile("p1", "user-2"), None);

    let runtime = ProjectRuntimeProfileRow {
        project_id: "p1".into(),
        environment_kind: "native".into(),
        language: Some("rust".into()),
        package_manager: None,
        runtime_version: None,
        env_keys: "[]".into(),
        metadata: "{}".into(),
        updated_at: 2,
    };
    store.upsert_runtime_profile(&runtime);
    assert_eq!(store.get_runtime_profile("p1", "user-1"), Some(runtime));
    assert_eq!(store.get_runtime_profile("p2", "user-1"), None);

    let facts = ProjectRepositoryFactsRow {
        project_id: "p1".into(),
        repository_url: None,
        default_branch: Some("main".into()),
        baseline_commit: None,
        repository_dirty: true,
        dirty_worktree_choice: None,
        dirty_snapshot_ref: None,
        credential_reference: None,
        detected_languages_json: "[]".into(),
        detected_package_managers_json: "[]".into(),
        detected_rules_files_json: "[]".into(),
        monorepo_packages_json: "[]".into(),
        submodules_json: "[]".into(),
        lfs_detected: false,
        detected_at: 3,
    };
    store.upsert_repository_facts(&facts);
    assert_eq!(store.get_repository_facts("p1", "user-1"), Some(facts));
    assert_eq!(store.get_repository_facts("p1", "user-2"), None);
}

#[test]
fn a_committed_generation_replaces_the_one_before() {
    let mut store = setup();
    store.commit_knowledge_generation(&index("p3", 1), &vec![fact("x", "p3", 1, "fn", "x")]).unwrap();
    let first = vec![fact("a", "p1", 1, "struct", "b"), fact("b", "p1", 1, "fn", "z")];
    store.commit_knowledge_generation(&index("p1", 1), &first).unwrap();
    let names = |store: &ProjectStore, user: &str| {
        store.list_knowledge_facts("p1", user).into_iter().map(|row| row.name).collect::<Vec<_>>()
    };
    assert_eq!(names(&store, "user-1"), ["z", "b"]);
    assert!(names(&store, "user-2").is_empty());

    let second = vec![fact("a", "p1", 2, "fn", "new")];
    store.commit_knowledge_generation(&index("p1", 2), &second).unwrap();
    assert_eq!(names(&store, "user-1"), ["new"]);
    assert_eq!(store.get_knowledge_index("p1", "user-1").unwrap().generation, 2);
    assert_eq!(store.list_knowledge_facts("p3", "user-2").len(), 1);
}

#[test]
fn facts_of_another_generation_are_not_listed() {
    let mut store = setup();
    store.commit_knowledge_generation(&index("p1", 1), &vec![fact("a", "p1", 1, "fn", "a")]).unwrap();
    store.upsert_knowledge_index(&index("p1", 2));
    assert!(store.list_knowledge_facts("p1", "user-1").is_empty());
    assert_eq!(store.indexes.len(), 1);
}

#[test]
fn a_generation_is_committed_whole_or_not_at_all() {
    let mut store = setup();
    store.commit_knowledge_generation(&index("p3", 1), &vec![fact("x", "p3", 1, "fn", "x")]).unwrap();
    store.commit_knowledge_generation(&index("p1", 1), &vec![fact("a", "p1", 1, "fn", "a")]).unwrap();
    let before = store.clone();
    for facts in [
        vec![fact("n", "p1", 2, "fn", "n"), fact("n", "p1", 2, "fn", "m")],
        vec![fact("n", "p1", 2, "fn", "n"), fact("x", "p1", 2, "fn", "m")],
    ] {
        assert_eq!(
            store.commit_knowledge_generation(&index("p1", 2), &facts),
            Err(DbError::Query("UNIQUE constraint failed: project_knowledge_facts.id".into())),
        );
        assert_eq!(store, before);
    }
}

#[test]
fn an_answer_is_read_by_the_user_of_its_project() {
    let mut store = setup();
    let context = ProjectKnowledgeContextRow {
        id: "ctx".into(),
        project_id: "p1".into(),
        provider_project_name: "name".into(),
        generation: 1,
        query: "who calls".into(),
        symbols_json: "[]".into(),
        callers_json: "[]".into(),
        tests_json: "[]".into(),
        routes_json: "[]".into(),
        data_entities_json: "[]".into(),
        created_at: 1,
    };
    store.insert_knowledge_context(&context).unwrap();
    assert_eq!(store.get_knowledge_context("ctx", "user-1"), Some(context.clone()));
    assert_eq!(store.get_knowledge_context("ctx", "user-2"), None);
    assert_eq!(
        store.insert_knowledge_context(&context),
        Err(DbError::Query("UNIQUE constraint failed: project_knowledge_contexts.id".into())),
    );
}

#[test]
fn a_resource_belongs_to_one_project_of_a_user() {
    let mut store = setup();
    store.bind_resource("p1", "user-1", "conversation", "conv-1", 10).unwrap();
    store.bind_resource("p1", "user-1", "team", "team-1", 11).unwrap();
    assert_eq!(store.get_for_resource("user-1", "conversation", "conv-1").unwrap().id, "p1");
    let moved = store.bind_resource("p2", "user-1", "conversation", "conv-1", 12).unwrap();
    assert_eq!(moved.created_at, 12);
    assert_eq!(store.get_for_resource("user-1", "conversation", "conv-1").unwrap().id, "p2");
    assert_eq!(store.links.len(), 2);
    let ids: Vec<String> =
        store.list_resource_links("p1", "user-1").into_iter().map(|row| row.resource_id).collect();
    assert_eq!(ids, ["team-1"]);
    assert!(store.list_resource_links("p1", "user-2").is_empty());
    assert_eq!(
        store.bind_resource("p3", "user-1", "team", "team-1", 13),
        Err(DbError::NotFound("project p3".into())),
    );
}

#[test]
fn links_made_last_come_first() {
    let mut store = setup();
    for (at, id) in [(10, "b"), (12, "c"), (10, "a")] {
        store.bind_resource("p1", "user-1", "team", id, at).unwrap();
    }
    let ids: Vec<String> =
        store.list_resource_links("p1", "user-1").into_iter().map(|row| row.resource_id).collect();
    assert_eq!(ids, ["c", "a", "b"]);
}

#[test]
fn resources_are_owned_directly_or_through_a_conversation() {
    let store = setup();
    assert!(store.resource_is_owned("user-1", "conversation", "conv-1"));
    assert!(!store.resource_is_owned("user-2", "conversation", "conv-1"));
    assert!(store.resource_is_owned("user-1", "team", "team-1"));
    assert!(store.resource_is_owned("user-1", "cron", "cron-1"));
    assert!(!store.resource_is_owned("user-1", "cron", "cron-2"));
    assert!(store.resource_is_owned("user-2", "channel", "session-2"));
    assert!(!store.resource_is_owned("user-1", "channel", "session-2"));
    assert!(!store.resource_is_owned("user-1", "folder", "conv-1"));
}

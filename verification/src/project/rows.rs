//! The rows of the project tables.
use crate::table::Record;
use crate::text::{copy_opt, opt_text};
use vstd::prelude::*;

verus! {

/// A project of a user.
#[derive(Debug, Clone, PartialEq, Eq)]
pub struct ProjectRow<T = String> {
    pub id: T,
    pub user_id: T,
    pub name: T,
    pub local_path: T,
    pub repository_url: Option<T>,
    pub default_branch: Option<T>,
    pub project_type: T,
    pub created_at: i64,
    pub updated_at: i64,
}

impl View for ProjectRow<String> {
    type V = ProjectRow<Seq<char>>;

    open spec fn view(&self) -> ProjectRow<Seq<char>> {
        ProjectRow {
            id: self.id@,
            user_id: self.user_id@,
            name: self.name@,
            local_path: self.local_path@,
            repository_url: opt_text(self.repository_url),
            default_branch: opt_text(self.default_branch),
            project_type: self.project_type@,
            created_at: self.created_at,
            updated_at: self.updated_at,
        }
    }
}

impl Record for ProjectRow<String> {
    fn duplicate(&self) -> (copy: Self) {
        ProjectRow {
            id: self.id.clone(),
            user_id: self.user_id.clone(),
            name: self.name.clone(),
            local_path: self.local_path.clone(),
            repository_url: copy_opt(&self.repository_url),
            default_branch: copy_opt(&self.default_branch),
            project_type: self.project_type.clone(),
            created_at: self.created_at,
            updated_at: self.updated_at,
        }
    }
}

/// The model of a project.
pub type Project = ProjectRow<Seq<char>>;

/// The commands that work on a project.
#[derive(Debug, Clone, PartialEq, Eq)]
pub struct ProjectCommandProfileRow<T = String> {
    pub project_id: T,
    pub install_command: Option<T>,
    pub format_command: Option<T>,
    pub lint_command: Option<T>,
    pub typecheck_command: Option<T>,
    pub unit_test_command: Option<T>,
    pub integration_test_command: Option<T>,
    pub e2e_command: Option<T>,
    pub build_command: Option<T>,
    pub security_scan_command: Option<T>,
    pub command_timeout_seconds: i64,
    pub updated_at: i64,
}

impl View for ProjectCommandProfileRow<String> {
    type V = ProjectCommandProfileRow<Seq<char>>;

    open spec fn view(&self) -> ProjectCommandProfileRow<Seq<char>> {
        ProjectCommandProfileRow {
            project_id: self.project_id@,
            install_command: opt_text(self.install_command),
            format_command: opt_text(self.format_command),
            lint_command: opt_text(self.lint_command),
            typecheck_command: opt_text(self.typecheck_command),
            unit_test_command: opt_text(self.unit_test_command),
            integration_test_command: opt_text(self.integration_test_command),
            e2e_command: opt_text(self.e2e_command),
            build_command: opt_text(self.build_command),
            security_scan_command: opt_text(self.security_scan_command),
            command_timeout_seconds: self.command_timeout_seconds,
            updated_at: self.updated_at,
        }
    }
}

impl Record for ProjectCommandProfileRow<String> {
    fn duplicate(&self) -> (copy: Self) {
        ProjectCommandProfileRow {
            project_id: self.project_id.clone(),
            install_command: copy_opt(&self.install_command),
            format_command: copy_opt(&self.format_command),
            lint_command: copy_opt(&self.lint_command),
            typecheck_command: copy_opt(&self.typecheck_command),
            unit_test_command: copy_opt(&self.unit_test_command),
            integration_test_command: copy_opt(&self.integration_test_command),
            e2e_command: copy_opt(&self.e2e_command),
            build_command: copy_opt(&self.build_command),
            security_scan_command: copy_opt(&self.security_scan_command),
            command_timeout_seconds: self.command_timeout_seconds,
            updated_at: self.updated_at,
        }
    }
}

/// The model of the commands of a project.
pub type CommandProfile = ProjectCommandProfileRow<Seq<char>>;

/// What a project runs on.
#[derive(Debug, Clone, PartialEq, Eq)]
pub struct ProjectRuntimeProfileRow<T = String> {
    pub project_id: T,
    pub environment_kind: T,
    pub language: Option<T>,
    pub package_manager: Option<T>,
    pub runtime_version: Option<T>,
    pub env_keys: T,
    pub metadata: T,
    pub updated_at: i64,
}

impl View for ProjectRuntimeProfileRow<String> {
    type V = ProjectRuntimeProfileRow<Seq<char>>;

    open spec fn view(&self) -> ProjectRuntimeProfileRow<Seq<char>> {
        ProjectRuntimeProfileRow {
            project_id: self.project_id@,
            environment_kind: self.environment_kind@,
            language: opt_text(self.language),
            package_manager: opt_text(self.package_manager),
            runtime_version: opt_text(self.runtime_version),
            env_keys: self.env_keys@,
            metadata: self.metadata@,
            updated_at: self.updated_at,
        }
    }
}

impl Record for ProjectRuntimeProfileRow<String> {
    fn duplicate(&self) -> (copy: Self) {
        ProjectRuntimeProfileRow {
            project_id: self.project_id.clone(),
            environment_kind: self.environment_kind.clone(),
            language: copy_opt(&self.language),
            package_manager: copy_opt(&self.package_manager),
            runtime_version: copy_opt(&self.runtime_version),
            env_keys: self.env_keys.clone(),
            metadata: self.metadata.clone(),
            updated_at: self.updated_at,
        }
    }
}

/// The model of what a project runs on.
pub type RuntimeProfile = ProjectRuntimeProfileRow<Seq<char>>;

/// What is known of the repository of a project.
#[derive(Debug, Clone, PartialEq, Eq)]
pub struct ProjectRepositoryFactsRow<T = String> {
    pub project_id: T,
    pub repository_url: Option<T>,
    pub default_branch: Option<T>,
    pub baseline_commit: Option<T>,
    pub repository_dirty: bool,
    pub dirty_worktree_choice: Option<T>,
    pub dirty_snapshot_ref: Option<T>,
    pub credential_reference: Option<T>,
    pub detected_languages_json: T,
    pub detected_package_managers_json: T,
    pub detected_rules_files_json: T,
    pub monorepo_packages_json: T,
    pub submodules_json: T,
    pub lfs_detected: bool,
    pub detected_at: i64,
}

impl View for ProjectRepositoryFactsRow<String> {
    type V = ProjectRepositoryFactsRow<Seq<char>>;

    open spec fn view(&self) -> ProjectRepositoryFactsRow<Seq<char>> {
        ProjectRepositoryFactsRow {
            project_id: self.project_id@,
            repository_url: opt_text(self.repository_url),
            default_branch: opt_text(self.default_branch),
            baseline_commit: opt_text(self.baseline_commit),
            repository_dirty: self.repository_dirty,
            dirty_worktree_choice: opt_text(self.dirty_worktree_choice),
            dirty_snapshot_ref: opt_text(self.dirty_snapshot_ref),
            credential_reference: opt_text(self.credential_reference),
            detected_languages_json: self.detected_languages_json@,
            detected_package_managers_json: self.detected_package_managers_json@,
            detected_rules_files_json: self.detected_rules_files_json@,
            monorepo_packages_json: self.monorepo_packages_json@,
            submodules_json: self.submodules_json@,
            lfs_detected: self.lfs_detected,
            detected_at: self.detected_at,
        }
    }
}

impl Record for ProjectRepositoryFactsRow<String> {
    fn duplicate(&self) -> (copy: Self) {
        ProjectRepositoryFactsRow {
            project_id: self.project_id.clone(),
            repository_url: copy_opt(&self.repository_url),
            default_branch: copy_opt(&self.default_branch),
            baseline_commit: copy_opt(&self.baseline_commit),
            repository_dirty: self.repository_dirty,
            dirty_worktree_choice: copy_opt(&self.dirty_worktree_choice),
            dirty_snapshot_ref: copy_opt(&self.dirty_snapshot_ref),
            credential_reference: copy_opt(&self.credential_reference),
            detected_languages_json: self.detected_languages_json.clone(),
            detected_package_managers_json: self.detected_package_managers_json.clone(),
            detected_rules_files_json: self.detected_rules_files_json.clone(),
            monorepo_packages_json: self.monorepo_packages_json.clone(),
            submodules_json: self.submodules_json.clone(),
            lfs_detected: self.lfs_detected,
            detected_at: self.detected_at,
        }
    }
}

/// The model of the facts of a repository.
pub type RepositoryFacts = ProjectRepositoryFactsRow<Seq<char>>;

/// How far the code of a project is indexed.
#[derive(Debug, Clone, PartialEq, Eq)]
pub struct ProjectKnowledgeIndexRow<T = String> {
    pub project_id: T,
    pub provider: T,
    pub provider_project_name: T,
    pub provider_version: Option<T>,
    pub status: T,
    pub generation: i64,
    pub source_commit: Option<T>,
    pub indexed_at: Option<i64>,
    pub changed_paths_json: T,
    pub error_category: Option<T>,
    pub updated_at: i64,
}

impl View for ProjectKnowledgeIndexRow<String> {
    type V = ProjectKnowledgeIndexRow<Seq<char>>;

    open spec fn view(&self) -> ProjectKnowledgeIndexRow<Seq<char>> {
        ProjectKnowledgeIndexRow {
            project_id: self.project_id@,
            provider: self.provider@,
            provider_project_name: self.provider_project_name@,
            provider_version: opt_text(self.provider_version),
            status: self.status@,
            generation: self.generation,
            source_commit: opt_text(self.source_commit),
            indexed_at: self.indexed_at,
            changed_paths_json: self.changed_paths_json@,
            error_category: opt_text(self.error_category),
            updated_at: self.updated_at,
        }
    }
}

impl Record for ProjectKnowledgeIndexRow<String> {
    fn duplicate(&self) -> (copy: Self) {
        ProjectKnowledgeIndexRow {
            project_id: self.project_id.clone(),
            provider: self.provider.clone(),
            provider_project_name: self.provider_project_name.clone(),
            provider_version: copy_opt(&self.provider_version),
            status: self.status.clone(),
            generation: self.generation,
            source_commit: copy_opt(&self.source_commit),
            indexed_at: self.indexed_at,
            changed_paths_json: self.changed_paths_json.clone(),
            error_category: copy_opt(&self.error_category),
            updated_at: self.updated_at,
        }
    }
}

/// The model of an index.
pub type KnowledgeIndex = ProjectKnowledgeIndexRow<Seq<char>>;

/// A thing that an index found in the code.
#[derive(Debug, Clone, PartialEq, Eq)]
pub struct ProjectKnowledgeFactRow<T = String> {
    pub id: T,
    pub project_id: T,
    pub generation: i64,
    pub kind: T,
    pub name: T,
    pub qualified_name: Option<T>,
    pub source_path: T,
    pub source_line: i64,
    pub indexed_at: i64,
}

impl View for ProjectKnowledgeFactRow<String> {
    type V = ProjectKnowledgeFactRow<Seq<char>>;

    open spec fn view(&self) -> ProjectKnowledgeFactRow<Seq<char>> {
        ProjectKnowledgeFactRow {
            id: self.id@,
            project_id: self.project_id@,
            generation: self.generation,
            kind: self.kind@,
            name: self.name@,
            qualified_name: opt_text(self.qualified_name),
            source_path: self.source_path@,
            source_line: self.source_line,
            indexed_at: self.indexed_at,
        }
    }
}

impl Record for ProjectKnowledgeFactRow<String> {
    fn duplicate(&self) -> (copy: Self) {
        ProjectKnowledgeFactRow {
            id: self.id.clone(),
            project_id: self.project_id.clone(),
            generation: self.generation,
            kind: self.kind.clone(),
            name: self.name.clone(),
            qualified_name: copy_opt(&self.qualified_name),
            source_path: self.source_path.clone(),
            source_line: self.source_line,
            indexed_at: self.indexed_at,
        }
    }
}

/// The model of a fact.
pub type KnowledgeFact = ProjectKnowledgeFactRow<Seq<char>>;

/// What an index answered to a question.
#[derive(Debug, Clone, PartialEq, Eq)]
pub struct ProjectKnowledgeContextRow<T = String> {
    pub id: T,
    pub project_id: T,
    pub provider_project_name: T,
    pub generation: i64,
    pub query: T,
    pub symbols_json: T,
    pub callers_json: T,
    pub tests_json: T,
    pub routes_json: T,
    pub data_entities_json: T,
    pub created_at: i64,
}

impl View for ProjectKnowledgeContextRow<String> {
    type V = ProjectKnowledgeContextRow<Seq<char>>;

    open spec fn view(&self) -> ProjectKnowledgeContextRow<Seq<char>> {
        ProjectKnowledgeContextRow {
            id: self.id@,
            project_id: self.project_id@,
            provider_project_name: self.provider_project_name@,
            generation: self.generation,
            query: self.query@,
            symbols_json: self.symbols_json@,
            callers_json: self.callers_json@,
            tests_json: self.tests_json@,
            routes_json: self.routes_json@,
            data_entities_json: self.data_entities_json@,
            created_at: self.created_at,
        }
    }
}

impl Record for ProjectKnowledgeContextRow<String> {
    fn duplicate(&self) -> (copy: Self) {
        ProjectKnowledgeContextRow {
            id: self.id.clone(),
            project_id: self.project_id.clone(),
            provider_project_name: self.provider_project_name.clone(),
            generation: self.generation,
            query: self.query.clone(),
            symbols_json: self.symbols_json.clone(),
            callers_json: self.callers_json.clone(),
            tests_json: self.tests_json.clone(),
            routes_json: self.routes_json.clone(),
            data_entities_json: self.data_entities_json.clone(),
            created_at: self.created_at,
        }
    }
}

/// The model of an answer.
pub type KnowledgeContext = ProjectKnowledgeContextRow<Seq<char>>;

/// A resource of a user that belongs to a project.
#[derive(Debug, Clone, PartialEq, Eq)]
pub struct ProjectResourceLinkRow<T = String> {
    pub project_id: T,
    pub user_id: T,
    pub resource_type: T,
    pub resource_id: T,
    pub created_at: i64,
}

impl View for ProjectResourceLinkRow<String> {
    type V = ProjectResourceLinkRow<Seq<char>>;

    open spec fn view(&self) -> ProjectResourceLinkRow<Seq<char>> {
        ProjectResourceLinkRow {
            project_id: self.project_id@,
            user_id: self.user_id@,
            resource_type: self.resource_type@,
            resource_id: self.resource_id@,
            created_at: self.created_at,
        }
    }
}

impl Record for ProjectResourceLinkRow<String> {
    fn duplicate(&self) -> (copy: Self) {
        ProjectResourceLinkRow {
            project_id: self.project_id.clone(),
            user_id: self.user_id.clone(),
            resource_type: self.resource_type.clone(),
            resource_id: self.resource_id.clone(),
            created_at: self.created_at,
        }
    }
}

/// The model of a link.
pub type Link = ProjectResourceLinkRow<Seq<char>>;

/// Something that is a user's own.
#[derive(Debug, Clone, PartialEq, Eq)]
pub struct OwnedThingRow<T = String> {
    pub id: T,
    pub user_id: T,
}

impl View for OwnedThingRow<String> {
    type V = OwnedThingRow<Seq<char>>;

    open spec fn view(&self) -> OwnedThingRow<Seq<char>> {
        OwnedThingRow {
            id: self.id@,
            user_id: self.user_id@,
        }
    }
}

impl Record for OwnedThingRow<String> {
    fn duplicate(&self) -> (copy: Self) {
        OwnedThingRow {
            id: self.id.clone(),
            user_id: self.user_id.clone(),
        }
    }
}

/// The model of something owned.
pub type OwnedThing = OwnedThingRow<Seq<char>>;

/// Something that belongs to a conversation.
#[derive(Debug, Clone, PartialEq, Eq)]
pub struct InConversationRow<T = String> {
    pub id: T,
    pub conversation_id: T,
}

impl View for InConversationRow<String> {
    type V = InConversationRow<Seq<char>>;

    open spec fn view(&self) -> InConversationRow<Seq<char>> {
        InConversationRow {
            id: self.id@,
            conversation_id: self.conversation_id@,
        }
    }
}

impl Record for InConversationRow<String> {
    fn duplicate(&self) -> (copy: Self) {
        InConversationRow {
            id: self.id.clone(),
            conversation_id: self.conversation_id.clone(),
        }
    }
}

/// The model of something in a conversation.
pub type InConversation = InConversationRow<Seq<char>>;

/// What to change of a project; what is not given stays.
#[derive(Debug, Clone, PartialEq, Eq)]
pub struct UpdateProjectParams {
    pub name: Option<String>,
    pub local_path: Option<String>,
    pub repository_url: Option<Option<String>>,
    pub default_branch: Option<Option<String>>,
    pub project_type: Option<String>,
}

impl Default for UpdateProjectParams {
    fn default() -> (params: Self)
        ensures
            params == (UpdateProjectParams {
                name: None,
                local_path: None,
                repository_url: None,
                default_branch: None,
                project_type: None,
            }),
    {
        UpdateProjectParams {
            name: None,
            local_path: None,
            repository_url: None,
            default_branch: None,
            project_type: None,
        }
    }
}

} // verus!

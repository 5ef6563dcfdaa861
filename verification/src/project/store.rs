//! The project tables and what is done to them.
use crate::error::{conflict_with, missing, not_found, DbError};
use crate::project::rows::{
    CommandProfile, InConversation, InConversationRow, KnowledgeContext, KnowledgeFact,
    KnowledgeIndex, Link, OwnedThing, OwnedThingRow, Project, ProjectCommandProfileRow,
    ProjectKnowledgeContextRow, ProjectKnowledgeFactRow, ProjectKnowledgeIndexRow,
    ProjectRepositoryFactsRow, ProjectResourceLinkRow, ProjectRow, ProjectRuntimeProfileRow,
    RepositoryFacts, RuntimeProfile, UpdateProjectParams,
};
use crate::table::{
    any_where, copy_rows, delete_where, exists_in, fetch_where, found, list_where, lookup, model,
    ordered, put, put_row, removed, selected, update_where, updated, Record,
};
use crate::text::{before, copy_opt, opt_text, same, text_before};
use crate::write::{add_row, added, is_taken, reports_taken, rows_changed, Verdict};
use vstd::prelude::*;

verus! {

/// The project tables, and the things that can be linked to a project.
#[derive(Debug, Clone, PartialEq, Eq)]
pub struct ProjectStore {
    pub projects: Vec<ProjectRow>,
    pub commands: Vec<ProjectCommandProfileRow>,
    pub runtimes: Vec<ProjectRuntimeProfileRow>,
    pub repositories: Vec<ProjectRepositoryFactsRow>,
    pub indexes: Vec<ProjectKnowledgeIndexRow>,
    pub knowledge: Vec<ProjectKnowledgeFactRow>,
    pub contexts: Vec<ProjectKnowledgeContextRow>,
    pub links: Vec<ProjectResourceLinkRow>,
    pub conversations: Vec<OwnedThingRow>,
    pub teams: Vec<OwnedThingRow>,
    pub cron_jobs: Vec<InConversationRow>,
    pub channel_sessions: Vec<InConversationRow>,
}

/// The model of the project tables.
#[verifier::ext_equal]
pub struct ProjectModel {
    pub projects: Seq<Project>,
    pub commands: Seq<CommandProfile>,
    pub runtimes: Seq<RuntimeProfile>,
    pub repositories: Seq<RepositoryFacts>,
    pub indexes: Seq<KnowledgeIndex>,
    pub knowledge: Seq<KnowledgeFact>,
    pub contexts: Seq<KnowledgeContext>,
    pub links: Seq<Link>,
    pub conversations: Seq<OwnedThing>,
    pub teams: Seq<OwnedThing>,
    pub cron_jobs: Seq<InConversation>,
    pub channel_sessions: Seq<InConversation>,
}

impl View for ProjectStore {
    type V = ProjectModel;

    open spec fn view(&self) -> ProjectModel {
        ProjectModel {
            projects: model(self.projects@),
            commands: model(self.commands@),
            runtimes: model(self.runtimes@),
            repositories: model(self.repositories@),
            indexes: model(self.indexes@),
            knowledge: model(self.knowledge@),
            contexts: model(self.contexts@),
            links: model(self.links@),
            conversations: model(self.conversations@),
            teams: model(self.teams@),
            cron_jobs: model(self.cron_jobs@),
            channel_sessions: model(self.channel_sessions@),
        }
    }
}

// ----------------------------------------------------------------------------
// Projects
// ----------------------------------------------------------------------------

/// A user's projects.
pub open spec fn of_user(user_id: Seq<char>) -> spec_fn(Project) -> bool {
    |row: Project| row.user_id == user_id
}

/// A user's project by its id.
pub open spec fn project_of(project_id: Seq<char>, user_id: Seq<char>) -> spec_fn(Project) -> bool {
    |row: Project| row.id == project_id && row.user_id == user_id
}

/// The order of projects: those changed last first.
pub open spec fn fresh_first() -> spec_fn(Project, Project) -> bool {
    |a: Project, b: Project|
        b.updated_at < a.updated_at || (a.updated_at == b.updated_at && (text_before(a.id, b.id)))
}

/// A project with what an update gives.
pub open spec fn project_merged(known: Project, params: UpdateProjectParams, now: i64) -> Project {
    ProjectRow {
        name: match params.name {
            Some(text) => text@,
            None => known.name,
        },
        local_path: match params.local_path {
            Some(text) => text@,
            None => known.local_path,
        },
        repository_url: match params.repository_url {
            Some(text) => opt_text(text),
            None => known.repository_url,
        },
        default_branch: match params.default_branch {
            Some(text) => opt_text(text),
            None => known.default_branch,
        },
        project_type: match params.project_type {
            Some(text) => text@,
            None => known.project_type,
        },
        updated_at: now,
        ..known
    }
}

/// A project written anew. Its id, its user and its age stay.
pub open spec fn project_becomes(new: Project) -> spec_fn(Project) -> Project {
    |row: Project|
        ProjectRow {
            name: new.name,
            local_path: new.local_path,
            repository_url: new.repository_url,
            default_branch: new.default_branch,
            project_type: new.project_type,
            updated_at: new.updated_at,
            ..row
        }
}

/// The error for a project that the storage engine turned down.
pub open spec fn project_refused(
    code: Option<Seq<char>>,
    message: Seq<char>,
    local_path: Seq<char>,
) -> DbError<
    Seq<char>,
> {
    if reports_taken(code) {
        DbError::Conflict("project path already registered: "@ + local_path)
    } else {
        DbError::Query(message)
    }
}

/// What adding a project comes to, once the storage engine has spoken.
pub open spec fn create_step(
    rows: Seq<Project>,
    row: Project,
    verdict: Verdict<Seq<char>>,
) -> Result<
    Seq<Project>,
    DbError<Seq<char>>,
> {
    match verdict {
        Verdict::Refused { code, message } => Err(
            project_refused(code, message, row.local_path),
        ),
        Verdict::Accepted => Ok(rows.push(row)),
    }
}

/// What changing a project comes to: the projects after it, and the project.
pub open spec fn update_step(
    rows: Seq<Project>,
    project_id: Seq<char>,
    user_id: Seq<char>,
    params: UpdateProjectParams,
    now: i64,
    verdict: Verdict<Seq<char>>,
) -> Result<(Seq<Project>, Project), DbError<Seq<char>>> {
    match lookup(rows, project_of(project_id, user_id)) {
        None => Err(missing("project "@, project_id, ""@)),
        Some(known) => {
            let new = project_merged(known, params, now);
            match verdict {
                Verdict::Refused { code, message } => Err(
                    project_refused(code, message, new.local_path),
                ),
                Verdict::Accepted => Ok(
                    (updated(rows, project_of(project_id, user_id), project_becomes(new)), new),
                ),
            }
        },
    }
}

/// Whether changing a project was carried out as `expected` says.
pub open spec fn project_changed(
    expected: Result<(Seq<Project>, Project), DbError<Seq<char>>>,
    result: Result<ProjectRow, DbError>,
    before: ProjectModel,
    after: ProjectModel,
) -> bool {
    match expected {
        Err(wanted) => (result matches Err(error) && error@ == wanted) && after == before,
        Ok((projects, project)) => (result matches Ok(row) && row@ == project) && after == (
        ProjectModel { projects, ..before }),
    }
}

// ----------------------------------------------------------------------------
// What belongs to a project
// ----------------------------------------------------------------------------

impl ProjectModel {
    /// Whether a project is a user's.
    pub open spec fn owns(self, project_id: Seq<char>, user_id: Seq<char>) -> bool {
        exists_in(self.projects, project_of(project_id, user_id))
    }

    /// The commands of a user's project.
    pub open spec fn commands_of(self, project_id: Seq<char>, user_id: Seq<char>) -> spec_fn(
        CommandProfile,
    ) -> bool {
        |row: CommandProfile| row.project_id == project_id && self.owns(project_id, user_id)
    }

    /// What a user's project runs on.
    pub open spec fn runtime_of(self, project_id: Seq<char>, user_id: Seq<char>) -> spec_fn(
        RuntimeProfile,
    ) -> bool {
        |row: RuntimeProfile| row.project_id == project_id && self.owns(project_id, user_id)
    }

    /// The facts of the repository of a user's project.
    pub open spec fn repository_of(self, project_id: Seq<char>, user_id: Seq<char>) -> spec_fn(
        RepositoryFacts,
    ) -> bool {
        |row: RepositoryFacts| row.project_id == project_id && self.owns(project_id, user_id)
    }

    /// The index of a user's project.
    pub open spec fn index_of(self, project_id: Seq<char>, user_id: Seq<char>) -> spec_fn(
        KnowledgeIndex,
    ) -> bool {
        |row: KnowledgeIndex| row.project_id == project_id && self.owns(project_id, user_id)
    }

    /// The answers for a user's projects.
    pub open spec fn context_of(self, context_id: Seq<char>, user_id: Seq<char>) -> spec_fn(
        KnowledgeContext,
    ) -> bool {
        |row: KnowledgeContext| row.id == context_id && self.owns(row.project_id, user_id)
    }

    /// The facts of the generation that the index of a user's project is at.
    pub open spec fn current_facts(self, project_id: Seq<char>, user_id: Seq<char>) -> spec_fn(
        KnowledgeFact,
    ) -> bool {
        |row: KnowledgeFact|
            row.project_id == project_id && self.owns(project_id, user_id) && exists_in(
                self.indexes,
                index_at(project_id, row.generation),
            )
    }

    /// The links of a user's project.
    pub open spec fn links_of(self, project_id: Seq<char>, user_id: Seq<char>) -> spec_fn(
        Link,
    ) -> bool {
        |row: Link|
            row.project_id == project_id && row.user_id == user_id && self.owns(project_id, user_id)
    }

    /// The user's project that a resource is linked to.
    pub open spec fn project_for(
        self,
        user_id: Seq<char>,
        kind: Seq<char>,
        resource_id: Seq<char>,
    ) -> spec_fn(Project) -> bool {
        |row: Project|
            row.user_id == user_id && exists_in(
                self.links,
                link_to(row.id, user_id, kind, resource_id),
            )
    }

    /// Whether a thing in a conversation is a user's.
    pub open spec fn in_own_conversation(
        self,
        things: Seq<InConversation>,
        user_id: Seq<char>,
        id: Seq<char>,
    ) -> bool {
        exists_in(
            things,
            |row: InConversation|
                row.id == id && exists_in(
                    self.conversations,
                    thing_of(row.conversation_id, user_id),
                ),
        )
    }

    /// Whether a resource is a user's. Nobody owns a resource of an unknown kind.
    pub open spec fn resource_owned(
        self,
        user_id: Seq<char>,
        kind: Seq<char>,
        resource_id: Seq<char>,
    ) -> bool {
        if kind == "conversation"@ {
            exists_in(self.conversations, thing_of(resource_id, user_id))
        } else if kind == "team"@ {
            exists_in(self.teams, thing_of(resource_id, user_id))
        } else if kind == "cron"@ {
            self.in_own_conversation(self.cron_jobs, user_id, resource_id)
        } else if kind == "channel"@ {
            self.in_own_conversation(self.channel_sessions, user_id, resource_id)
        } else {
            false
        }
    }
}

/// The commands of a project.
pub open spec fn commands_with(project_id: Seq<char>) -> spec_fn(CommandProfile) -> bool {
    |row: CommandProfile| row.project_id == project_id
}

/// What a project runs on.
pub open spec fn runtime_with(project_id: Seq<char>) -> spec_fn(RuntimeProfile) -> bool {
    |row: RuntimeProfile| row.project_id == project_id
}

/// The facts of the repository of a project.
pub open spec fn repository_with(project_id: Seq<char>) -> spec_fn(RepositoryFacts) -> bool {
    |row: RepositoryFacts| row.project_id == project_id
}

/// The index of a project.
pub open spec fn index_with(project_id: Seq<char>) -> spec_fn(KnowledgeIndex) -> bool {
    |row: KnowledgeIndex| row.project_id == project_id
}

/// The facts of a project.
pub open spec fn facts_with(project_id: Seq<char>) -> spec_fn(KnowledgeFact) -> bool {
    |row: KnowledgeFact| row.project_id == project_id
}

/// Commands written anew.
pub open spec fn commands_become(new: CommandProfile) -> spec_fn(CommandProfile) -> CommandProfile {
    |row: CommandProfile|
        ProjectCommandProfileRow {
            install_command: new.install_command,
            format_command: new.format_command,
            lint_command: new.lint_command,
            typecheck_command: new.typecheck_command,
            unit_test_command: new.unit_test_command,
            integration_test_command: new.integration_test_command,
            e2e_command: new.e2e_command,
            build_command: new.build_command,
            security_scan_command: new.security_scan_command,
            command_timeout_seconds: new.command_timeout_seconds,
            updated_at: new.updated_at,
            ..row
        }
}

/// What a project runs on, written anew.
pub open spec fn runtime_becomes(new: RuntimeProfile) -> spec_fn(RuntimeProfile) -> RuntimeProfile {
    |row: RuntimeProfile|
        ProjectRuntimeProfileRow {
            environment_kind: new.environment_kind,
            language: new.language,
            package_manager: new.package_manager,
            runtime_version: new.runtime_version,
            env_keys: new.env_keys,
            metadata: new.metadata,
            updated_at: new.updated_at,
            ..row
        }
}

/// Facts of a repository written anew.
pub open spec fn repository_becomes(
    new: RepositoryFacts,
) -> spec_fn(RepositoryFacts) -> RepositoryFacts {
    |row: RepositoryFacts|
        ProjectRepositoryFactsRow {
            repository_url: new.repository_url,
            default_branch: new.default_branch,
            baseline_commit: new.baseline_commit,
            repository_dirty: new.repository_dirty,
            dirty_worktree_choice: new.dirty_worktree_choice,
            dirty_snapshot_ref: new.dirty_snapshot_ref,
            credential_reference: new.credential_reference,
            detected_languages_json: new.detected_languages_json,
            detected_package_managers_json: new.detected_package_managers_json,
            detected_rules_files_json: new.detected_rules_files_json,
            monorepo_packages_json: new.monorepo_packages_json,
            submodules_json: new.submodules_json,
            lfs_detected: new.lfs_detected,
            detected_at: new.detected_at,
            ..row
        }
}

/// An index written anew.
pub open spec fn index_becomes(new: KnowledgeIndex) -> spec_fn(KnowledgeIndex) -> KnowledgeIndex {
    |row: KnowledgeIndex|
        ProjectKnowledgeIndexRow {
            provider: new.provider,
            provider_project_name: new.provider_project_name,
            provider_version: new.provider_version,
            status: new.status,
            generation: new.generation,
            source_commit: new.source_commit,
            indexed_at: new.indexed_at,
            changed_paths_json: new.changed_paths_json,
            error_category: new.error_category,
            updated_at: new.updated_at,
            ..row
        }
}

/// The index of a project at a generation.
pub open spec fn index_at(
    project_id: Seq<char>,
    generation: i64,
) -> spec_fn(KnowledgeIndex) -> bool {
    |row: KnowledgeIndex| row.project_id == project_id && row.generation == generation
}

/// The fact with an id.
pub open spec fn fact_with_id(id: Seq<char>) -> spec_fn(KnowledgeFact) -> bool {
    |row: KnowledgeFact| row.id == id
}

/// The order of facts.
pub open spec fn by_kind() -> spec_fn(KnowledgeFact, KnowledgeFact) -> bool {
    |a: KnowledgeFact, b: KnowledgeFact|
        text_before(a.kind, b.kind)
            || (
                a.kind == b.kind
                    && (
                        text_before(a.name, b.name)
                            || (
                                a.name == b.name
                                    && (
                                        text_before(a.source_path, b.source_path)
                                            || (
                                                a.source_path == b.source_path
                                                    && (a.source_line < b.source_line)
                                            )
                                    )
                            )
                    )
            )
}

/// The answer with an id.
pub open spec fn context_with_id(id: Seq<char>) -> spec_fn(KnowledgeContext) -> bool {
    |row: KnowledgeContext| row.id == id
}

/// A user's link of a resource.
pub open spec fn link_of(
    user_id: Seq<char>,
    kind: Seq<char>,
    resource_id: Seq<char>,
) -> spec_fn(Link) -> bool {
    |row: Link|
        row.user_id == user_id && row.resource_type == kind && row.resource_id == resource_id
}

/// A user's link of a resource to a project.
pub open spec fn link_to(
    project_id: Seq<char>,
    user_id: Seq<char>,
    kind: Seq<char>,
    resource_id: Seq<char>,
) -> spec_fn(Link) -> bool {
    |row: Link|
        row.project_id == project_id && row.user_id == user_id && row.resource_type == kind
            && row.resource_id == resource_id
}

/// A link written anew. Its user and its resource stay.
pub open spec fn link_becomes(new: Link) -> spec_fn(Link) -> Link {
    |row: Link|
        ProjectResourceLinkRow {
            project_id: new.project_id,
            created_at: new.created_at,
            ..row
        }
}

/// The order of links: the latest first.
pub open spec fn latest_first() -> spec_fn(Link, Link) -> bool {
    |a: Link, b: Link|
        b.created_at < a.created_at
            || (a.created_at == b.created_at && (text_before(a.resource_id, b.resource_id)))
}

/// A user's own thing by its id.
pub open spec fn thing_of(id: Seq<char>, user_id: Seq<char>) -> spec_fn(OwnedThing) -> bool {
    |row: OwnedThing| row.id == id && row.user_id == user_id
}

/// Whether facts cannot be added to others: an id would be there twice.
pub open spec fn facts_clash(rows: Seq<KnowledgeFact>, facts: Seq<KnowledgeFact>) -> bool {
    exists|j: int|
        0 <= j < facts.len()
            && exists_in(rows + facts.take(j), fact_with_id((#[trigger] facts[j]).id))
}

/// What replacing the facts of a project comes to: the index and the facts
/// change together or not at all.
pub open spec fn commit_step(
    store: ProjectModel,
    index: KnowledgeIndex,
    facts: Seq<KnowledgeFact>,
) -> Result<ProjectModel, DbError<Seq<char>>> {
    let rest = removed(store.knowledge, facts_with(index.project_id));
    if facts_clash(rest, facts) {
        Err(DbError::Query("UNIQUE constraint failed: project_knowledge_facts.id"@))
    } else {
        Ok(
            ProjectModel {
                indexes: put(
                    store.indexes,
                    index_with(index.project_id),
                    index_becomes(index),
                    index,
                ),
                knowledge: rest + facts,
                ..store
            },
        )
    }
}

/// Whether an operation was carried out as `expected` says.
pub open spec fn store_changed(
    expected: Result<ProjectModel, DbError<Seq<char>>>,
    result: Result<(), DbError>,
    before: ProjectModel,
    after: ProjectModel,
) -> bool {
    match expected {
        Err(wanted) => (result matches Err(error) && error@ == wanted) && after == before,
        Ok(store) => result is Ok && after == store,
    }
}

/// A link as it is made.
pub open spec fn new_link(
    project_id: Seq<char>,
    user_id: Seq<char>,
    kind: Seq<char>,
    resource_id: Seq<char>,
    now: i64,
) -> Link {
    ProjectResourceLinkRow {
        project_id,
        user_id,
        resource_type: kind,
        resource_id,
        created_at: now,
    }
}

/// The links after a resource was linked. A resource belongs to one project of a
/// user at a time.
pub open spec fn links_after(links: Seq<Link>, link: Link) -> Seq<Link> {
    put(
        links,
        link_of(link.user_id, link.resource_type, link.resource_id),
        link_becomes(link),
        link,
    )
}

// ----------------------------------------------------------------------------
// The same in running code
// ----------------------------------------------------------------------------

/// The error for a project that the storage engine turned down.
pub fn project_write_error(
    code: &Option<String>,
    message: &str,
    local_path: &str,
) -> (error: DbError)
    ensures
        error@ == project_refused(opt_text(*code), message@, local_path@),
{
    if is_taken(code) {
        conflict_with("project path already registered: ", local_path)
    } else {
        DbError::Query(message.to_owned())
    }
}

fn merge_project(known: &ProjectRow, params: &UpdateProjectParams, now: i64) -> (new: ProjectRow)
    ensures
        new@ == project_merged(known@, *params, now),
{
    ProjectRow {
        id: known.id.clone(),
        user_id: known.user_id.clone(),
        name: match &params.name {
            Some(text) => text.clone(),
            None => known.name.clone(),
        },
        local_path: match &params.local_path {
            Some(text) => text.clone(),
            None => known.local_path.clone(),
        },
        repository_url: match &params.repository_url {
            Some(text) => copy_opt(text),
            None => copy_opt(&known.repository_url),
        },
        default_branch: match &params.default_branch {
            Some(text) => copy_opt(text),
            None => copy_opt(&known.default_branch),
        },
        project_type: match &params.project_type {
            Some(text) => text.clone(),
            None => known.project_type.clone(),
        },
        created_at: known.created_at,
        updated_at: now,
    }
}

fn has_thing(things: &Vec<OwnedThingRow>, id: &str, user_id: &str) -> (yes: bool)
    ensures
        yes == exists_in(model(things@), thing_of(id@, user_id@)),
{
    any_where(
        things,
        |row: &OwnedThingRow| -> (yes: bool)
                ensures yes == thing_of(id@, user_id@)(row@)
                { same(row.id.as_str(), id) && same(row.user_id.as_str(), user_id) },
        Ghost(thing_of(id@, user_id@)),
    )
}

impl ProjectStore {
    /// Adds a project, once the storage engine has spoken.
    pub fn create(&mut self, row: &ProjectRow, verdict: &Verdict) -> (result: Result<(), DbError>)
        ensures
            rows_changed(
                create_step(old(self)@.projects, row@, verdict@),
                result,
                old(self)@.projects,
                final(self)@.projects,
            ),
            final(self)@ == (ProjectModel { projects: final(self)@.projects, ..old(self)@ }),
    {
        match verdict {
            Verdict::Refused { code, message } => Err(
                project_write_error(code, message.as_str(), row.local_path.as_str()),
            ),
            Verdict::Accepted => {
                let ghost start = self.projects@;
                self.projects.push(row.duplicate());
                assert(model(self.projects@) =~= model(start).push(row@));
                Ok(())
            },
        }
    }

    /// A user's projects.
    pub fn list_for_user(&self, user_id: &str) -> (list: Vec<ProjectRow>)
        ensures
            model(list@) == ordered(selected(self@.projects, of_user(user_id@)), fresh_first()),
    {
        list_where(
            &self.projects,
            |row: &ProjectRow| -> (yes: bool)
                ensures yes == of_user(user_id@)(row@)
                { same(row.user_id.as_str(), user_id) },
            |a: &ProjectRow, b: &ProjectRow| -> (yes: bool)
                ensures yes == fresh_first()(a@, b@)
                {
                    b.updated_at < a.updated_at
                        || (a.updated_at == b.updated_at && (before(a.id.as_str(), b.id.as_str())))
                },
            Ghost(of_user(user_id@)),
            Ghost(fresh_first()),
        )
    }

    /// A user's project.
    pub fn get_for_user(&self, project_id: &str, user_id: &str) -> (row: Option<ProjectRow>)
        ensures
            found(row) == lookup(self@.projects, project_of(project_id@, user_id@)),
    {
        fetch_where(
            &self.projects,
            |row: &ProjectRow| -> (yes: bool)
                ensures yes == project_of(project_id@, user_id@)(row@)
                { same(row.id.as_str(), project_id) && same(row.user_id.as_str(), user_id) },
            Ghost(project_of(project_id@, user_id@)),
        )
    }

    fn owns_project(&self, project_id: &str, user_id: &str) -> (yes: bool)
        ensures
            yes == self@.owns(project_id@, user_id@),
    {
        any_where(
            &self.projects,
            |row: &ProjectRow| -> (yes: bool)
                ensures yes == project_of(project_id@, user_id@)(row@)
                { same(row.id.as_str(), project_id) && same(row.user_id.as_str(), user_id) },
            Ghost(project_of(project_id@, user_id@)),
        )
    }

    /// Changes a user's project, once the storage engine has spoken; what is not
    /// given stays.
    pub fn update_for_user(
        &mut self,
        project_id: &str,
        user_id: &str,
        params: &UpdateProjectParams,
        now: i64,
        verdict: &Verdict,
    ) -> (result: Result<ProjectRow, DbError>)
        ensures
            project_changed(
                update_step(
                    old(self)@.projects,
                    project_id@,
                    user_id@,
                    *params,
                    now,
                    verdict@,
                ),
                result,
                old(self)@,
                final(self)@,
            ),
    {
        let known = match self.get_for_user(project_id, user_id) {
            Some(row) => row,
            None => {
                return Err(not_found("project ", project_id, ""));
            },
        };
        let new = merge_project(&known, params, now);
        match verdict {
            Verdict::Refused { code, message } => {
                return Err(
                    project_write_error(code, message.as_str(), new.local_path.as_str()),
                );
            },
            Verdict::Accepted => {},
        }
        let _count: u64 = update_where(
            &mut self.projects,
            |row: &ProjectRow| -> (yes: bool)
                ensures yes == project_of(project_id@, user_id@)(row@)
                { same(row.id.as_str(), project_id) && same(row.user_id.as_str(), user_id) },
            |row: &ProjectRow| -> (next: ProjectRow)
                ensures next@ == project_becomes(new@)(row@)
                {
                    ProjectRow {
                        name: new.name.clone(),
                        local_path: new.local_path.clone(),
                        repository_url: copy_opt(&new.repository_url),
                        default_branch: copy_opt(&new.default_branch),
                        project_type: new.project_type.clone(),
                        updated_at: new.updated_at,
                        ..row.duplicate()
                    }
                },
            Ghost(project_of(project_id@, user_id@)),
            Ghost(project_becomes(new@)),
        );
        Ok(new)
    }

    /// Deletes a user's project, and says whether it was there.
    pub fn delete_for_user(&mut self, project_id: &str, user_id: &str) -> (gone: bool)
        ensures
            final(self)@ == (ProjectModel {
                projects: removed(old(self)@.projects, project_of(project_id@, user_id@)),
                ..old(self)@
            }),
            gone == old(self)@.owns(project_id@, user_id@),
    {
        let known = self.owns_project(project_id, user_id);
        let _count: u64 = delete_where(
            &mut self.projects,
            |row: &ProjectRow| -> (yes: bool)
                ensures yes == project_of(project_id@, user_id@)(row@)
                { same(row.id.as_str(), project_id) && same(row.user_id.as_str(), user_id) },
            Ghost(project_of(project_id@, user_id@)),
        );
        known
    }

    /// Writes the commands of a project.
    pub fn upsert_command_profile(&mut self, row: &ProjectCommandProfileRow)
        ensures
            final(self)@ == (ProjectModel {
                commands: put(
                    old(self)@.commands,
                    commands_with(row@.project_id),
                    commands_become(row@),
                    row@,
                ),
                ..old(self)@
            }),
    {
        put_row(
            &mut self.commands,
            |known: &ProjectCommandProfileRow| -> (yes: bool)
                ensures yes == commands_with(row@.project_id)(known@)
                { same(known.project_id.as_str(), row.project_id.as_str()) },
            |known: &ProjectCommandProfileRow| -> (next: ProjectCommandProfileRow)
                ensures next@ == commands_become(row@)(known@)
                {
                    ProjectCommandProfileRow {
                        install_command: copy_opt(&row.install_command),
                        format_command: copy_opt(&row.format_command),
                        lint_command: copy_opt(&row.lint_command),
                        typecheck_command: copy_opt(&row.typecheck_command),
                        unit_test_command: copy_opt(&row.unit_test_command),
                        integration_test_command: copy_opt(&row.integration_test_command),
                        e2e_command: copy_opt(&row.e2e_command),
                        build_command: copy_opt(&row.build_command),
                        security_scan_command: copy_opt(&row.security_scan_command),
                        command_timeout_seconds: row.command_timeout_seconds,
                        updated_at: row.updated_at,
                        ..known.duplicate()
                    }
                },
            row.duplicate(),
            Ghost(commands_with(row@.project_id)),
            Ghost(commands_become(row@)),
        )
    }

    /// The commands of a user's project.
    pub fn get_command_profile(
        &self,
        project_id: &str,
        user_id: &str,
    ) -> (row: Option<ProjectCommandProfileRow>)
        ensures
            found(row) == lookup(self@.commands, self@.commands_of(project_id@, user_id@)),
    {
        let own = self.owns_project(project_id, user_id);
        fetch_where(
            &self.commands,
            |row: &ProjectCommandProfileRow| -> (yes: bool)
                ensures yes == self@.commands_of(project_id@, user_id@)(row@)
                { own && same(row.project_id.as_str(), project_id) },
            Ghost(self@.commands_of(project_id@, user_id@)),
        )
    }

    /// Writes what a project runs on.
    pub fn upsert_runtime_profile(&mut self, row: &ProjectRuntimeProfileRow)
        ensures
            final(self)@ == (ProjectModel {
                runtimes: put(
                    old(self)@.runtimes,
                    runtime_with(row@.project_id),
                    runtime_becomes(row@),
                    row@,
                ),
                ..old(self)@
            }),
    {
        put_row(
            &mut self.runtimes,
            |known: &ProjectRuntimeProfileRow| -> (yes: bool)
                ensures yes == runtime_with(row@.project_id)(known@)
                { same(known.project_id.as_str(), row.project_id.as_str()) },
            |known: &ProjectRuntimeProfileRow| -> (next: ProjectRuntimeProfileRow)
                ensures next@ == runtime_becomes(row@)(known@)
                {
                    ProjectRuntimeProfileRow {
                        environment_kind: row.environment_kind.clone(),
                        language: copy_opt(&row.language),
                        package_manager: copy_opt(&row.package_manager),
                        runtime_version: copy_opt(&row.runtime_version),
                        env_keys: row.env_keys.clone(),
                        metadata: row.metadata.clone(),
                        updated_at: row.updated_at,
                        ..known.duplicate()
                    }
                },
            row.duplicate(),
            Ghost(runtime_with(row@.project_id)),
            Ghost(runtime_becomes(row@)),
        )
    }

    /// What a user's project runs on.
    pub fn get_runtime_profile(
        &self,
        project_id: &str,
        user_id: &str,
    ) -> (row: Option<ProjectRuntimeProfileRow>)
        ensures
            found(row) == lookup(self@.runtimes, self@.runtime_of(project_id@, user_id@)),
    {
        let own = self.owns_project(project_id, user_id);
        fetch_where(
            &self.runtimes,
            |row: &ProjectRuntimeProfileRow| -> (yes: bool)
                ensures yes == self@.runtime_of(project_id@, user_id@)(row@)
                { own && same(row.project_id.as_str(), project_id) },
            Ghost(self@.runtime_of(project_id@, user_id@)),
        )
    }

    /// Writes the facts of the repository of a project.
    pub fn upsert_repository_facts(&mut self, row: &ProjectRepositoryFactsRow)
        ensures
            final(self)@ == (ProjectModel {
                repositories: put(
                    old(self)@.repositories,
                    repository_with(row@.project_id),
                    repository_becomes(row@),
                    row@,
                ),
                ..old(self)@
            }),
    {
        put_row(
            &mut self.repositories,
            |known: &ProjectRepositoryFactsRow| -> (yes: bool)
                ensures yes == repository_with(row@.project_id)(known@)
                { same(known.project_id.as_str(), row.project_id.as_str()) },
            |known: &ProjectRepositoryFactsRow| -> (next: ProjectRepositoryFactsRow)
                ensures next@ == repository_becomes(row@)(known@)
                {
                    ProjectRepositoryFactsRow {
                        repository_url: copy_opt(&row.repository_url),
                        default_branch: copy_opt(&row.default_branch),
                        baseline_commit: copy_opt(&row.baseline_commit),
                        repository_dirty: row.repository_dirty,
                        dirty_worktree_choice: copy_opt(&row.dirty_worktree_choice),
                        dirty_snapshot_ref: copy_opt(&row.dirty_snapshot_ref),
                        credential_reference: copy_opt(&row.credential_reference),
                        detected_languages_json: row.detected_languages_json.clone(),
                        detected_package_managers_json: row.detected_package_managers_json.clone(),
                        detected_rules_files_json: row.detected_rules_files_json.clone(),
                        monorepo_packages_json: row.monorepo_packages_json.clone(),
                        submodules_json: row.submodules_json.clone(),
                        lfs_detected: row.lfs_detected,
                        detected_at: row.detected_at,
                        ..known.duplicate()
                    }
                },
            row.duplicate(),
            Ghost(repository_with(row@.project_id)),
            Ghost(repository_becomes(row@)),
        )
    }

    /// The facts of the repository of a user's project.
    pub fn get_repository_facts(
        &self,
        project_id: &str,
        user_id: &str,
    ) -> (row: Option<ProjectRepositoryFactsRow>)
        ensures
            found(row) == lookup(self@.repositories, self@.repository_of(project_id@, user_id@)),
    {
        let own = self.owns_project(project_id, user_id);
        fetch_where(
            &self.repositories,
            |row: &ProjectRepositoryFactsRow| -> (yes: bool)
                ensures yes == self@.repository_of(project_id@, user_id@)(row@)
                { own && same(row.project_id.as_str(), project_id) },
            Ghost(self@.repository_of(project_id@, user_id@)),
        )
    }

    /// Writes the index of a project.
    pub fn upsert_knowledge_index(&mut self, row: &ProjectKnowledgeIndexRow)
        ensures
            final(self)@ == (ProjectModel {
                indexes: put(
                    old(self)@.indexes,
                    index_with(row@.project_id),
                    index_becomes(row@),
                    row@,
                ),
                ..old(self)@
            }),
    {
        put_row(
            &mut self.indexes,
            |known: &ProjectKnowledgeIndexRow| -> (yes: bool)
                ensures yes == index_with(row@.project_id)(known@)
                { same(known.project_id.as_str(), row.project_id.as_str()) },
            |known: &ProjectKnowledgeIndexRow| -> (next: ProjectKnowledgeIndexRow)
                ensures next@ == index_becomes(row@)(known@)
                {
                    ProjectKnowledgeIndexRow {
                        provider: row.provider.clone(),
                        provider_project_name: row.provider_project_name.clone(),
                        provider_version: copy_opt(&row.provider_version),
                        status: row.status.clone(),
                        generation: row.generation,
                        source_commit: copy_opt(&row.source_commit),
                        indexed_at: row.indexed_at,
                        changed_paths_json: row.changed_paths_json.clone(),
                        error_category: copy_opt(&row.error_category),
                        updated_at: row.updated_at,
                        ..known.duplicate()
                    }
                },
            row.duplicate(),
            Ghost(index_with(row@.project_id)),
            Ghost(index_becomes(row@)),
        )
    }

    /// Replaces the facts of a project together with its index.
    pub fn commit_knowledge_generation(
        &mut self,
        index: &ProjectKnowledgeIndexRow,
        facts: &Vec<ProjectKnowledgeFactRow>,
    ) -> (result: Result<(), DbError>)
        ensures
            store_changed(
                commit_step(old(self)@, index@, model(facts@)),
                result,
                old(self)@,
                final(self)@,
            ),
    {
        let project_id = index.project_id.as_str();
        let mut knowledge = copy_rows(&self.knowledge);
        let _count: u64 = delete_where(
            &mut knowledge,
            |row: &ProjectKnowledgeFactRow| -> (yes: bool)
                ensures yes == facts_with(project_id@)(row@)
                { same(row.project_id.as_str(), project_id) },
            Ghost(facts_with(project_id@)),
        );
        let ghost rest = model(knowledge@);
        let ghost all = model(facts@);
        let mut i: usize = 0;
        assert(rest + all.take(0) =~= rest);
        while i < facts.len()
            invariant
                i <= facts.len(),
                all == model(facts@),
                rest == removed(old(self)@.knowledge, facts_with(index@.project_id)),
                *self == *old(self),
                model(knowledge@) == rest + all.take(i as int),
                forall|j: int|
                    0 <= j < i ==> !exists_in(
                        rest + all.take(j),
                        fact_with_id((#[trigger] all[j]).id),
                    ),
            decreases facts.len() - i,
        {
            let fact = &facts[i];
            assert(all[i as int] == fact@);
            let result = add_row(
                &mut knowledge,
                fact.duplicate(),
                |known: &ProjectKnowledgeFactRow| -> (yes: bool)
                    ensures yes == fact_with_id(fact@.id)(known@)
                    { same(known.id.as_str(), fact.id.as_str()) },
                "UNIQUE constraint failed: project_knowledge_facts.id",
                Ghost(fact_with_id(fact@.id)),
            );
            match result {
                Ok(()) => {},
                Err(error) => {
                    assert(facts_clash(rest, all));
                    return Err(error);
                },
            }
            assert((rest + all.take(i as int)).push(fact@) =~= rest + all.take(i as int + 1));
            i = i + 1;
        }
        assert(all.take(i as int) =~= all);
        self.knowledge = knowledge;
        self.upsert_knowledge_index(index);
        Ok(())
    }

    /// The index of a user's project.
    pub fn get_knowledge_index(
        &self,
        project_id: &str,
        user_id: &str,
    ) -> (row: Option<ProjectKnowledgeIndexRow>)
        ensures
            found(row) == lookup(self@.indexes, self@.index_of(project_id@, user_id@)),
    {
        let own = self.owns_project(project_id, user_id);
        fetch_where(
            &self.indexes,
            |row: &ProjectKnowledgeIndexRow| -> (yes: bool)
                ensures yes == self@.index_of(project_id@, user_id@)(row@)
                { own && same(row.project_id.as_str(), project_id) },
            Ghost(self@.index_of(project_id@, user_id@)),
        )
    }

    /// The facts of the generation that the index of a user's project is at.
    pub fn list_knowledge_facts(&self, project_id: &str, user_id: &str) -> (list: Vec<
        ProjectKnowledgeFactRow,
    >)
        ensures
            model(list@) == ordered(
                selected(self@.knowledge, self@.current_facts(project_id@, user_id@)),
                by_kind(),
            ),
    {
        let own = self.owns_project(project_id, user_id);
        let ghost hit = self@.current_facts(project_id@, user_id@);
        list_where(
            &self.knowledge,
            |row: &ProjectKnowledgeFactRow| -> (yes: bool)
                ensures yes == hit(row@)
                {
                    own && same(row.project_id.as_str(), project_id) && self.is_indexed_at(
                        project_id,
                        row.generation,
                    )
                },
            |a: &ProjectKnowledgeFactRow, b: &ProjectKnowledgeFactRow| -> (yes: bool)
                ensures yes == by_kind()(a@, b@)
                {
                    before(a.kind.as_str(), b.kind.as_str())
                        || (
                            same(a.kind.as_str(), b.kind.as_str())
                                && (
                                    before(a.name.as_str(), b.name.as_str())
                                        || (
                                            same(a.name.as_str(), b.name.as_str())
                                                && (
                                                    before(
                                                        a.source_path.as_str(),
                                                        b.source_path.as_str(),
                                                    )
                                                        || (
                                                            same(
                                                                a.source_path.as_str(),
                                                                b.source_path.as_str(),
                                                            )
                                                                && (a.source_line < b.source_line)
                                                        )
                                                )
                                        )
                                )
                        )
                },
            Ghost(hit),
            Ghost(by_kind()),
        )
    }

    fn is_indexed_at(&self, project_id: &str, generation: i64) -> (yes: bool)
        ensures
            yes == exists_in(self@.indexes, index_at(project_id@, generation)),
    {
        any_where(
            &self.indexes,
            |row: &ProjectKnowledgeIndexRow| -> (yes: bool)
                ensures yes == index_at(project_id@, generation)(row@)
                { same(row.project_id.as_str(), project_id) && row.generation == generation },
            Ghost(index_at(project_id@, generation)),
        )
    }

    /// Adds an answer.
    pub fn insert_knowledge_context(
        &mut self,
        row: &ProjectKnowledgeContextRow,
    ) -> (result: Result<(), DbError>)
        ensures
            rows_changed(
                added(
                    old(self)@.contexts,
                    context_with_id(row@.id),
                    row@,
                    "UNIQUE constraint failed: project_knowledge_contexts.id"@,
                ),
                result,
                old(self)@.contexts,
                final(self)@.contexts,
            ),
            final(self)@ == (ProjectModel { contexts: final(self)@.contexts, ..old(self)@ }),
    {
        add_row(
            &mut self.contexts,
            row.duplicate(),
            |known: &ProjectKnowledgeContextRow| -> (yes: bool)
                ensures yes == context_with_id(row@.id)(known@)
                { same(known.id.as_str(), row.id.as_str()) },
            "UNIQUE constraint failed: project_knowledge_contexts.id",
            Ghost(context_with_id(row@.id)),
        )
    }

    /// An answer for a user's project.
    pub fn get_knowledge_context(&self, context_id: &str, user_id: &str) -> (row: Option<
        ProjectKnowledgeContextRow,
    >)
        ensures
            found(row) == lookup(self@.contexts, self@.context_of(context_id@, user_id@)),
    {
        let ghost hit = self@.context_of(context_id@, user_id@);
        fetch_where(
            &self.contexts,
            |row: &ProjectKnowledgeContextRow| -> (yes: bool)
                ensures yes == hit(row@)
                {
                    same(row.id.as_str(), context_id) && self.owns_project(
                        row.project_id.as_str(),
                        user_id,
                    )
                },
            Ghost(hit),
        )
    }

    /// Links a resource to a user's project.
    pub fn bind_resource(
        &mut self,
        project_id: &str,
        user_id: &str,
        resource_type: &str,
        resource_id: &str,
        now: i64,
    ) -> (result: Result<ProjectResourceLinkRow, DbError>)
        ensures
            ({
                let link = new_link(project_id@, user_id@, resource_type@, resource_id@, now);
                if old(self)@.owns(project_id@, user_id@) {
                    &&& result matches Ok(row)
                    &&& row@ == link
                    &&& final(self)@ == (ProjectModel {
                        links: links_after(old(self)@.links, link),
                        ..old(self)@
                    })
                } else {
                    &&& result matches Err(error)
                    &&& error@ == missing("project "@, project_id@, ""@)
                    &&& final(self)@ == old(self)@
                }
            }),
    {
        if !self.owns_project(project_id, user_id) {
            return Err(not_found("project ", project_id, ""));
        }
        let row = ProjectResourceLinkRow {
            project_id: project_id.to_owned(),
            user_id: user_id.to_owned(),
            resource_type: resource_type.to_owned(),
            resource_id: resource_id.to_owned(),
            created_at: now,
        };
        let ghost hit = link_of(user_id@, resource_type@, resource_id@);
        put_row(
            &mut self.links,
            |known: &ProjectResourceLinkRow| -> (yes: bool)
                ensures yes == hit(known@)
                {
                    same(known.user_id.as_str(), user_id)
                        && same(known.resource_type.as_str(), resource_type)
                        && same(known.resource_id.as_str(), resource_id)
                },
            |known: &ProjectResourceLinkRow| -> (next: ProjectResourceLinkRow)
                ensures next@ == link_becomes(row@)(known@)
                {
                    ProjectResourceLinkRow {
                        project_id: project_id.to_owned(),
                        created_at: now,
                        ..known.duplicate()
                    }
                },
            row.duplicate(),
            Ghost(hit),
            Ghost(link_becomes(row@)),
        );
        Ok(row)
    }

    fn is_in_own_conversation(
        &self,
        things: &Vec<InConversationRow>,
        user_id: &str,
        id: &str,
    ) -> (yes:
        bool)
        ensures
            yes == self@.in_own_conversation(model(things@), user_id@, id@),
    {
        let ghost store = self@;
        let ghost hit = |row: InConversation|
            row.id == id@ && exists_in(
                store.conversations,
                thing_of(row.conversation_id, user_id@),
            );
        let yes = any_where(
            things,
            |row: &InConversationRow| -> (yes: bool)
                ensures yes == hit(row@)
                {
                    same(row.id.as_str(), id) && has_thing(
                        &self.conversations,
                        row.conversation_id.as_str(),
                        user_id,
                    )
                },
            Ghost(hit),
        );
        yes
    }

    /// Whether a resource is a user's.
    pub fn resource_is_owned(
        &self,
        user_id: &str,
        resource_type: &str,
        resource_id: &str,
    ) -> (yes: bool)
        ensures
            yes == self@.resource_owned(user_id@, resource_type@, resource_id@),
    {
        if same(resource_type, "conversation") {
            has_thing(&self.conversations, resource_id, user_id)
        } else if same(resource_type, "team") {
            has_thing(&self.teams, resource_id, user_id)
        } else if same(resource_type, "cron") {
            self.is_in_own_conversation(&self.cron_jobs, user_id, resource_id)
        } else if same(resource_type, "channel") {
            self.is_in_own_conversation(&self.channel_sessions, user_id, resource_id)
        } else {
            false
        }
    }

    fn is_linked(
        &self,
        project_id: &str,
        user_id: &str,
        resource_type: &str,
        resource_id: &str,
    ) -> (yes:
        bool)
        ensures
            yes == exists_in(
                self@.links,
                link_to(project_id@, user_id@, resource_type@, resource_id@),
            ),
    {
        any_where(
            &self.links,
            |row: &ProjectResourceLinkRow| -> (yes: bool)
                ensures yes == link_to(project_id@, user_id@, resource_type@, resource_id@)(row@)
                {
                    same(row.project_id.as_str(), project_id) && same(row.user_id.as_str(), user_id)
                        && same(row.resource_type.as_str(), resource_type)
                        && same(row.resource_id.as_str(), resource_id)
                },
            Ghost(link_to(project_id@, user_id@, resource_type@, resource_id@)),
        )
    }

    /// The user's project that a resource is linked to.
    pub fn get_for_resource(
        &self,
        user_id: &str,
        resource_type: &str,
        resource_id: &str,
    ) -> (row: Option<
        ProjectRow,
    >)
        ensures
            found(row) == lookup(
                self@.projects,
                self@.project_for(user_id@, resource_type@, resource_id@),
            ),
    {
        let ghost hit = self@.project_for(user_id@, resource_type@, resource_id@);
        fetch_where(
            &self.projects,
            |row: &ProjectRow| -> (yes: bool)
                ensures yes == hit(row@)
                {
                    same(row.user_id.as_str(), user_id) && self.is_linked(
                        row.id.as_str(),
                        user_id,
                        resource_type,
                        resource_id,
                    )
                },
            Ghost(hit),
        )
    }

    /// The links of a user's project.
    pub fn list_resource_links(&self, project_id: &str, user_id: &str) -> (list: Vec<
        ProjectResourceLinkRow,
    >)
        ensures
            model(list@) == ordered(
                selected(self@.links, self@.links_of(project_id@, user_id@)),
                latest_first(),
            ),
    {
        let own = self.owns_project(project_id, user_id);
        let ghost hit = self@.links_of(project_id@, user_id@);
        list_where(
            &self.links,
            |row: &ProjectResourceLinkRow| -> (yes: bool)
                ensures yes == hit(row@)
                {
                    own && same(row.project_id.as_str(), project_id) && same(
                        row.user_id.as_str(),
                        user_id,
                    )
                },
            |a: &ProjectResourceLinkRow, b: &ProjectResourceLinkRow| -> (yes: bool)
                ensures yes == latest_first()(a@, b@)
                {
                    b.created_at < a.created_at
                        || (
                            a.created_at == b.created_at
                                && (before(a.resource_id.as_str(), b.resource_id.as_str()))
                        )
                },
            Ghost(hit),
            Ghost(latest_first()),
        )
    }
}

} // verus!

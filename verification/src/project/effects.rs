//! What operations on projects come to, told by the rows.
use crate::error::DbError;
use crate::project::rows::{
    ProjectRow, CommandProfile, InConversation, KnowledgeFact, KnowledgeIndex, Link, OwnedThing,
    Project, RepositoryFacts, RuntimeProfile, UpdateProjectParams,
};
use crate::project::store::{
    by_kind, project_changed, store_changed, commands_become, commands_with, commit_step,
    create_step, facts_with, fresh_first, index_at, index_becomes, index_with, latest_first,
    link_becomes, link_of, link_to, links_after, new_link, of_user, project_of, repository_becomes,
    repository_with, runtime_becomes, runtime_with, thing_of, update_step, ProjectModel,
};
use crate::table::{
    exists_in, law_full_listing, law_put, law_removed, lemma_lookup, lemma_orders_by, lookup,
    ordered, orders, put, removed, selected,
};
use crate::text::{lemma_text_order, lemma_text_transitive, opt_text, text_before};
use crate::write::Verdict;
use vstd::prelude::*;

verus! {

/// A project is found only for its user, and is found wherever the user has it.
pub proof fn law_project_is_for_its_user(
    rows: Seq<Project>,
    id: Seq<char>,
    user: Seq<char>,
)
    ensures
        lookup(rows, project_of(id, user)) matches Some(row) ==> rows.contains(row)
            && row.id == id && row.user_id == user,
        lookup(rows, project_of(id, user)) is None ==> forall|i: int|
            0 <= i < rows.len() ==> !((#[trigger] rows[i]).id == id && rows[i].user_id == user),
{
    let hit = project_of(id, user);
    lemma_lookup(rows, hit);
    if lookup(rows, hit) is None {
        assert forall|i: int| 0 <= i < rows.len() implies !(
        (#[trigger] rows[i]).id == id && rows[i].user_id == user) by {
            assert(!hit(rows[i]));
        }
    }
}

/// The list of projects holds exactly the user's, the one that changed last first.
pub proof fn law_projects_are_listed(
    rows: Seq<Project>,
    user: Seq<char>,
)
    ensures
        ({
            let list = ordered(selected(rows, of_user(user)), fresh_first());
            &&& forall|row: Project| #[trigger]
                list.contains(row) <==> rows.contains(row) && row.user_id == user
            &&& forall|i: int, j: int|
                0 <= i < j < list.len() ==> (#[trigger] list[i]).updated_at >= (
                #[trigger] list[j]).updated_at
        }),
{
    let less = fresh_first();
    let hit = of_user(user);
    let list = ordered(selected(rows, hit), less);
    lemma_orders_by(less, |a: Project| -(a.updated_at as int), |a: Project| a.id, false);
    law_full_listing(rows, hit, less);
    assert forall|i: int, j: int| 0 <= i < j < list.len() implies (
    #[trigger] list[i]).updated_at >= (#[trigger] list[j]).updated_at by {
        assert(!less(list[j], list[i]));
    }
}

/// A project is made as it is given, unless the storage refuses it.
pub proof fn law_project_is_made(rows: Seq<Project>, row: Project, verdict: Verdict<Seq<char>>)
    ensures
        create_step(rows, row, verdict) is Ok <==> verdict is Accepted,
        create_step(rows, row, verdict) matches Ok(after) ==> after == rows.push(row),
{
}

/// An update of a project changes what is given and keeps what is not, of the
/// user's project alone; whose it is, and its age, never change.
pub proof fn law_project_is_changed(
    rows: Seq<Project>,
    id: Seq<char>,
    user: Seq<char>,
    params: UpdateProjectParams,
    now: i64,
    verdict: Verdict<Seq<char>>,
)
    requires
        forall|i: int, j: int|
            0 <= i < rows.len() && 0 <= j < rows.len() && (#[trigger] rows[i]).id == (
            #[trigger] rows[j]).id ==> i == j,
    ensures
        update_step(rows, id, user, params, now, verdict) matches Ok((after, new)) ==> exists|
            k: int,
        |
            #![trigger rows[k]]
            {
                let old = rows[k];
                &&& verdict is Accepted
                &&& 0 <= k < rows.len()
                &&& after.len() == rows.len()
                &&& old.id == id
                &&& old.user_id == user
                &&& after[k] == new
                &&& new.id == id
                &&& new.user_id == user
                &&& new.created_at == old.created_at
                &&& new.updated_at == now
                &&& params.name is Some ==> new.name == params.name->0@
                &&& params.name is None ==> new.name == old.name
                &&& params.local_path is Some ==> new.local_path == params.local_path->0@
                &&& params.local_path is None ==> new.local_path == old.local_path
                &&& params.repository_url is Some ==> new.repository_url == opt_text(
                    params.repository_url->0,
                )
                &&& params.repository_url is None ==> new.repository_url == old.repository_url
                &&& params.default_branch is Some ==> new.default_branch == opt_text(
                    params.default_branch->0,
                )
                &&& params.default_branch is None ==> new.default_branch == old.default_branch
                &&& params.project_type is Some ==> new.project_type == params.project_type->0@
                &&& params.project_type is None ==> new.project_type == old.project_type
                &&& forall|i: int|
                    0 <= i < rows.len() && i != k ==> #[trigger] after[i] == rows[i]
            },
{
    let hit = project_of(id, user);
    lemma_lookup(rows, hit);
    if let Ok((after, new)) = update_step(rows, id, user, params, now, verdict) {
        let known = lookup(rows, hit)->0;
        let k = choose|k: int| 0 <= k < rows.len() && rows[k] == known;
        assert(hit(rows[k]));
        assert forall|i: int| 0 <= i < rows.len() && i != k implies #[trigger] after[i]
            == rows[i] by {
            assert(rows[i].id != rows[k].id);
        }
        assert(after[k] == new);
    }
}

/// Deleting a project deletes the user's project of that id and no other.
pub proof fn law_project_is_deleted(rows: Seq<Project>, id: Seq<char>, user: Seq<char>)
    ensures
        forall|row: Project| #[trigger]
            removed(rows, project_of(id, user)).contains(row) <==> rows.contains(row) && !(row.id
                == id && row.user_id == user),
{
    law_removed(rows, project_of(id, user));
}

/// The commands of a project are those that were saved last; no other project's
/// change.
pub proof fn law_commands_are_saved(rows: Seq<CommandProfile>, new: CommandProfile)
    ensures
        ({
            let after = put(rows, commands_with(new.project_id), commands_become(new), new);
            let own = |row: CommandProfile| row.project_id == new.project_id;
            &&& forall|i: int|
                0 <= i < rows.len() && !own(rows[i]) ==> #[trigger] after[i] == rows[i]
            &&& forall|i: int|
                0 <= i < rows.len() && own(rows[i]) ==> {
                    &&& own(#[trigger] after[i])
                    &&& after[i].install_command == new.install_command
                    &&& after[i].format_command == new.format_command
                    &&& after[i].lint_command == new.lint_command
                    &&& after[i].typecheck_command == new.typecheck_command
                    &&& after[i].unit_test_command == new.unit_test_command
                    &&& after[i].integration_test_command == new.integration_test_command
                    &&& after[i].e2e_command == new.e2e_command
                    &&& after[i].build_command == new.build_command
                    &&& after[i].security_scan_command == new.security_scan_command
                    &&& after[i].command_timeout_seconds == new.command_timeout_seconds
                    &&& after[i].updated_at == new.updated_at
                    &&& after.len() == rows.len()
                }
            &&& (forall|i: int| 0 <= i < rows.len() ==> !own(#[trigger] rows[i])) ==> after
                == rows.push(new)
        }),
{
    law_put(rows, commands_with(new.project_id), commands_become(new), new);
}

/// What a project runs on is what was saved last; no other project's changes.
pub proof fn law_runtime_is_saved(rows: Seq<RuntimeProfile>, new: RuntimeProfile)
    ensures
        ({
            let after = put(rows, runtime_with(new.project_id), runtime_becomes(new), new);
            let own = |row: RuntimeProfile| row.project_id == new.project_id;
            &&& forall|i: int|
                0 <= i < rows.len() && !own(rows[i]) ==> #[trigger] after[i] == rows[i]
            &&& forall|i: int|
                0 <= i < rows.len() && own(rows[i]) ==> {
                    &&& own(#[trigger] after[i])
                    &&& after[i].environment_kind == new.environment_kind
                    &&& after[i].language == new.language
                    &&& after[i].package_manager == new.package_manager
                    &&& after[i].runtime_version == new.runtime_version
                    &&& after[i].env_keys == new.env_keys
                    &&& after[i].metadata == new.metadata
                    &&& after[i].updated_at == new.updated_at
                    &&& after.len() == rows.len()
                }
            &&& (forall|i: int| 0 <= i < rows.len() ==> !own(#[trigger] rows[i])) ==> after
                == rows.push(new)
        }),
{
    law_put(rows, runtime_with(new.project_id), runtime_becomes(new), new);
}

/// What is known of a project's repository is what was saved last; no other
/// project's changes.
pub proof fn law_repository_is_saved(rows: Seq<RepositoryFacts>, new: RepositoryFacts)
    ensures
        ({
            let after = put(rows, repository_with(new.project_id), repository_becomes(new), new);
            let own = |row: RepositoryFacts| row.project_id == new.project_id;
            &&& forall|i: int|
                0 <= i < rows.len() && !own(rows[i]) ==> #[trigger] after[i] == rows[i]
            &&& forall|i: int|
                0 <= i < rows.len() && own(rows[i]) ==> {
                    &&& own(#[trigger] after[i])
                    &&& after[i].repository_url == new.repository_url
                    &&& after[i].default_branch == new.default_branch
                    &&& after[i].baseline_commit == new.baseline_commit
                    &&& after[i].repository_dirty == new.repository_dirty
                    &&& after[i].dirty_worktree_choice == new.dirty_worktree_choice
                    &&& after[i].dirty_snapshot_ref == new.dirty_snapshot_ref
                    &&& after[i].credential_reference == new.credential_reference
                    &&& after[i].detected_languages_json == new.detected_languages_json
                    &&& after[i].detected_package_managers_json
                        == new.detected_package_managers_json
                    &&& after[i].detected_rules_files_json == new.detected_rules_files_json
                    &&& after[i].monorepo_packages_json == new.monorepo_packages_json
                    &&& after[i].submodules_json == new.submodules_json
                    &&& after[i].lfs_detected == new.lfs_detected
                    &&& after[i].detected_at == new.detected_at
                    &&& after.len() == rows.len()
                }
            &&& (forall|i: int| 0 <= i < rows.len() ==> !own(#[trigger] rows[i])) ==> after
                == rows.push(new)
        }),
{
    law_put(rows, repository_with(new.project_id), repository_becomes(new), new);
}

/// The index of a project is the one that was saved last; no other project's
/// changes.
pub proof fn law_index_is_saved(rows: Seq<KnowledgeIndex>, new: KnowledgeIndex)
    ensures
        ({
            let after = put(rows, index_with(new.project_id), index_becomes(new), new);
            let own = |row: KnowledgeIndex| row.project_id == new.project_id;
            &&& forall|i: int|
                0 <= i < rows.len() && !own(rows[i]) ==> #[trigger] after[i] == rows[i]
            &&& forall|i: int|
                0 <= i < rows.len() && own(rows[i]) ==> {
                    &&& own(#[trigger] after[i])
                    &&& after[i].provider == new.provider
                    &&& after[i].provider_project_name == new.provider_project_name
                    &&& after[i].provider_version == new.provider_version
                    &&& after[i].status == new.status
                    &&& after[i].generation == new.generation
                    &&& after[i].source_commit == new.source_commit
                    &&& after[i].indexed_at == new.indexed_at
                    &&& after[i].changed_paths_json == new.changed_paths_json
                    &&& after[i].error_category == new.error_category
                    &&& after[i].updated_at == new.updated_at
                    &&& after.len() == rows.len()
                }
            &&& (forall|i: int| 0 <= i < rows.len() ==> !own(#[trigger] rows[i])) ==> after
                == rows.push(new)
        }),
{
    law_put(rows, index_with(new.project_id), index_becomes(new), new);
}

/// A committed generation leaves exactly its facts for the project, and every other
/// project's as they were; the index of the project is the one that was committed.
pub proof fn law_generation_is_committed(
    store: ProjectModel,
    index: KnowledgeIndex,
    facts: Seq<KnowledgeFact>,
)
    ensures
        commit_step(store, index, facts) matches Ok(after) ==> {
            &&& forall|row: KnowledgeFact| #[trigger]
                after.knowledge.contains(row) <==> facts.contains(row) || (
                store.knowledge.contains(row) && row.project_id != index.project_id)
            &&& forall|i: int|
                0 <= i < store.indexes.len() && store.indexes[i].project_id != index.project_id
                    ==> #[trigger] after.indexes[i] == store.indexes[i]
            &&& forall|i: int|
                0 <= i < after.indexes.len() && (#[trigger] after.indexes[i]).project_id
                    == index.project_id ==> after.indexes[i].generation == index.generation
                    && after.indexes[i].status == index.status && after.indexes[i].indexed_at
                    == index.indexed_at && after.indexes[i].source_commit == index.source_commit
            &&& after.projects == store.projects
            &&& after.links == store.links
            &&& after.contexts == store.contexts
        },
{
    if let Ok(after) = commit_step(store, index, facts) {
        let own = facts_with(index.project_id);
        let rest = removed(store.knowledge, own);
        law_removed(store.knowledge, own);
        assert(after.knowledge == rest + facts);
        assert forall|row: KnowledgeFact| #[trigger]
            after.knowledge.contains(row) <==> facts.contains(row) || (store.knowledge.contains(
                row,
            ) && row.project_id != index.project_id) by {
            if facts.contains(row) {
                let k = choose|k: int| 0 <= k < facts.len() && facts[k] == row;
                assert(after.knowledge[rest.len() + k] == row);
            }
            if rest.contains(row) {
                let k = choose|k: int| 0 <= k < rest.len() && rest[k] == row;
                assert(after.knowledge[k] == row);
            }
            if after.knowledge.contains(row) {
                let k = choose|k: int|
                    0 <= k < after.knowledge.len() && after.knowledge[k] == row;
                if k < rest.len() {
                    assert(rest[k] == row);
                } else {
                    assert(facts[k - rest.len()] == row);
                }
            }
        }
        let hit = index_with(index.project_id);
        law_put(store.indexes, hit, index_becomes(index), index);
        assert forall|i: int|
            0 <= i < after.indexes.len() && (#[trigger] after.indexes[i]).project_id
                == index.project_id implies after.indexes[i].generation == index.generation
            && after.indexes[i].status == index.status && after.indexes[i].indexed_at
            == index.indexed_at && after.indexes[i].source_commit == index.source_commit by {
            if i < store.indexes.len() {
                if hit(store.indexes[i]) {
                    assert(after.indexes[i] == index_becomes(index)(store.indexes[i]));
                } else {
                    assert(after.indexes[i] == store.indexes[i]);
                }
            }
        }
    }
}

/// Whether a user has a project.
pub open spec fn has_project(rows: Seq<Project>, id: Seq<char>, user: Seq<char>) -> bool {
    exists|i: int| 0 <= i < rows.len() && (#[trigger] rows[i]).id == id && rows[i].user_id == user
}

proof fn lemma_owns(store: ProjectModel, id: Seq<char>, user: Seq<char>)
    ensures
        store.owns(id, user) == has_project(store.projects, id, user),
{
    let hit = project_of(id, user);
    if store.owns(id, user) {
        let i = choose|i: int| 0 <= i < store.projects.len() && hit(#[trigger] store.projects[i]);
        assert(store.projects[i].id == id);
    }
    if has_project(store.projects, id, user) {
        let i = choose|i: int|
            0 <= i < store.projects.len() && (#[trigger] store.projects[i]).id == id
                && store.projects[i].user_id == user;
        assert(hit(store.projects[i]));
    }
}

/// What is kept for a project is found only for the user who has the project.
pub proof fn law_profiles_are_for_the_owner(store: ProjectModel, id: Seq<char>, user: Seq<char>)
    ensures
        lookup(store.commands, store.commands_of(id, user)) matches Some(row)
            ==> store.commands.contains(row) && row.project_id == id && has_project(
            store.projects,
            id,
            user,
        ),
        lookup(store.runtimes, store.runtime_of(id, user)) matches Some(row)
            ==> store.runtimes.contains(row) && row.project_id == id && has_project(
            store.projects,
            id,
            user,
        ),
        lookup(store.repositories, store.repository_of(id, user)) matches Some(row)
            ==> store.repositories.contains(row) && row.project_id == id && has_project(
            store.projects,
            id,
            user,
        ),
        lookup(store.indexes, store.index_of(id, user)) matches Some(row)
            ==> store.indexes.contains(row) && row.project_id == id && has_project(
            store.projects,
            id,
            user,
        ),
        lookup(store.contexts, store.context_of(id, user)) matches Some(row)
            ==> store.contexts.contains(row) && row.id == id && has_project(
            store.projects,
            row.project_id,
            user,
        ),
{
    lemma_owns(store, id, user);
    lemma_lookup(store.commands, store.commands_of(id, user));
    lemma_lookup(store.runtimes, store.runtime_of(id, user));
    lemma_lookup(store.repositories, store.repository_of(id, user));
    lemma_lookup(store.indexes, store.index_of(id, user));
    lemma_lookup(store.contexts, store.context_of(id, user));
    if let Some(row) = lookup(store.contexts, store.context_of(id, user)) {
        lemma_owns(store, row.project_id, user);
    }
}

/// And a user who has the project finds what is kept for it.
pub proof fn law_owner_finds_profiles(store: ProjectModel, id: Seq<char>, user: Seq<char>)
    requires
        has_project(store.projects, id, user),
    ensures
        lookup(store.commands, store.commands_of(id, user)) is None ==> forall|i: int|
            0 <= i < store.commands.len() ==> (#[trigger] store.commands[i]).project_id != id,
        lookup(store.runtimes, store.runtime_of(id, user)) is None ==> forall|i: int|
            0 <= i < store.runtimes.len() ==> (#[trigger] store.runtimes[i]).project_id != id,
        lookup(store.repositories, store.repository_of(id, user)) is None ==> forall|i: int|
            0 <= i < store.repositories.len() ==> (#[trigger] store.repositories[i]).project_id
                != id,
        lookup(store.indexes, store.index_of(id, user)) is None ==> forall|i: int|
            0 <= i < store.indexes.len() ==> (#[trigger] store.indexes[i]).project_id != id,
{
    lemma_owns(store, id, user);
    lemma_lookup(store.commands, store.commands_of(id, user));
    lemma_lookup(store.runtimes, store.runtime_of(id, user));
    lemma_lookup(store.repositories, store.repository_of(id, user));
    lemma_lookup(store.indexes, store.index_of(id, user));
    assert forall|i: int| 0 <= i < store.commands.len() && (
    #[trigger] store.commands[i]).project_id == id implies store.commands_of(id, user)(
        store.commands[i],
    ) by {}
    assert forall|i: int| 0 <= i < store.runtimes.len() && (
    #[trigger] store.runtimes[i]).project_id == id implies store.runtime_of(id, user)(
        store.runtimes[i],
    ) by {}
    assert forall|i: int|
        0 <= i < store.repositories.len() && (#[trigger] store.repositories[i]).project_id
            == id implies store.repository_of(id, user)(store.repositories[i]) by {}
    assert forall|i: int| 0 <= i < store.indexes.len() && (#[trigger] store.indexes[i]).project_id
        == id implies store.index_of(id, user)(store.indexes[i]) by {}
}

/// The facts that count are those of the generation that the project's index is
/// at, for the user who has the project, and no others.
pub proof fn law_current_facts(
    store: ProjectModel,
    id: Seq<char>,
    user: Seq<char>,
    row: KnowledgeFact,
)
    ensures
        store.current_facts(id, user)(row) <==> row.project_id == id && has_project(
            store.projects,
            id,
            user,
        ) && exists|i: int|
            0 <= i < store.indexes.len() && (#[trigger] store.indexes[i]).project_id == id
                && store.indexes[i].generation == row.generation,
{
    lemma_owns(store, id, user);
    let hit = index_at(id, row.generation);
    if exists_in(store.indexes, hit) {
        let i = choose|i: int| 0 <= i < store.indexes.len() && hit(#[trigger] store.indexes[i]);
        assert(store.indexes[i].project_id == id);
    }
    if exists|i: int|
        0 <= i < store.indexes.len() && (#[trigger] store.indexes[i]).project_id == id
            && store.indexes[i].generation == row.generation {
        let i = choose|i: int|
            0 <= i < store.indexes.len() && (#[trigger] store.indexes[i]).project_id == id
                && store.indexes[i].generation == row.generation;
        assert(hit(store.indexes[i]));
    }
}

/// A resource of a user is linked to the project that it was bound to last, since
/// then; no other link changes.
pub proof fn law_resource_is_bound(
    links: Seq<Link>,
    project: Seq<char>,
    user: Seq<char>,
    kind: Seq<char>,
    resource: Seq<char>,
    now: i64,
)
    ensures
        ({
            let link = new_link(project, user, kind, resource, now);
            let after = links_after(links, link);
            let own = |row: Link|
                row.user_id == user && row.resource_type == kind && row.resource_id == resource;
            &&& link.project_id == project
            &&& own(link)
            &&& link.created_at == now
            &&& forall|i: int|
                0 <= i < links.len() && !own(links[i]) ==> #[trigger] after[i] == links[i]
            &&& forall|i: int|
                0 <= i < links.len() && own(links[i]) ==> own(#[trigger] after[i])
                    && after[i].project_id == project && after[i].created_at == now && after.len()
                    == links.len()
            &&& (forall|i: int| 0 <= i < links.len() ==> !own(#[trigger] links[i])) ==> after
                == links.push(link)
        }),
{
    let link = new_link(project, user, kind, resource, now);
    law_put(links, link_of(user, kind, resource), link_becomes(link), link);
}

/// The list of links holds exactly those of the user and the project, for the user
/// who has the project, the latest first.
pub proof fn law_links_are_listed(store: ProjectModel, id: Seq<char>, user: Seq<char>)
    ensures
        ({
            let list = ordered(selected(store.links, store.links_of(id, user)), latest_first());
            &&& forall|row: Link| #[trigger]
                list.contains(row) <==> store.links.contains(row) && row.project_id == id
                    && row.user_id == user && has_project(store.projects, id, user)
            &&& forall|i: int, j: int|
                0 <= i < j < list.len() ==> (#[trigger] list[i]).created_at >= (
                #[trigger] list[j]).created_at
        }),
{
    let less = latest_first();
    let hit = store.links_of(id, user);
    let list = ordered(selected(store.links, hit), less);
    lemma_owns(store, id, user);
    lemma_orders_by(less, |a: Link| -(a.created_at as int), |a: Link| a.resource_id, false);
    law_full_listing(store.links, hit, less);
    assert forall|i: int, j: int| 0 <= i < j < list.len() implies (
    #[trigger] list[i]).created_at >= (#[trigger] list[j]).created_at by {
        assert(!less(list[j], list[i]));
    }
}

/// The project of a resource is a project of the user's that the resource is
/// linked to.
pub proof fn law_project_of_resource(
    store: ProjectModel,
    user: Seq<char>,
    kind: Seq<char>,
    resource: Seq<char>,
)
    ensures
        lookup(store.projects, store.project_for(user, kind, resource)) matches Some(row)
            ==> store.projects.contains(row) && row.user_id == user && is_linked(
            store.links,
            row.id,
            user,
            kind,
            resource,
        ),
        lookup(store.projects, store.project_for(user, kind, resource)) is None ==> forall|i: int|
            0 <= i < store.projects.len() ==> !((#[trigger] store.projects[i]).user_id == user
                && is_linked(store.links, store.projects[i].id, user, kind, resource)),
{
    let hit = store.project_for(user, kind, resource);
    lemma_lookup(store.projects, hit);
    assert forall|id: Seq<char>| #[trigger]
        is_linked(store.links, id, user, kind, resource) == exists_in(
            store.links,
            link_to(id, user, kind, resource),
        ) by {
        let link = link_to(id, user, kind, resource);
        if exists_in(store.links, link) {
            let i = choose|i: int| 0 <= i < store.links.len() && link(#[trigger] store.links[i]);
            assert(store.links[i].project_id == id);
        }
        if is_linked(store.links, id, user, kind, resource) {
            let i = choose|i: int|
                0 <= i < store.links.len() && (#[trigger] store.links[i]).project_id == id
                    && store.links[i].user_id == user && store.links[i].resource_type == kind
                    && store.links[i].resource_id == resource;
            assert(link(store.links[i]));
        }
    }
    if lookup(store.projects, hit) is None {
        assert forall|i: int| 0 <= i < store.projects.len() implies !((
        #[trigger] store.projects[i]).user_id == user && is_linked(
            store.links,
            store.projects[i].id,
            user,
            kind,
            resource,
        )) by {
            assert(!hit(store.projects[i]));
        }
    }
}

/// Whether a resource of a user is linked to a project.
pub open spec fn is_linked(
    links: Seq<Link>,
    project: Seq<char>,
    user: Seq<char>,
    kind: Seq<char>,
    resource: Seq<char>,
) -> bool {
    exists|i: int|
        0 <= i < links.len() && (#[trigger] links[i]).project_id == project && links[i].user_id
            == user && links[i].resource_type == kind && links[i].resource_id == resource
}

/// Whether a thing is a user's.
pub open spec fn has_thing(rows: Seq<OwnedThing>, id: Seq<char>, user: Seq<char>) -> bool {
    exists|i: int| 0 <= i < rows.len() && (#[trigger] rows[i]).id == id && rows[i].user_id == user
}

/// Whether a thing is in a conversation of a user's.
pub open spec fn has_thing_inside(
    rows: Seq<InConversation>,
    conversations: Seq<OwnedThing>,
    id: Seq<char>,
    user: Seq<char>,
) -> bool {
    exists|i: int|
        0 <= i < rows.len() && (#[trigger] rows[i]).id == id && has_thing(
            conversations,
            rows[i].conversation_id,
            user,
        )
}

proof fn lemma_has_thing(rows: Seq<OwnedThing>, id: Seq<char>, user: Seq<char>)
    ensures
        exists_in(rows, thing_of(id, user)) == has_thing(rows, id, user),
{
    let hit = thing_of(id, user);
    if exists_in(rows, hit) {
        let i = choose|i: int| 0 <= i < rows.len() && hit(#[trigger] rows[i]);
        assert(rows[i].id == id);
    }
    if has_thing(rows, id, user) {
        let i = choose|i: int|
            0 <= i < rows.len() && (#[trigger] rows[i]).id == id && rows[i].user_id == user;
        assert(hit(rows[i]));
    }
}

proof fn lemma_has_thing_inside(
    store: ProjectModel,
    rows: Seq<InConversation>,
    user: Seq<char>,
    id: Seq<char>,
)
    ensures
        store.in_own_conversation(rows, user, id) == has_thing_inside(
            rows,
            store.conversations,
            id,
            user,
        ),
{
    let hit = |row: InConversation|
        row.id == id && exists_in(store.conversations, thing_of(row.conversation_id, user));
    if exists_in(rows, hit) {
        let i = choose|i: int| 0 <= i < rows.len() && hit(#[trigger] rows[i]);
        lemma_has_thing(store.conversations, rows[i].conversation_id, user);
        assert(rows[i].id == id);
    }
    if has_thing_inside(rows, store.conversations, id, user) {
        let i = choose|i: int|
            0 <= i < rows.len() && (#[trigger] rows[i]).id == id && has_thing(
                store.conversations,
                rows[i].conversation_id,
                user,
            );
        lemma_has_thing(store.conversations, rows[i].conversation_id, user);
        assert(hit(rows[i]));
    }
}

/// A user owns their conversations and teams, and the scheduled jobs and channel
/// sessions in their conversations, and nothing else.
pub proof fn law_resource_ownership(
    store: ProjectModel,
    user: Seq<char>,
    kind: Seq<char>,
    id: Seq<char>,
)
    ensures
        store.resource_owned(user, kind, id) <==> {
            ||| kind == "conversation"@ && has_thing(store.conversations, id, user)
            ||| kind == "team"@ && has_thing(store.teams, id, user)
            ||| kind == "cron"@ && has_thing_inside(
                store.cron_jobs,
                store.conversations,
                id,
                user,
            )
            ||| kind == "channel"@ && has_thing_inside(
                store.channel_sessions,
                store.conversations,
                id,
                user,
            )
        },
{
    reveal_strlit("conversation");
    reveal_strlit("team");
    reveal_strlit("cron");
    reveal_strlit("channel");
    assert("conversation"@.len() == 12 && "team"@.len() == 4 && "cron"@.len() == 4
        && "channel"@.len() == 7);
    assert("team"@[0] == 't' && "cron"@[0] == 'c');
    lemma_has_thing(store.conversations, id, user);
    lemma_has_thing(store.teams, id, user);
    lemma_has_thing_inside(store, store.cron_jobs, user, id);
    lemma_has_thing_inside(store, store.channel_sessions, user, id);
}

/// The facts of a project are listed by kind: of two facts, the kind of the earlier
/// one does not come after that of the later one, and where the kinds are the same the
/// names do not, nor for one name the paths, nor for one path the lines.
pub proof fn law_facts_are_listed_by_kind(
    rows: Seq<KnowledgeFact>,
    hit: spec_fn(KnowledgeFact) -> bool,
)
    ensures
        ({
            let list = ordered(selected(rows, hit), by_kind());
            &&& forall|row: KnowledgeFact| #[trigger]
                list.contains(row) <==> rows.contains(row) && hit(row)
            &&& forall|i: int, j: int|
                0 <= i < j < list.len() ==> {
                    let a = #[trigger] list[i];
                    let b = #[trigger] list[j];
                    &&& !text_before(b.kind, a.kind)
                    &&& a.kind == b.kind ==> !text_before(b.name, a.name)
                    &&& a.kind == b.kind && a.name == b.name ==> !text_before(
                        b.source_path,
                        a.source_path,
                    )
                    &&& a.kind == b.kind && a.name == b.name && a.source_path == b.source_path
                        ==> a.source_line <= b.source_line
                }
        }),
{
    let less = by_kind();
    assert(orders(less)) by {
        lemma_by_kind();
    }
    law_full_listing(rows, hit, less);
    let list = ordered(selected(rows, hit), less);
    assert forall|i: int, j: int| 0 <= i < j < list.len() implies !less(
        #[trigger] list[j],
        #[trigger] list[i],
    ) by {}
}

proof fn lemma_by_kind()
    ensures
        orders(by_kind()),
{
    let less = by_kind();
    assert forall|a: KnowledgeFact, b: KnowledgeFact| #[trigger] less(a, b) implies !less(b, a) by {
        lemma_text_order(a.kind, b.kind);
        lemma_text_order(a.name, b.name);
        lemma_text_order(a.source_path, b.source_path);
        lemma_text_order(b.kind, a.kind);
        lemma_text_order(b.name, a.name);
        lemma_text_order(b.source_path, a.source_path);
    }
    assert forall|a: KnowledgeFact, b: KnowledgeFact, c: KnowledgeFact| #[trigger]
        less(a, c) && !less(b, c) implies #[trigger] less(a, b) by {
        lemma_goes_between(a.kind, b.kind, c.kind);
        lemma_goes_between(a.name, b.name, c.name);
        lemma_goes_between(a.source_path, b.source_path, c.source_path);
    }
}

/// What stands before a text stands before every text that does not.
proof fn lemma_goes_between(a: Seq<char>, b: Seq<char>, c: Seq<char>)
    ensures
        text_before(a, b) ==> !text_before(b, a) && a != b,
        text_before(b, c) ==> !text_before(c, b) && b != c,
        text_before(a, c) ==> !text_before(c, a) && a != c,
        !text_before(a, b) && !text_before(b, a) ==> a == b,
        !text_before(b, c) && !text_before(c, b) ==> b == c,
        text_before(a, c) && text_before(c, b) ==> text_before(a, b),
{
    lemma_text_order(a, b);
    lemma_text_order(b, a);
    lemma_text_order(b, c);
    lemma_text_order(c, b);
    lemma_text_order(a, c);
    lemma_text_order(c, a);
    if text_before(a, c) && text_before(c, b) {
        lemma_text_transitive(a, c, b);
    }
}

/// An operation that fails changes nothing, and one that does not came to its outcome.
pub proof fn law_failure_changes_nothing(
    expected: Result<ProjectModel, DbError<Seq<char>>>,
    result: Result<(), DbError>,
    written: Result<(Seq<Project>, Project), DbError<Seq<char>>>,
    given: Result<ProjectRow, DbError>,
    before: ProjectModel,
    after: ProjectModel,
)
    ensures
        store_changed(expected, result, before, after) ==> {
            &&& result matches Err(error) ==> after == before && expected == Err::<
                ProjectModel,
                DbError<Seq<char>>,
            >(error@)
            &&& result is Ok ==> expected == Ok::<ProjectModel, DbError<Seq<char>>>(after)
        },
        project_changed(written, given, before, after) ==> {
            &&& given matches Err(error) ==> after == before && written == Err::<
                (Seq<Project>, Project),
                DbError<Seq<char>>,
            >(error@)
            &&& given matches Ok(row) ==> written == Ok::<
                (Seq<Project>, Project),
                DbError<Seq<char>>,
            >((after.projects, row@)) && after == (ProjectModel {
                projects: after.projects,
                ..before
            })
        },
{
}

} // verus!

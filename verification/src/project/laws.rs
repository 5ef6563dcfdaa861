//! What the projects promise.
use crate::project::rows::{KnowledgeFact, KnowledgeIndex, Link, Project, UpdateProjectParams};
use crate::project::store::{
    commit_step, facts_with, index_at, index_becomes, index_with, link_of, link_to, links_after,
    project_becomes, project_merged, project_of, update_step, ProjectModel,
};
use crate::table::{
    exists_in, law_put_is_found, law_removed, law_selected, lemma_lookup, lemma_lookup_updated,
    lookup, removed, selected,
};
use crate::write::Verdict;
use vstd::prelude::*;

verus! {

/// A changed project is read as it was given back: with what the update gave,
/// and with what it held where the update gave nothing. No other project changes.
pub proof fn law_update_is_read(
    rows: Seq<Project>,
    project_id: Seq<char>,
    user_id: Seq<char>,
    params: UpdateProjectParams,
    now: i64,
    verdict: Verdict<Seq<char>>,
)
    ensures
        update_step(rows, project_id, user_id, params, now, verdict) matches Ok((after, project))
            ==> {
            &&& lookup(rows, project_of(project_id, user_id)) matches Some(known)
            &&& project == project_merged(known, params, now)
            &&& lookup(after, project_of(project_id, user_id)) == Some(project)
            &&& after.len() == rows.len()
            &&& forall|i: int|
                0 <= i < rows.len() && !project_of(project_id, user_id)(#[trigger] rows[i])
                    ==> after[i] == rows[i]
        },
{
    if let Ok((after, project)) = update_step(rows, project_id, user_id, params, now, verdict) {
        lemma_lookup(rows, project_of(project_id, user_id));
        lemma_lookup_updated(
            rows,
            project_of(project_id, user_id),
            project_becomes(project),
        );
    }
}

/// Nothing of a project is read by a user whose project it is not.
pub proof fn law_projects_are_private(
    store: ProjectModel,
    project_id: Seq<char>,
    user_id: Seq<char>,
)
    requires
        !store.owns(project_id, user_id),
    ensures
        lookup(store.projects, project_of(project_id, user_id)) is None,
        lookup(store.commands, store.commands_of(project_id, user_id)) is None,
        lookup(store.runtimes, store.runtime_of(project_id, user_id)) is None,
        lookup(store.repositories, store.repository_of(project_id, user_id)) is None,
        lookup(store.indexes, store.index_of(project_id, user_id)) is None,
        selected(store.knowledge, store.current_facts(project_id, user_id)).len() == 0,
        selected(store.links, store.links_of(project_id, user_id)).len() == 0,
{
    lemma_lookup(store.projects, project_of(project_id, user_id));
    lemma_lookup(store.commands, store.commands_of(project_id, user_id));
    lemma_lookup(store.runtimes, store.runtime_of(project_id, user_id));
    lemma_lookup(store.repositories, store.repository_of(project_id, user_id));
    lemma_lookup(store.indexes, store.index_of(project_id, user_id));
    let facts = selected(store.knowledge, store.current_facts(project_id, user_id));
    law_selected(store.knowledge, store.current_facts(project_id, user_id));
    if facts.len() > 0 {
        assert(facts.contains(facts[0]));
    }
    let links = selected(store.links, store.links_of(project_id, user_id));
    law_selected(store.links, store.links_of(project_id, user_id));
    if links.len() > 0 {
        assert(links.contains(links[0]));
    }
}

/// After a generation was committed, its user reads exactly its facts.
pub proof fn law_generation_is_current(
    store: ProjectModel,
    index: KnowledgeIndex,
    facts: Seq<KnowledgeFact>,
    user_id: Seq<char>,
)
    requires
        store.owns(index.project_id, user_id),
        forall|i: int|
            0 <= i < facts.len() ==> (#[trigger] facts[i]).project_id == index.project_id
                && facts[i].generation == index.generation,
    ensures
        commit_step(store, index, facts) matches Ok(after)
            ==> forall|fact: KnowledgeFact| #[trigger]
            selected(after.knowledge, after.current_facts(index.project_id, user_id)).contains(fact)
                == facts.contains(fact),
{
    if let Ok(after) = commit_step(store, index, facts) {
        let project_id = index.project_id;
        let rest = removed(store.knowledge, facts_with(project_id));
        let hit = after.current_facts(project_id, user_id);
        law_removed(store.knowledge, facts_with(project_id));
        law_selected(after.knowledge, hit);
        law_put_is_found(store.indexes, index_with(project_id), index_becomes(index), index);
        lemma_lookup(after.indexes, index_with(project_id));
        let now = lookup(after.indexes, index_with(project_id))->0;
        let at = choose|k: int| 0 <= k < after.indexes.len() && after.indexes[k] == now;
        assert(index_at(project_id, index.generation)(after.indexes[at]));
        assert forall|fact: KnowledgeFact| #[trigger]
            selected(after.knowledge, hit).contains(fact) == facts.contains(fact) by {
            assert(after.knowledge == rest + facts);
            if facts.contains(fact) {
                let j = choose|j: int| 0 <= j < facts.len() && facts[j] == fact;
                assert(after.knowledge[rest.len() + j] == fact);
                assert(hit(fact));
            }
            if after.knowledge.contains(fact) && hit(fact) {
                let j = choose|j: int| 0 <= j < after.knowledge.len() && after.knowledge[j] == fact;
                if j < rest.len() {
                    assert(rest[j] == fact);
                    assert(rest.contains(fact));
                } else {
                    assert(facts[j - rest.len()] == fact);
                }
            }
        }
    }
}

/// Committing a generation leaves the facts and the indexes of other projects as
/// they were.
pub proof fn law_commit_spares_others(
    store: ProjectModel,
    index: KnowledgeIndex,
    facts: Seq<KnowledgeFact>,
    other: Seq<char>,
)
    requires
        other != index.project_id,
        forall|i: int| 0 <= i < facts.len()
            ==> (#[trigger] facts[i]).project_id == index.project_id,
    ensures
        commit_step(store, index, facts) matches Ok(after) ==> {
            &&& forall|fact: KnowledgeFact|
                fact.project_id == other ==> (#[trigger] after.knowledge.contains(fact)
                    == store.knowledge.contains(fact))
            &&& forall|row: KnowledgeIndex|
                row.project_id == other ==> (#[trigger] after.indexes.contains(row)
                    == store.indexes.contains(row))
        },
{
    if let Ok(after) = commit_step(store, index, facts) {
        let rest = removed(store.knowledge, facts_with(index.project_id));
        law_removed(store.knowledge, facts_with(index.project_id));
        assert forall|fact: KnowledgeFact| fact.project_id == other implies (
        #[trigger] after.knowledge.contains(fact) == store.knowledge.contains(fact)) by {
            assert(rest.contains(fact) == (store.knowledge.contains(fact) && !facts_with(
                index.project_id,
            )(fact)));
            if rest.contains(fact) {
                let j = choose|j: int| 0 <= j < rest.len() && rest[j] == fact;
                assert(after.knowledge[j] == fact);
            }
            if after.knowledge.contains(fact) {
                let j = choose|j: int| 0 <= j < after.knowledge.len() && after.knowledge[j] == fact;
                if j < rest.len() {
                    assert(rest[j] == fact);
                } else {
                    assert(facts[j - rest.len()] == fact);
                }
            }
        }
        assert forall|row: KnowledgeIndex| row.project_id == other implies (
        #[trigger] after.indexes.contains(row) == store.indexes.contains(row)) by {
            if store.indexes.contains(row) {
                let j = choose|j: int| 0 <= j < store.indexes.len() && store.indexes[j] == row;
                assert(after.indexes[j] == row);
            }
            if after.indexes.contains(row) {
                let j = choose|j: int| 0 <= j < after.indexes.len() && after.indexes[j] == row;
                if j < store.indexes.len() {
                    assert(store.indexes[j] == row);
                }
            }
        }
    }
}

/// A resource that was linked belongs to that project of the user and to no
/// other.
pub proof fn law_resource_has_one_project(links: Seq<Link>, link: Link, project_id: Seq<char>)
    ensures
        exists_in(
            links_after(links, link),
            link_to(project_id, link.user_id, link.resource_type, link.resource_id),
        ) == (project_id == link.project_id),
{
    let hit = link_of(link.user_id, link.resource_type, link.resource_id);
    let to = link_to(project_id, link.user_id, link.resource_type, link.resource_id);
    let after = links_after(links, link);
    if exists_in(links, hit) {
        let k = choose|k: int| 0 <= k < links.len() && hit(#[trigger] links[k]);
        assert(after[k].project_id == link.project_id);
        if project_id == link.project_id {
            assert(to(after[k]));
        }
        if exists_in(after, to) {
            let j = choose|j: int| 0 <= j < after.len() && to(#[trigger] after[j]);
            assert(hit(links[j]));
        }
    } else {
        assert(after[links.len() as int] == link);
        if project_id == link.project_id {
            assert(to(after[links.len() as int]));
        }
        if exists_in(after, to) {
            let j = choose|j: int| 0 <= j < after.len() && to(#[trigger] after[j]);
            if j < links.len() {
                assert(hit(links[j]));
            }
        }
    }
}

} // verus!

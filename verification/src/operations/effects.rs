//! What operations on running development come to, told by the rows.
use crate::error::DbError;
use crate::operations::leases::{
    after_decision, alive, being_cleaned, changed_first, can_clean, can_orphan, cleaned,
    cleanup_sequence, is_being_cleaned, is_stale, is_working, lease_becomes, lease_with_id,
    leases_of, open_to, orphaned, stale_first,
};
use crate::operations::recovery::{
    claim_step, claimed, latest_recovery, recoveries_of, recovery_becomes, recovery_by_key,
    stopped_run, Claim,
};
use crate::development::rows::Run;
use crate::operations::rows::{
    Alert, Audit, Columns, Environment, Policy, Price, PricedUsage, Recovery, ResourceLease, Secret,
    SecretGrant, Usage, UsageDimension,
};
use crate::operations::store::{
    alert_becomes, alert_by_key, alert_of, alert_turns, alerts_of, audit_of, clamped,
    environment_becomes, environment_of, fresh_alert, grant_becomes, grant_for, grants_of,
    latest_event, latest_price, latest_secret, law_price_in_effect, oldest_grant, policy_becomes,
    policy_of, price_becomes, price_by, price_of, secret_of, secret_revoked, secrets_of,
    usable_secret, OperationsModel, MAX_LISTED,
};
use crate::operations::usage::{
    cache_read, cache_write, cost, duration, full_total, in_conversation, in_dimension, input,
    known_cost, latest_use, output, plain, retries, summed, total, unknown_cost, unpriced,
    use_with_id, uses_after, uses_of, MAX_USES,
};
use crate::table::{
    law_full_listing, law_least, law_limited_listing, law_put, limited, law_selected, least,
    lemma_lookup, lemma_orders_by, lookup, ordered, orders, put, selected, updated,
};
use crate::text::{lemma_text_order, lemma_text_transitive, text_before};
use vstd::prelude::*;

verus! {

// ----------------------------------------------------------------------------
// Policies, alerts, environments, secrets, grants and prices
// ----------------------------------------------------------------------------

/// Whether a policy has what is saved of it.
pub open spec fn policy_is_saved(row: Policy, new: Policy) -> bool {
    &&& row.user_id == new.user_id
    &&& row.project_id == new.project_id
    &&& row.isolation_mode == new.isolation_mode
    &&& row.container_image == new.container_image
    &&& row.devcontainer_config_path == new.devcontainer_config_path
    &&& row.container_cpu_millis == new.container_cpu_millis
    &&& row.container_memory_mb == new.container_memory_mb
    &&& row.container_pids_limit == new.container_pids_limit
    &&& row.network_mode == new.network_mode
    &&& row.allowed_secret_keys_json == new.allowed_secret_keys_json
    &&& row.allowed_commands_json == new.allowed_commands_json
    &&& row.protected_paths_json == new.protected_paths_json
    &&& row.allowed_network_hosts_json == new.allowed_network_hosts_json
    &&& row.protected_branches_json == new.protected_branches_json
    &&& row.dangerous_confirmation_count == new.dangerous_confirmation_count
    &&& row.max_duration_ms == new.max_duration_ms
    &&& row.max_parallel_agents == new.max_parallel_agents
    &&& row.max_retries == new.max_retries
    &&& row.max_cost_microunits == new.max_cost_microunits
    &&& row.max_total_tokens == new.max_total_tokens
    &&& row.fallback_model == new.fallback_model
    &&& row.alert_percent == new.alert_percent
    &&& row.over_limit_action == new.over_limit_action
    &&& row.updated_at == new.updated_at
}

/// Saving a policy makes the one of its user and project what is saved, or adds
/// it; its id and its age stay, and no other policy changes.
pub proof fn law_policy_is_saved(rows: Seq<Policy>, new: Policy)
    ensures
        ({
            let after = put(
                rows,
                policy_of(new.user_id, new.project_id),
                policy_becomes(new),
                new,
            );
            &&& forall|i: int|
                0 <= i < rows.len() && !(rows[i].user_id == new.user_id && rows[i].project_id
                    == new.project_id) ==> #[trigger] after[i] == rows[i]
            &&& forall|i: int|
                0 <= i < rows.len() && rows[i].user_id == new.user_id && rows[i].project_id
                    == new.project_id ==> policy_is_saved(#[trigger] after[i], new) && after[i].id
                    == rows[i].id && after[i].created_at == rows[i].created_at && after.len()
                    == rows.len()
            &&& (forall|i: int|
                0 <= i < rows.len() ==> !((#[trigger] rows[i]).user_id == new.user_id
                    && rows[i].project_id == new.project_id)) ==> after == rows.push(new)
        }),
{
    law_put(rows, policy_of(new.user_id, new.project_id), policy_becomes(new), new);
}

/// An alert of a user with a known key takes what is new over and keeps its id,
/// project and age; one with a new key is added. No other alert changes.
pub proof fn law_alert_is_saved(rows: Seq<Alert>, new: Alert)
    ensures
        ({
            let after = put(
                rows,
                alert_by_key(new.user_id, new.dedupe_key),
                alert_becomes(new),
                new,
            );
            &&& forall|i: int|
                0 <= i < rows.len() && !(rows[i].user_id == new.user_id && rows[i].dedupe_key
                    == new.dedupe_key) ==> #[trigger] after[i] == rows[i]
            &&& forall|i: int|
                0 <= i < rows.len() && rows[i].user_id == new.user_id && rows[i].dedupe_key
                    == new.dedupe_key ==> {
                    &&& (#[trigger] after[i]).id == rows[i].id
                    &&& after[i].user_id == new.user_id
                    &&& after[i].dedupe_key == new.dedupe_key
                    &&& after[i].project_id == rows[i].project_id
                    &&& after[i].created_at == rows[i].created_at
                    &&& after[i].run_id == new.run_id
                    &&& after[i].alert_type == new.alert_type
                    &&& after[i].severity == new.severity
                    &&& after[i].status == new.status
                    &&& after[i].message == new.message
                    &&& after[i].updated_at == new.updated_at
                    &&& after[i].resolved_at == new.resolved_at
                    &&& after.len() == rows.len()
                }
            &&& (forall|i: int|
                0 <= i < rows.len() ==> !((#[trigger] rows[i]).user_id == new.user_id
                    && rows[i].dedupe_key == new.dedupe_key)) ==> after == rows.push(new)
        }),
{
    law_put(rows, alert_by_key(new.user_id, new.dedupe_key), alert_becomes(new), new);
}

/// A new status of a user's alert says so, and when it was resolved; nothing else
/// of it or of any other changes.
pub proof fn law_alert_turns(
    rows: Seq<Alert>,
    user: Seq<char>,
    id: Seq<char>,
    status: Seq<char>,
    resolved_at: Option<i64>,
    now: i64,
    i: int,
)
    requires
        0 <= i < rows.len(),
    ensures
        ({
            let after = updated(rows, alert_of(user, id), alert_turns(status, resolved_at, now));
            let own = rows[i].user_id == user && rows[i].id == id;
            &&& after.len() == rows.len()
            &&& !own ==> after[i] == rows[i]
            &&& own ==> after[i].status == status && after[i].resolved_at == resolved_at
                && after[i].updated_at == now && after[i].id == id && after[i].user_id == user
                && after[i].message == rows[i].message && after[i].severity == rows[i].severity
                && after[i].alert_type == rows[i].alert_type && after[i].dedupe_key
                == rows[i].dedupe_key && after[i].project_id == rows[i].project_id
                && after[i].run_id == rows[i].run_id && after[i].created_at == rows[i].created_at
        }),
{
}

/// The list of alerts holds exactly the user's of the project, of the run that is
/// named, without the resolved ones where only open ones are wanted; the one that
/// changed last comes first.
pub proof fn law_alerts_are_listed(
    rows: Seq<Alert>,
    user: Seq<char>,
    project: Seq<char>,
    run: Option<Seq<char>>,
    active_only: bool,
)
    ensures
        ({
            let list = ordered(
                selected(rows, alerts_of(user, project, run, active_only)),
                fresh_alert(),
            );
            &&& forall|row: Alert| #[trigger]
                list.contains(row) <==> rows.contains(row) && row.user_id == user && row.project_id
                    == project && (run is Some ==> row.run_id == run) && (active_only ==> row.status
                    != "resolved"@)
            &&& forall|i: int, j: int|
                0 <= i < j < list.len() ==> (#[trigger] list[i]).updated_at >= (
                #[trigger] list[j]).updated_at
        }),
{
    let less = fresh_alert();
    let hit = alerts_of(user, project, run, active_only);
    let list = ordered(selected(rows, hit), less);
    lemma_orders_by(less, |a: Alert| -(a.updated_at as int), |a: Alert| a.id, false);
    law_full_listing(rows, hit, less);
    assert forall|i: int, j: int| 0 <= i < j < list.len() implies (#[trigger] list[i]).updated_at
        >= (#[trigger] list[j]).updated_at by {
        assert(!less(list[j], list[i]));
    }
}

/// Binding an environment to what runs in it says of which kind it is and since
/// when, of that binding alone; a new one is added.
pub proof fn law_environment_is_bound(
    rows: Seq<Environment>,
    new: Environment,
)
    ensures
        ({
            let after = put(
                rows,
                environment_of(new.entity_type, new.entity_id, new.environment_id),
                environment_becomes(new.environment_kind, new.bound_at),
                new,
            );
            let own = |row: Environment|
                row.entity_type == new.entity_type && row.entity_id == new.entity_id
                    && row.environment_id == new.environment_id;
            &&& forall|i: int|
                0 <= i < rows.len() && !own(rows[i]) ==> #[trigger] after[i] == rows[i]
            &&& forall|i: int|
                0 <= i < rows.len() && own(rows[i]) ==> (#[trigger] after[i]).environment_kind
                    == new.environment_kind && after[i].bound_at == new.bound_at && own(after[i])
                    && after.len() == rows.len()
            &&& (forall|i: int| 0 <= i < rows.len() ==> !own(#[trigger] rows[i])) ==> after
                == rows.push(new)
        }),
{
    let hit = environment_of(new.entity_type, new.entity_id, new.environment_id);
    law_put(rows, hit, environment_becomes(new.environment_kind, new.bound_at), new);
}

/// Taking a secret back takes the user's usable secret of that id back, and says
/// when; its value stays stored, and no other secret changes.
pub proof fn law_secret_is_revoked(
    rows: Seq<Secret>,
    user: Seq<char>,
    id: Seq<char>,
    at: i64,
    i: int,
)
    requires
        0 <= i < rows.len(),
    ensures
        ({
            let after = updated(rows, usable_secret(user, id), secret_revoked(at));
            let own = rows[i].user_id == user && rows[i].id == id && rows[i].status == "active"@;
            &&& after.len() == rows.len()
            &&& !own ==> after[i] == rows[i]
            &&& own ==> after[i].status == "revoked"@ && after[i].revoked_at == Some(at)
                && after[i].updated_at == at && after[i].id == id && after[i].user_id == user
                && after[i].project_id == rows[i].project_id && after[i].name == rows[i].name
                && after[i].encrypted_value == rows[i].encrypted_value && after[i].key_version
                == rows[i].key_version && after[i].expires_at == rows[i].expires_at
                && after[i].created_at == rows[i].created_at
        }),
{
}

/// A secret is found only for its user.
pub proof fn law_secret_is_for_its_user(rows: Seq<Secret>, user: Seq<char>, id: Seq<char>)
    ensures
        lookup(rows, secret_of(user, id)) matches Some(row) ==> rows.contains(row) && row.id == id
            && row.user_id == user,
        lookup(rows, secret_of(user, id)) is None ==> forall|i: int|
            0 <= i < rows.len() ==> !((#[trigger] rows[i]).id == id && rows[i].user_id == user),
{
    let hit = secret_of(user, id);
    lemma_lookup(rows, hit);
    if lookup(rows, hit) is None {
        assert forall|i: int| 0 <= i < rows.len() implies !((#[trigger] rows[i]).id == id
            && rows[i].user_id == user) by {
            assert(!hit(rows[i]));
        }
    }
}

/// A grant of a secret for a scope and a name takes the new status and times over
/// and keeps the rest; a new one is added. No other grant changes.
pub proof fn law_secret_grant_is_saved(rows: Seq<SecretGrant>, new: SecretGrant)
    ensures
        ({
            let after = put(
                rows,
                grant_for(
                    new.user_id,
                    new.secret_id,
                    new.scope_type,
                    new.scope_id,
                    new.environment_key,
                ),
                grant_becomes(new),
                new,
            );
            let own = |row: SecretGrant|
                row.user_id == new.user_id && row.secret_id == new.secret_id && row.scope_type
                    == new.scope_type && row.scope_id == new.scope_id && row.environment_key
                    == new.environment_key;
            &&& forall|i: int|
                0 <= i < rows.len() && !own(rows[i]) ==> #[trigger] after[i] == rows[i]
            &&& forall|i: int|
                0 <= i < rows.len() && own(rows[i]) ==> {
                    &&& own(#[trigger] after[i])
                    &&& after[i].id == rows[i].id
                    &&& after[i].project_id == rows[i].project_id
                    &&& after[i].created_at == rows[i].created_at
                    &&& after[i].status == new.status
                    &&& after[i].expires_at == new.expires_at
                    &&& after[i].revoked_at == new.revoked_at
                    &&& after[i].updated_at == new.updated_at
                    &&& after.len() == rows.len()
                }
            &&& (forall|i: int| 0 <= i < rows.len() ==> !own(#[trigger] rows[i])) ==> after
                == rows.push(new)
        }),
{
    let hit = grant_for(
        new.user_id,
        new.secret_id,
        new.scope_type,
        new.scope_id,
        new.environment_key,
    );
    law_put(rows, hit, grant_becomes(new), new);
}

/// A price of a model from a source in a version takes the new amounts and their
/// date over and keeps its id and age; a new one is added. No other price changes.
pub proof fn law_price_is_saved(rows: Seq<Price>, new: Price)
    ensures
        ({
            let after = put(
                rows,
                price_of(new.provider, new.model, new.source_id, new.version),
                price_becomes(new),
                new,
            );
            let own = |row: Price|
                row.provider == new.provider && row.model == new.model && row.source_id
                    == new.source_id && row.version == new.version;
            &&& forall|i: int|
                0 <= i < rows.len() && !own(rows[i]) ==> #[trigger] after[i] == rows[i]
            &&& forall|i: int|
                0 <= i < rows.len() && own(rows[i]) ==> {
                    &&& own(#[trigger] after[i])
                    &&& after[i].id == rows[i].id
                    &&& after[i].created_at == rows[i].created_at
                    &&& after[i].input_per_million_microunits == new.input_per_million_microunits
                    &&& after[i].output_per_million_microunits == new.output_per_million_microunits
                    &&& after[i].cache_read_per_million_microunits
                        == new.cache_read_per_million_microunits
                    &&& after[i].cache_write_per_million_microunits
                        == new.cache_write_per_million_microunits
                    &&& after[i].effective_at == new.effective_at
                    &&& after.len() == rows.len()
                }
            &&& (forall|i: int| 0 <= i < rows.len() ==> !own(#[trigger] rows[i])) ==> after
                == rows.push(new)
        }),
{
    let hit = price_of(new.provider, new.model, new.source_id, new.version);
    law_put(rows, hit, price_becomes(new), new);
}

// ----------------------------------------------------------------------------
// Held resources
// ----------------------------------------------------------------------------

/// Whether a lease is on what it was on, for whom it was.
pub open spec fn holds_the_same(new: ResourceLease, old: ResourceLease) -> bool {
    &&& new.id == old.id
    &&& new.user_id == old.user_id
    &&& new.project_id == old.project_id
    &&& new.run_id == old.run_id
    &&& new.task_id == old.task_id
    &&& new.turn_id == old.turn_id
    &&& new.gate_id == old.gate_id
    &&& new.environment_id == old.environment_id
    &&& new.environment_kind == old.environment_kind
    &&& new.resource_kind == old.resource_kind
    &&& new.resource_identifier == old.resource_identifier
    &&& new.cleanup_order == old.cleanup_order
    &&& new.created_at == old.created_at
}

/// Whether a change is later than the last one.
pub open spec fn is_later(new: ResourceLease, old: ResourceLease, at: i64) -> bool {
    old.updated_at < i64::MAX ==> new.updated_at > old.updated_at && new.updated_at >= at
}

/// Saving a lease of a known id takes what is new over, but for a recovery that
/// was decided, which stands with its owner; a new one is added. No other lease
/// changes.
pub proof fn law_resource_lease_is_saved(rows: Seq<ResourceLease>, new: ResourceLease)
    ensures
        ({
            let after = put(rows, lease_with_id(new.id), lease_becomes(new), new);
            &&& forall|i: int|
                0 <= i < rows.len() && rows[i].id != new.id ==> #[trigger] after[i] == rows[i]
            &&& forall|i: int|
                0 <= i < rows.len() && rows[i].id == new.id ==> {
                    &&& holds_the_same(#[trigger] after[i], rows[i])
                    &&& after[i].status == new.status
                    &&& after[i].accepts_work == new.accepts_work
                    &&& after[i].heartbeat_at == new.heartbeat_at
                    &&& after[i].expires_at == new.expires_at
                    &&& after[i].cleanup_status == new.cleanup_status
                    &&& after[i].cleanup_result == new.cleanup_result
                    &&& after[i].updated_at == new.updated_at
                    &&& after[i].terminal_at == new.terminal_at
                    &&& rows[i].recovery_decision is Some ==> after[i].recovery_decision
                        == rows[i].recovery_decision && after[i].owner_instance_id
                        == rows[i].owner_instance_id
                    &&& rows[i].recovery_decision is None ==> after[i].recovery_decision
                        == new.recovery_decision && after[i].owner_instance_id
                        == new.owner_instance_id
                    &&& after.len() == rows.len()
                }
            &&& (forall|i: int| 0 <= i < rows.len() ==> (#[trigger] rows[i]).id != new.id) ==> after
                == rows.push(new)
        }),
{
    law_put(rows, lease_with_id(new.id), lease_becomes(new), new);
    assert forall|i: int| 0 <= i < rows.len() implies lease_with_id(new.id)(#[trigger] rows[i]) == (
    rows[i].id == new.id) by {}
}

/// Cleaning up is begun only on a lease that is as it was seen, active, left alone
/// or not cleaned up before; it then stops, takes no more work, and is the
/// cleaner's for as long as it was for.
pub proof fn law_cleanup_is_begun(
    rows: Seq<ResourceLease>,
    id: Seq<char>,
    owner: Seq<char>,
    status: Seq<char>,
    updated_at: i64,
    cleaner: Seq<char>,
    at: i64,
    i: int,
)
    requires
        0 <= i < rows.len(),
    ensures
        ({
            let after = updated(
                rows,
                can_clean(id, owner, status, updated_at),
                being_cleaned(cleaner, at),
            );
            let old = rows[i];
            let new = after[i];
            let free = old.id == id && old.owner_instance_id == Some(owner) && old.status == status
                && old.updated_at == updated_at && (((old.status == "active"@ || old.status
                == "orphaned"@) && old.terminal_at is None) || old.status == "cleanup_failed"@);
            &&& after.len() == rows.len()
            &&& !free ==> new == old
            &&& free ==> {
                &&& holds_the_same(new, old)
                &&& new.owner_instance_id == Some(cleaner)
                &&& new.status == "stopping"@
                &&& !new.accepts_work
                &&& new.heartbeat_at == at
                &&& old.expires_at > old.heartbeat_at + 1 && at + (old.expires_at
                    - old.heartbeat_at) <= i64::MAX && at + (old.expires_at - old.heartbeat_at)
                    >= i64::MIN ==> new.expires_at == at + (old.expires_at - old.heartbeat_at)
                &&& new.cleanup_status == Some("stopping"@)
                &&& new.cleanup_result is None
                &&& new.terminal_at is None
                &&& new.recovery_decision == old.recovery_decision
                &&& is_later(new, old, at)
            }
        }),
{
}

/// Cleaning up is ended only by the cleaner, on the lease as it was seen: it is
/// released where that went well, and otherwise failed and can be begun again.
pub proof fn law_cleanup_is_ended(
    rows: Seq<ResourceLease>,
    id: Seq<char>,
    cleaner: Seq<char>,
    updated_at: i64,
    succeeded: bool,
    result: Seq<char>,
    at: i64,
    i: int,
)
    requires
        0 <= i < rows.len(),
    ensures
        ({
            let after = updated(
                rows,
                is_being_cleaned(id, cleaner, updated_at),
                cleaned(succeeded, result, at),
            );
            let old = rows[i];
            let own = old.id == id && old.owner_instance_id == Some(cleaner) && old.status
                == "stopping"@ && old.updated_at == updated_at && old.terminal_at is None;
            &&& after.len() == rows.len()
            &&& !own ==> after[i] == old
            &&& own ==> is_ended(after[i], old, succeeded, result, at)
        }),
{
}

/// Whether a lease is over: released, or not cleaned up.
pub open spec fn is_ended(
    new: ResourceLease,
    old: ResourceLease,
    succeeded: bool,
    result: Seq<char>,
    at: i64,
) -> bool {
    &&& holds_the_same(new, old)
    &&& succeeded ==> new.status == "released"@ && new.cleanup_status == Some("released"@)
    &&& !succeeded ==> new.status == "cleanup_failed"@ && new.cleanup_status == Some("failed"@)
    &&& !new.accepts_work
    &&& new.cleanup_result == Some(result)
    &&& new.terminal_at == Some(at)
    &&& new.owner_instance_id == old.owner_instance_id
    &&& new.heartbeat_at == old.heartbeat_at
    &&& new.expires_at == old.expires_at
    &&& new.recovery_decision == old.recovery_decision
    &&& is_later(new, old, at)
}

/// Whether a lease is an owner's that works, as it was seen.
pub open spec fn works_for(
    row: ResourceLease,
    id: Seq<char>,
    owner: Seq<char>,
    updated_at: i64,
) -> bool {
    &&& row.id == id
    &&& row.owner_instance_id == Some(owner)
    &&& row.updated_at == updated_at
    &&& row.status == "active"@
    &&& row.accepts_work
    &&& row.terminal_at is None
}

/// A sign of life is heard only from the owner of a lease that works, as it was
/// seen; it moves the lease's end and nothing else. A lease is completed only by
/// its owner as well, and is then released.
pub proof fn law_owner_keeps_or_ends_lease(
    rows: Seq<ResourceLease>,
    id: Seq<char>,
    owner: Seq<char>,
    updated_at: i64,
    at: i64,
    end: i64,
    result: Seq<char>,
    i: int,
)
    requires
        0 <= i < rows.len(),
    ensures
        ({
            let after = updated(rows, is_working(id, owner, updated_at), alive(at, end));
            let old = rows[i];
            let new = after[i];
            &&& after.len() == rows.len()
            &&& !works_for(old, id, owner, updated_at) ==> new == old
            &&& works_for(old, id, owner, updated_at) ==> holds_the_same(new, old)
                && new.heartbeat_at == at && new.expires_at == end && new.status == old.status
                && new.accepts_work && new.owner_instance_id == old.owner_instance_id
                && new.cleanup_status == old.cleanup_status && new.cleanup_result
                == old.cleanup_result && new.recovery_decision == old.recovery_decision
                && new.terminal_at is None && is_later(new, old, at)
        }),
        ({
            let after = updated(
                rows,
                is_working(id, owner, updated_at),
                cleaned(true, result, at),
            );
            let old = rows[i];
            &&& after.len() == rows.len()
            &&& !works_for(old, id, owner, updated_at) ==> after[i] == old
            &&& works_for(old, id, owner, updated_at) ==> is_ended(after[i], old, true, result, at)
        }),
{
}

/// A lease is taken for orphaned only where its owner and its end are as they were
/// seen, and it was not over; it takes no more work and is open to a decision.
pub proof fn law_lease_is_orphaned(
    rows: Seq<ResourceLease>,
    id: Seq<char>,
    owner: Seq<char>,
    end: i64,
    at: i64,
    i: int,
)
    requires
        0 <= i < rows.len(),
    ensures
        ({
            let after = updated(rows, can_orphan(id, owner, end), orphaned(at));
            let old = rows[i];
            let new = after[i];
            let left = old.id == id && old.owner_instance_id == Some(owner) && old.expires_at == end
                && (old.status == "active"@ || old.status == "stopping"@) && old.terminal_at
                is None;
            &&& after.len() == rows.len()
            &&& !left ==> new == old
            &&& left ==> holds_the_same(new, old) && new.status == "orphaned"@
                && !new.accepts_work && new.recovery_decision is None && new.owner_instance_id
                == old.owner_instance_id && new.heartbeat_at == old.heartbeat_at && new.expires_at
                == old.expires_at && new.cleanup_status == old.cleanup_status && new.terminal_at
                is None && is_later(new, old, at)
        }),
{
}

/// A lease is taken over only where it is orphaned and no other decision was made;
/// it is then active, takes work and is the new owner's. Any other decision is put
/// on a lease without one, and changes nothing else.
pub proof fn law_recovery_is_decided(
    rows: Seq<ResourceLease>,
    id: Seq<char>,
    decision: Seq<char>,
    owner: Option<Seq<char>>,
    at: i64,
    i: int,
)
    requires
        0 <= i < rows.len(),
    ensures
        ({
            let after = updated(rows, open_to(id, decision), after_decision(decision, owner, at));
            let old = rows[i];
            let new = after[i];
            let free = old.id == id && old.status == "orphaned"@ && old.terminal_at is None && (
            old.recovery_decision is None || old.recovery_decision == Some("takeover"@));
            let undecided = old.id == id && old.recovery_decision is None;
            &&& after.len() == rows.len()
            &&& decision == "takeover"@ && !free ==> new == old
            &&& decision == "takeover"@ && free ==> holds_the_same(new, old) && new.status
                == "active"@ && new.accepts_work && new.owner_instance_id == owner
                && new.recovery_decision == Some("takeover"@) && new.heartbeat_at == at
                && new.cleanup_status is None && new.cleanup_result is None && new.terminal_at
                is None && is_later(new, old, at) && (old.expires_at > old.heartbeat_at + 1 && at + (
            old.expires_at - old.heartbeat_at) <= i64::MAX && at + (old.expires_at
                - old.heartbeat_at) >= i64::MIN ==> new.expires_at == at + (old.expires_at
                - old.heartbeat_at))
            &&& decision != "takeover"@ && !undecided ==> new == old
            &&& decision != "takeover"@ && undecided ==> holds_the_same(new, old) && new.status
                == old.status && new.accepts_work == old.accepts_work && new.owner_instance_id
                == old.owner_instance_id && new.recovery_decision == Some(decision)
                && new.heartbeat_at == old.heartbeat_at && new.expires_at == old.expires_at
                && new.terminal_at == old.terminal_at && is_later(new, old, at)
        }),
{
}

/// The list of a run's leases holds exactly those of the user and the run, only
/// such as are still to be looked after where that is wanted, in the order in
/// which they are to be cleaned up. The stale ones are exactly those that are in
/// use and past their end.
pub proof fn law_leases_are_listed(
    rows: Seq<ResourceLease>,
    user: Seq<char>,
    run: Seq<char>,
    active_only: bool,
    now: i64,
)
    ensures
        ({
            let list = ordered(
                selected(rows, leases_of(user, run, active_only)),
                cleanup_sequence(),
            );
            &&& forall|row: ResourceLease| #[trigger]
                list.contains(row) <==> rows.contains(row) && row.user_id == user && row.run_id
                    == run && (active_only ==> row.status == "active"@ || row.status == "stopping"@
                    || row.status == "orphaned"@ || row.status == "cleanup_failed"@)
            &&& forall|i: int, j: int|
                0 <= i < j < list.len() ==> (#[trigger] list[i]).cleanup_order <= (
                #[trigger] list[j]).cleanup_order
        }),
        ({
            let list = ordered(selected(rows, is_stale(now)), stale_first());
            &&& forall|row: ResourceLease| #[trigger]
                list.contains(row) <==> rows.contains(row) && (row.status == "active"@ || row.status
                    == "stopping"@) && row.expires_at <= now
            &&& forall|i: int, j: int|
                0 <= i < j < list.len() ==> (#[trigger] list[i]).expires_at <= (
                #[trigger] list[j]).expires_at
        }),
{
    let first = cleanup_sequence();
    let stale = stale_first();
    assert(orders(first)) by {
        assert forall|a: ResourceLease, b: ResourceLease| #[trigger] first(a, b) implies !first(
            b,
            a,
        ) by {
            lemma_text_order(a.id, b.id);
        }
        assert forall|a: ResourceLease, b: ResourceLease, c: ResourceLease| #[trigger]
            first(a, c) && !first(b, c) implies #[trigger] first(a, b) by {
            lemma_text_order(a.id, b.id);
            lemma_text_order(a.id, c.id);
            lemma_text_order(b.id, c.id);
            if text_before(a.id, c.id) && text_before(c.id, b.id) {
                lemma_text_transitive(a.id, c.id, b.id);
            }
        }
    }
    lemma_orders_by(
        stale,
        |a: ResourceLease| a.expires_at as int,
        |a: ResourceLease| a.id,
        false,
    );
    law_full_listing(rows, leases_of(user, run, active_only), first);
    law_full_listing(rows, is_stale(now), stale);
    let own = ordered(selected(rows, leases_of(user, run, active_only)), first);
    let old = ordered(selected(rows, is_stale(now)), stale);
    assert forall|i: int, j: int| 0 <= i < j < own.len() implies (#[trigger] own[i]).cleanup_order
        <= (#[trigger] own[j]).cleanup_order by {
        assert(!first(own[j], own[i]));
    }
    assert forall|i: int, j: int| 0 <= i < j < old.len() implies (#[trigger] old[i]).expires_at <= (
    #[trigger] old[j]).expires_at by {
        assert(!stale(old[j], old[i]));
    }
}

// ----------------------------------------------------------------------------
// Recovery
// ----------------------------------------------------------------------------

/// A record of a known key takes what was found and decided over and keeps its id,
/// run and age; one of a new key is added. No other record changes.
pub proof fn law_recovery_is_recorded(rows: Seq<Recovery>, new: Recovery)
    ensures
        ({
            let after = put(
                rows,
                recovery_by_key(new.user_id, new.recovery_key),
                recovery_becomes(new),
                new,
            );
            &&& forall|i: int|
                0 <= i < rows.len() && !(rows[i].user_id == new.user_id && rows[i].recovery_key
                    == new.recovery_key) ==> #[trigger] after[i] == rows[i]
            &&& forall|i: int|
                0 <= i < rows.len() && rows[i].user_id == new.user_id && rows[i].recovery_key
                    == new.recovery_key ==> {
                    &&& (#[trigger] after[i]).id == rows[i].id
                    &&& after[i].user_id == new.user_id
                    &&& after[i].recovery_key == new.recovery_key
                    &&& after[i].project_id == rows[i].project_id
                    &&& after[i].run_id == rows[i].run_id
                    &&& after[i].created_at == rows[i].created_at
                    &&& after[i].finding == new.finding
                    &&& after[i].decision == new.decision
                    &&& after[i].status_before == new.status_before
                    &&& after[i].status_after == new.status_after
                    &&& after[i].details_json == new.details_json
                    &&& after.len() == rows.len()
                }
            &&& (forall|i: int|
                0 <= i < rows.len() ==> !((#[trigger] rows[i]).user_id == new.user_id
                    && rows[i].recovery_key == new.recovery_key)) ==> after == rows.push(new)
        }),
{
    law_put(
        rows,
        recovery_by_key(new.user_id, new.recovery_key),
        recovery_becomes(new),
        new,
    );
}

/// Whether a run is the one that a decision is about, as it was seen.
pub open spec fn is_the_run(run: Run, claim: Claim) -> bool {
    &&& claim.record.run_id == Some(run.id)
    &&& run.user_id == claim.record.user_id
    &&& run.status == claim.expected_status
    &&& run.updated_at == claim.expected_updated_at
}

/// A decision on a run that is carried out turns the run, and no other, into the
/// state that was decided on; one that is not carried out changes nothing.
pub proof fn law_decision_turns_the_run(store: OperationsModel, claim: Claim)
    ensures
        claim_step(store, claim) matches Ok((after, true)) ==> {
            &&& after.runs.len() == store.runs.len()
            &&& forall|i: int|
                0 <= i < store.runs.len() && !is_the_run(store.runs[i], claim)
                    ==> #[trigger] after.runs[i] == store.runs[i]
            &&& forall|i: int|
                0 <= i < store.runs.len() && is_the_run(store.runs[i], claim) ==> {
                    &&& (#[trigger] after.runs[i]).id == store.runs[i].id
                    &&& after.runs[i].user_id == store.runs[i].user_id
                    &&& after.runs[i].project_id == store.runs[i].project_id
                    &&& after.runs[i].status == claim.target_status
                    &&& after.runs[i].finished_at == claim.finished_at
                    &&& after.runs[i].request_summary == store.runs[i].request_summary
                    &&& after.runs[i].started_at == store.runs[i].started_at
                    &&& after.runs[i].created_at == store.runs[i].created_at
                    &&& store.runs[i].updated_at < i64::MAX ==> after.runs[i].updated_at
                        > store.runs[i].updated_at && after.runs[i].updated_at >= claim.updated_at
                }
            &&& after.leases == store.leases
            &&& after.secrets == store.secrets
            &&& after.policies == store.policies
            &&& after.usage == store.usage
        },
        claim_step(store, claim) matches Ok((after, false)) ==> after == store,
{
}

/// The runs to be recovered are exactly those that are at work and have not moved
/// since.
pub proof fn law_stopped_runs(run: Run, updated_before: i64)
    ensures
        stopped_run(updated_before)(run) <==> (run.status == "running"@ || run.status
            == "verifying"@ || run.status == "reviewing"@ || run.status == "integrating"@)
            && run.updated_at <= updated_before,
{
}

// ----------------------------------------------------------------------------
// Usage
// ----------------------------------------------------------------------------

/// Whether a use is of a user's, of what is asked for.
pub open spec fn is_use_of(
    row: PricedUsage,
    user: Seq<char>,
    dimension: UsageDimension<Seq<char>>,
) -> bool {
    &&& row.user_id == user
    &&& match dimension {
        UsageDimension::Project(id) => row.project_id == id,
        UsageDimension::Run(id) => row.run_id == Some(id),
        UsageDimension::Task(id) => row.task_id == Some(id),
        UsageDimension::Conversation(id) => row.conversation_id == Some(id),
        UsageDimension::Agent(id) => row.agent_id == Some(id),
        UsageDimension::Team(id) => row.team_id == Some(id),
    }
}

/// Every use counts in a summary once, with what it used: one use more adds its
/// amounts, where the sums still fit, and one that is not asked for adds nothing.
pub proof fn law_each_use_counts(
    rows: Seq<PricedUsage>,
    row: PricedUsage,
    user: Seq<char>,
    dimension: UsageDimension<Seq<char>>,
)
    requires
        rows.len() < i64::MAX,
    ensures
        ({
            let hit = in_dimension(user, dimension);
            let before = full_total(selected(rows, hit));
            let after = full_total(selected(rows.push(row), hit));
            &&& !is_use_of(row, user, dimension) ==> after == before
            &&& is_use_of(row, user, dimension) && before is Ok && after is Ok ==> {
                let a = before->Ok_0;
                let b = after->Ok_0;
                &&& b.event_count == a.event_count + 1
                &&& b.input_tokens == a.input_tokens + row.input_tokens
                &&& b.output_tokens == a.output_tokens + row.output_tokens
                &&& b.cache_read_tokens == a.cache_read_tokens + row.cache_read_tokens
                &&& b.cache_write_tokens == a.cache_write_tokens + row.cache_write_tokens
                &&& row.cost_status == "known"@ && row.cost_microunits is Some
                    ==> b.known_cost_microunits == a.known_cost_microunits + row.cost_microunits->0
                &&& row.cost_status != "known"@ || row.cost_microunits is None
                    ==> b.known_cost_microunits == a.known_cost_microunits
                &&& row.cost_status == "unknown"@ ==> b.unknown_cost_events
                    == a.unknown_cost_events + 1
                &&& row.cost_status != "unknown"@ ==> b.unknown_cost_events
                    == a.unknown_cost_events
                &&& b.duration_ms == a.duration_ms + row.duration_ms
                &&& b.retry_count == a.retry_count + row.retry_count
            }
        }),
{
    let hit = in_dimension(user, dimension);
    let old = selected(rows, hit);
    let all = rows.push(row);
    assert(all.drop_last() =~= rows);
    assert(all.last() == row);
    let new = selected(all, hit);
    law_selected(rows, hit);
    assert(hit(row) == is_use_of(row, user, dimension));
    if hit(row) {
        assert(new =~= old.push(row));
        assert(new.drop_last() =~= old);
        assert(new.last() == row);
        lemma_sums_fit(old);
    }
}

proof fn lemma_sum_fits(rows: Seq<PricedUsage>, amount: spec_fn(PricedUsage) -> int)
    ensures
        summed(rows, amount) matches Some(sum) ==> i64::MIN <= sum <= i64::MAX,
    decreases rows.len(),
{
    if rows.len() > 0 {
        lemma_sum_fits(rows.drop_last(), amount);
    }
}

proof fn lemma_sums_fit(rows: Seq<PricedUsage>)
    ensures
        summed(rows, input()) matches Some(sum) ==> i64::MIN <= sum <= i64::MAX,
        summed(rows, output()) matches Some(sum) ==> i64::MIN <= sum <= i64::MAX,
        summed(rows, cache_read()) matches Some(sum) ==> i64::MIN <= sum <= i64::MAX,
        summed(rows, cache_write()) matches Some(sum) ==> i64::MIN <= sum <= i64::MAX,
        summed(rows, cost()) matches Some(sum) ==> i64::MIN <= sum <= i64::MAX,
        summed(rows, known_cost()) matches Some(sum) ==> i64::MIN <= sum <= i64::MAX,
        summed(rows, unknown_cost()) matches Some(sum) ==> i64::MIN <= sum <= i64::MAX,
        summed(rows, duration()) matches Some(sum) ==> i64::MIN <= sum <= i64::MAX,
        summed(rows, retries()) matches Some(sum) ==> i64::MIN <= sum <= i64::MAX,
{
    lemma_sum_fits(rows, input());
    lemma_sum_fits(rows, output());
    lemma_sum_fits(rows, cache_read());
    lemma_sum_fits(rows, cache_write());
    lemma_sum_fits(rows, cost());
    lemma_sum_fits(rows, known_cost());
    lemma_sum_fits(rows, unknown_cost());
    lemma_sum_fits(rows, duration());
    lemma_sum_fits(rows, retries());
}

/// The summary of a project, or of a run of it, counts each of its uses once, with
/// its amounts, and an unknown cost as nothing.
pub proof fn law_each_use_counts_in_project(
    rows: Seq<PricedUsage>,
    row: PricedUsage,
    user: Seq<char>,
    project: Seq<char>,
    run: Option<Seq<char>>,
)
    requires
        rows.len() < i64::MAX,
    ensures
        ({
            let hit = uses_of(user, project, run);
            let before = total(selected(rows, hit));
            let after = total(selected(rows.push(row), hit));
            let own = row.user_id == user && row.project_id == project && (run is Some
                ==> row.run_id == run);
            &&& !own ==> after == before
            &&& own && before is Ok && after is Ok ==> {
                let a = before->Ok_0;
                let b = after->Ok_0;
                &&& b.event_count == a.event_count + 1
                &&& b.input_tokens == a.input_tokens + row.input_tokens
                &&& b.output_tokens == a.output_tokens + row.output_tokens
                &&& row.cost_microunits is Some ==> b.cost_microunits == a.cost_microunits
                    + row.cost_microunits->0
                &&& row.cost_microunits is None ==> b.cost_microunits == a.cost_microunits
                &&& b.duration_ms == a.duration_ms + row.duration_ms
                &&& b.retry_count == a.retry_count + row.retry_count
            }
        }),
        ({
            let none = total(Seq::empty());
            none is Ok && none->Ok_0.event_count == 0 && none->Ok_0.input_tokens == 0
                && none->Ok_0.output_tokens == 0 && none->Ok_0.cost_microunits == 0
                && none->Ok_0.duration_ms == 0 && none->Ok_0.retry_count == 0
        }),
{
    let hit = uses_of(user, project, run);
    let old = selected(rows, hit);
    let all = rows.push(row);
    assert(all.drop_last() =~= rows);
    assert(all.last() == row);
    let new = selected(all, hit);
    law_selected(rows, hit);
    if hit(row) {
        assert(new =~= old.push(row));
        assert(new.drop_last() =~= old);
        assert(new.last() == row);
        lemma_sums_fit(old);
    }
}

/// A use is kept as it is reported, once; what is not reported of it is what the
/// table has by default, and what is shown of it is what was reported.
pub proof fn law_use_is_kept(row: Usage, columns: Columns, rows: Seq<PricedUsage>, new: PricedUsage)
    ensures
        plain(unpriced(row, columns)) == row,
        unpriced(row, columns).conversation_id is None,
        unpriced(row, columns).agent_id is None,
        unpriced(row, columns).team_id is None,
        unpriced(row, columns).provider is None,
        unpriced(row, columns).model is None,
        unpriced(row, columns).price_source_id is None,
        unpriced(row, columns).cost_status == columns.cost_status,
        unpriced(row, columns).cost_origin == columns.cost_origin,
        unpriced(row, columns).cache_read_tokens == columns.cache_read_tokens,
        unpriced(row, columns).cache_write_tokens == columns.cache_write_tokens,
        (forall|i: int| 0 <= i < rows.len() ==> (#[trigger] rows[i]).id != new.id) ==> uses_after(
            rows,
            new,
        ) == rows.push(new),
        (exists|i: int| 0 <= i < rows.len() && (#[trigger] rows[i]).id == new.id) ==> uses_after(
            rows,
            new,
        ) == rows,
{
    let hit = use_with_id(new.id);
    if exists|i: int| 0 <= i < rows.len() && (#[trigger] rows[i]).id == new.id {
        let i = choose|i: int| 0 <= i < rows.len() && (#[trigger] rows[i]).id == new.id;
        assert(hit(rows[i]));
    }
}

/// The latest use of a conversation is a use of the user's in it, and none of them
/// is later.
pub proof fn law_latest_use_is_found(
    rows: Seq<PricedUsage>,
    user: Seq<char>,
    conversation: Seq<char>,
)
    ensures
        least(rows, in_conversation(user, conversation), latest_use()) matches Some(row) ==> {
            &&& rows.contains(row)
            &&& row.user_id == user
            &&& row.conversation_id == Some(conversation)
            &&& forall|i: int|
                0 <= i < rows.len() && (#[trigger] rows[i]).user_id == user
                    && rows[i].conversation_id == Some(conversation) ==> rows[i].created_at
                    <= row.created_at
        },
        least(rows, in_conversation(user, conversation), latest_use()) is None ==> forall|i: int|
            0 <= i < rows.len() ==> !((#[trigger] rows[i]).user_id == user
                && rows[i].conversation_id == Some(conversation)),
{
    let hit = in_conversation(user, conversation);
    let less = latest_use();
    lemma_orders_by(
        less,
        |a: PricedUsage| -(a.created_at as int),
        |a: PricedUsage| a.id,
        true,
    );
    law_least(rows, hit, less);
    if let Some(row) = least(rows, hit, less) {
        assert forall|i: int|
            0 <= i < rows.len() && (#[trigger] rows[i]).user_id == user && rows[i].conversation_id
                == Some(conversation) implies rows[i].created_at <= row.created_at by {
            assert(hit(rows[i]));
            assert(!less(rows[i], row));
        }
    } else {
        assert forall|i: int| 0 <= i < rows.len() implies !((#[trigger] rows[i]).user_id == user
            && rows[i].conversation_id == Some(conversation)) by {
            assert(!hit(rows[i]));
        }
    }
}

/// The list of secrets holds exactly the user's of the project, the latest first.
pub proof fn law_secrets_are_listed(
    rows: Seq<Secret>,
    user: Seq<char>,
    project: Seq<char>,
)
    ensures
        ({
            let list = ordered(selected(rows, secrets_of(user, project)), latest_secret());
            &&& forall|row: Secret| #[trigger]
                list.contains(row) <==> rows.contains(row) && row.user_id == user && row.project_id
                    == project
            &&& forall|i: int, j: int|
                0 <= i < j < list.len() ==> (#[trigger] list[i]).created_at >= (
                #[trigger] list[j]).created_at
        }),
{
    let less = latest_secret();
    let hit = secrets_of(user, project);
    lemma_orders_by(less, |a: Secret| -(a.created_at as int), |a: Secret| a.id, true);
    law_full_listing(rows, hit, less);
    let list = ordered(selected(rows, hit), less);
    assert forall|i: int, j: int| 0 <= i < j < list.len() implies (#[trigger] list[i]).created_at
        >= (#[trigger] list[j]).created_at by {
        assert(!less(list[j], list[i]));
    }
}

/// The list of a secret's leaves holds exactly the user's for it, the oldest first.
pub proof fn law_secret_grants_are_listed(
    rows: Seq<SecretGrant>,
    user: Seq<char>,
    secret: Seq<char>,
)
    ensures
        ({
            let list = ordered(selected(rows, grants_of(user, secret)), oldest_grant());
            &&& forall|row: SecretGrant| #[trigger]
                list.contains(row) <==> rows.contains(row) && row.user_id == user && row.secret_id
                    == secret
            &&& forall|i: int, j: int|
                0 <= i < j < list.len() ==> (#[trigger] list[i]).created_at <= (
                #[trigger] list[j]).created_at
        }),
{
    let less = oldest_grant();
    let hit = grants_of(user, secret);
    lemma_orders_by(less, |a: SecretGrant| a.created_at as int, |a: SecretGrant| a.id, false);
    law_full_listing(rows, hit, less);
    let list = ordered(selected(rows, hit), less);
    assert forall|i: int, j: int| 0 <= i < j < list.len() implies (#[trigger] list[i]).created_at
        <= (#[trigger] list[j]).created_at by {
        assert(!less(list[j], list[i]));
    }
}

/// The list of events holds only the user's of the project, and of the run where one
/// is named, the latest first, and all of them where it is shorter than the limit.
pub proof fn law_audit_is_listed(
    rows: Seq<Audit>,
    user: Seq<char>,
    project: Seq<char>,
    run: Option<Seq<char>>,
    limit: i64,
)
    ensures
        ({
            let list = limited(
                ordered(selected(rows, audit_of(user, project, run)), latest_event()),
                clamped(limit, MAX_LISTED),
                0,
            );
            &&& list.len() <= 200
            &&& limit >= 1 ==> list.len() <= limit
            &&& forall|i: int| 0 <= i < list.len() ==> rows.contains(#[trigger] list[i])
            &&& forall|i: int|
                0 <= i < list.len() ==> ({
                    let row = #[trigger] list[i];
                    row.user_id == user && row.project_id == Some(project) && (run is Some ==> row.run_id
                        == run)
                })
            &&& list.len() < 1 || (list.len() < limit && list.len() < 200) ==> forall|row: Audit|
                rows.contains(row) && row.user_id == user && row.project_id == Some(project) && (run is Some
                    ==> row.run_id == run) ==> #[trigger] list.contains(row)
            &&& forall|i: int, j: int|
                0 <= i < j < list.len() ==> (#[trigger] list[i]).created_at >= (
                #[trigger] list[j]).created_at
        }),
{
    let less = latest_event();
    let hit = audit_of(user, project, run);
    lemma_orders_by(less, |a: Audit| -(a.created_at as int), |a: Audit| a.id, true);
    law_limited_listing(rows, hit, less, clamped(limit, MAX_LISTED), 0);
    let list = limited(ordered(selected(rows, hit), less), clamped(limit, MAX_LISTED), 0);
    assert forall|i: int, j: int| 0 <= i < j < list.len() implies (#[trigger] list[i]).created_at
        >= (#[trigger] list[j]).created_at by {
        assert(!less(list[j], list[i]));
    }
}

/// The list of recoveries holds only the user's of the project, and of the run where
/// one is named, the latest first, and all of them where it is shorter than the limit.
pub proof fn law_recoveries_are_listed(
    rows: Seq<Recovery>,
    user: Seq<char>,
    project: Seq<char>,
    run: Option<Seq<char>>,
    limit: i64,
)
    ensures
        ({
            let list = limited(
                ordered(selected(rows, recoveries_of(user, project, run)), latest_recovery()),
                clamped(limit, MAX_LISTED),
                0,
            );
            &&& list.len() <= 200
            &&& limit >= 1 ==> list.len() <= limit
            &&& forall|i: int| 0 <= i < list.len() ==> rows.contains(#[trigger] list[i])
            &&& forall|i: int|
                0 <= i < list.len() ==> ({
                    let row = #[trigger] list[i];
                    row.user_id == user && row.project_id == project && (run is Some ==> row.run_id
                        == run)
                })
            &&& list.len() < 1 || (list.len() < limit && list.len() < 200) ==> forall|row: Recovery|
                rows.contains(row) && row.user_id == user && row.project_id == project && (run is Some
                    ==> row.run_id == run) ==> #[trigger] list.contains(row)
            &&& forall|i: int, j: int|
                0 <= i < j < list.len() ==> (#[trigger] list[i]).created_at >= (
                #[trigger] list[j]).created_at
        }),
{
    let less = latest_recovery();
    let hit = recoveries_of(user, project, run);
    lemma_orders_by(less, |a: Recovery| -(a.created_at as int), |a: Recovery| a.id, true);
    law_limited_listing(rows, hit, less, clamped(limit, MAX_LISTED), 0);
    let list = limited(ordered(selected(rows, hit), less), clamped(limit, MAX_LISTED), 0);
    assert forall|i: int, j: int| 0 <= i < j < list.len() implies (#[trigger] list[i]).created_at
        >= (#[trigger] list[j]).created_at by {
        assert(!less(list[j], list[i]));
    }
}

/// The list of uses holds only the user's of the project, and of the run where one is
/// named, the latest first, and all of them where it is shorter than the limit.
pub proof fn law_uses_are_listed(
    rows: Seq<PricedUsage>,
    user: Seq<char>,
    project: Seq<char>,
    run: Option<Seq<char>>,
    limit: i64,
)
    ensures
        ({
            let list = limited(
                ordered(selected(rows, uses_of(user, project, run)), latest_use()),
                clamped(limit, MAX_USES),
                0,
            );
            &&& list.len() <= 500
            &&& limit >= 1 ==> list.len() <= limit
            &&& forall|i: int| 0 <= i < list.len() ==> rows.contains(#[trigger] list[i])
            &&& forall|i: int|
                0 <= i < list.len() ==> ({
                    let row = #[trigger] list[i];
                    row.user_id == user && row.project_id == project && (run is Some ==> row.run_id
                        == run)
                })
            &&& list.len() < 1 || (list.len() < limit && list.len() < 500) ==> forall|
                row: PricedUsage,
            |
                rows.contains(row) && row.user_id == user && row.project_id == project && (run is Some
                    ==> row.run_id == run) ==> #[trigger] list.contains(row)
            &&& forall|i: int, j: int|
                0 <= i < j < list.len() ==> (#[trigger] list[i]).created_at >= (
                #[trigger] list[j]).created_at
        }),
{
    let less = latest_use();
    let hit = uses_of(user, project, run);
    lemma_orders_by(less, |a: PricedUsage| -(a.created_at as int), |a: PricedUsage| a.id, true);
    law_limited_listing(rows, hit, less, clamped(limit, MAX_USES), 0);
    let list = limited(ordered(selected(rows, hit), less), clamped(limit, MAX_USES), 0);
    assert forall|i: int, j: int| 0 <= i < j < list.len() implies (#[trigger] list[i]).created_at
        >= (#[trigger] list[j]).created_at by {
        assert(!less(list[j], list[i]));
    }
}

/// The price in effect is a price of the provider's model that held by then, and no
/// other price of it that held by then came later. Where a price of it held by then,
/// there is one in effect.
pub proof fn law_price_held_by_then(
    rows: Seq<Price>,
    provider: Seq<char>,
    name: Seq<char>,
    at: i64,
)
    ensures
        ({
            let found = least(rows, price_by(provider, name, at), latest_price());
            &&& found matches Some(price) ==> {
                &&& rows.contains(price)
                &&& price.provider == provider
                &&& price.model == name
                &&& price.effective_at <= at
                &&& forall|i: int|
                    0 <= i < rows.len() && (#[trigger] rows[i]).provider == provider
                        && rows[i].model == name && price.effective_at < rows[i].effective_at
                        ==> rows[i].effective_at > at
            }
            &&& found is None ==> forall|i: int|
                0 <= i < rows.len() && (#[trigger] rows[i]).provider == provider && rows[i].model
                    == name ==> rows[i].effective_at > at
        }),
{
    let hit = price_by(provider, name, at);
    law_price_in_effect(rows, provider, name, at);
    assert forall|i: int|
        0 <= i < rows.len() && (#[trigger] rows[i]).provider == provider && rows[i].model == name
            && rows[i].effective_at <= at implies hit(rows[i]) by {}
}

/// The lease that a change gives is the changed row as it now stands in the table; there
/// is none only where no lease could be changed.
pub proof fn law_changed_lease_is_given(
    rows: Seq<ResourceLease>,
    hit: spec_fn(ResourceLease) -> bool,
    change: spec_fn(ResourceLease) -> ResourceLease,
)
    ensures
        changed_first(rows, hit, change) matches Some(row) ==> updated(rows, hit, change).contains(
            row,
        ),
        changed_first(rows, hit, change) is None ==> updated(rows, hit, change) == rows,
{
    lemma_lookup(rows, hit);
    if let Some(row) = lookup(rows, hit) {
        let i = choose|i: int| 0 <= i < rows.len() && rows[i] == row;
        assert(updated(rows, hit, change)[i] == change(row));
    } else {
        assert forall|i: int| 0 <= i < rows.len() implies !hit(#[trigger] rows[i]) by {}
        assert(updated(rows, hit, change) =~= rows);
    }
}

/// A decision that fails changes nothing, and one that does not says whether it was
/// taken and leaves what it came to.
pub proof fn law_failed_decision_changes_nothing(
    expected: Result<(OperationsModel, bool), DbError<Seq<char>>>,
    result: Result<bool, DbError>,
    before: OperationsModel,
    after: OperationsModel,
)
    requires
        claimed(expected, result, before, after),
    ensures
        result matches Err(error) ==> after == before && expected == Err::<
            (OperationsModel, bool),
            DbError<Seq<char>>,
        >(error@),
        result matches Ok(done) ==> expected == Ok::<(OperationsModel, bool), DbError<Seq<char>>>(
            (after, done),
        ),
{
}

} // verus!

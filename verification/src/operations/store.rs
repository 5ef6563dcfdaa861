//! The tables on running development, and those of them that are plain lists.
use crate::development::rows::{DevelopmentRunRow, Run};
use crate::error::DbError;
use crate::operations::rows::{
    Alert, Audit, Columns, DevelopmentAlertRow, DevelopmentAuditEventRow, DevelopmentModelPriceRow,
    DevelopmentPolicyRow, DevelopmentPricedUsageEventRow, DevelopmentRecoveryRecordRow,
    DevelopmentSecretGrantRow, DevelopmentSecretRow, Environment, ExecutionEnvironmentBindingRow,
    ExecutionResourceLeaseRow, Policy, Price, PriceColumns, PricedUsage, Recovery, ResourceLease,
    Secret, SecretGrant,
};
use crate::table::{
    any_where, exists_in, fetch_least, fetch_where, found, law_least, law_put_is_found, least,
    lemma_least_selected, lemma_lookup, limited, list_where, lookup, model, ordered, orders, put,
    put_row, selected, take_limited, update_where, updated, Record,
};
use crate::text::{
    before, copy_opt, is_some_text, lemma_text_order, lemma_text_transitive, opt_str, same,
    text_before,
};
use crate::write::{add_row, added, rows_changed, write_row, written};
use vstd::prelude::*;

verus! {

/// The tables on running development, the runs, and what the columns on prices
/// hold of a use that was written without them.
#[derive(Debug, Clone, PartialEq, Eq)]
pub struct OperationsStore {
    pub policies: Vec<DevelopmentPolicyRow>,
    pub usage: Vec<DevelopmentPricedUsageEventRow>,
    pub usage_defaults: PriceColumns,
    pub audit: Vec<DevelopmentAuditEventRow>,
    pub alerts: Vec<DevelopmentAlertRow>,
    pub recoveries: Vec<DevelopmentRecoveryRecordRow>,
    pub runs: Vec<DevelopmentRunRow>,
    pub leases: Vec<ExecutionResourceLeaseRow>,
    pub environments: Vec<ExecutionEnvironmentBindingRow>,
    pub secrets: Vec<DevelopmentSecretRow>,
    pub grants: Vec<DevelopmentSecretGrantRow>,
    pub prices: Vec<DevelopmentModelPriceRow>,
}

/// The model of the tables on running development.
#[verifier::ext_equal]
pub struct OperationsModel {
    pub policies: Seq<Policy>,
    pub usage: Seq<PricedUsage>,
    pub usage_defaults: Columns,
    pub audit: Seq<Audit>,
    pub alerts: Seq<Alert>,
    pub recoveries: Seq<Recovery>,
    pub runs: Seq<Run>,
    pub leases: Seq<ResourceLease>,
    pub environments: Seq<Environment>,
    pub secrets: Seq<Secret>,
    pub grants: Seq<SecretGrant>,
    pub prices: Seq<Price>,
}

impl View for OperationsStore {
    type V = OperationsModel;

    open spec fn view(&self) -> OperationsModel {
        OperationsModel {
            policies: model(self.policies@),
            usage: model(self.usage@),
            usage_defaults: self.usage_defaults@,
            audit: model(self.audit@),
            alerts: model(self.alerts@),
            recoveries: model(self.recoveries@),
            runs: model(self.runs@),
            leases: model(self.leases@),
            environments: model(self.environments@),
            secrets: model(self.secrets@),
            grants: model(self.grants@),
            prices: model(self.prices@),
        }
    }
}

/// A number of rows, no less than one and no more than the most.
pub open spec fn clamped(limit: i64, most: i64) -> i64 {
    if limit < 1 {
        1
    } else if limit > most {
        most
    } else {
        limit
    }
}

/// A number of rows, no less than one and no more than the most.
pub fn clamp_limit(limit: i64, most: i64) -> (rows: i64)
    requires
        most >= 1,
    ensures
        rows == clamped(limit, most),
{
    if limit < 1 {
        1
    } else if limit > most {
        most
    } else {
        limit
    }
}

/// The most events of an audit, and the most records of recoveries, that are
/// listed at once.
pub const MAX_LISTED: i64 = 200;

/// The policy with an id.
pub open spec fn policy_with_id(id: Seq<char>) -> spec_fn(Policy) -> bool {
    |row: Policy| row.id == id
}

/// The event with an id.
pub open spec fn audit_with_id(id: Seq<char>) -> spec_fn(Audit) -> bool {
    |row: Audit| row.id == id
}

/// The alert with an id.
pub open spec fn alert_with_id(id: Seq<char>) -> spec_fn(Alert) -> bool {
    |row: Alert| row.id == id
}

/// The secret with an id.
pub open spec fn secret_with_id(id: Seq<char>) -> spec_fn(Secret) -> bool {
    |row: Secret| row.id == id
}

/// The leave with an id.
pub open spec fn grant_with_id(id: Seq<char>) -> spec_fn(SecretGrant) -> bool {
    |row: SecretGrant| row.id == id
}

/// The price with an id.
pub open spec fn price_with_id(id: Seq<char>) -> spec_fn(Price) -> bool {
    |row: Price| row.id == id
}

/// A user's policy for a project.
pub open spec fn policy_of(user_id: Seq<char>, project_id: Seq<char>) -> spec_fn(Policy) -> bool {
    |row: Policy| row.user_id == user_id && row.project_id == project_id
}

/// A policy written anew. Whose it is and its age stay.
pub open spec fn policy_becomes(new: Policy) -> spec_fn(Policy) -> Policy {
    |row: Policy|
        DevelopmentPolicyRow {
            isolation_mode: new.isolation_mode,
            container_image: new.container_image,
            devcontainer_config_path: new.devcontainer_config_path,
            container_cpu_millis: new.container_cpu_millis,
            container_memory_mb: new.container_memory_mb,
            container_pids_limit: new.container_pids_limit,
            network_mode: new.network_mode,
            allowed_secret_keys_json: new.allowed_secret_keys_json,
            allowed_commands_json: new.allowed_commands_json,
            protected_paths_json: new.protected_paths_json,
            allowed_network_hosts_json: new.allowed_network_hosts_json,
            protected_branches_json: new.protected_branches_json,
            dangerous_confirmation_count: new.dangerous_confirmation_count,
            max_duration_ms: new.max_duration_ms,
            max_parallel_agents: new.max_parallel_agents,
            max_retries: new.max_retries,
            max_cost_microunits: new.max_cost_microunits,
            max_total_tokens: new.max_total_tokens,
            fallback_model: new.fallback_model,
            alert_percent: new.alert_percent,
            over_limit_action: new.over_limit_action,
            updated_at: new.updated_at,
            ..row
        }
}

/// A user's events on a project, of one run where it is given.
pub open spec fn audit_of(
    user_id: Seq<char>,
    project_id: Seq<char>,
    run_id: Option<Seq<char>>,
) -> spec_fn(Audit) -> bool {
    |row: Audit|
        row.user_id == user_id && row.project_id == Some(project_id)
            && (run_id matches Some(wanted) ==> row.run_id == Some(wanted))
}

/// The order of events: the latest first.
pub open spec fn latest_event() -> spec_fn(Audit, Audit) -> bool {
    |a: Audit, b: Audit|
        b.created_at < a.created_at || (a.created_at == b.created_at && (text_before(b.id, a.id)))
}

/// The alert of a user that has a key.
pub open spec fn alert_by_key(user_id: Seq<char>, dedupe_key: Seq<char>) -> spec_fn(Alert) -> bool {
    |row: Alert| row.user_id == user_id && row.dedupe_key == dedupe_key
}

/// An alert that came up again. Its id, its project and its age stay.
pub open spec fn alert_becomes(new: Alert) -> spec_fn(Alert) -> Alert {
    |row: Alert|
        DevelopmentAlertRow {
            run_id: new.run_id,
            alert_type: new.alert_type,
            severity: new.severity,
            status: new.status,
            message: new.message,
            updated_at: new.updated_at,
            resolved_at: new.resolved_at,
            ..row
        }
}

/// A user's alerts on a project, of one run where it is given, without those
/// that are resolved where only the others are wanted.
pub open spec fn alerts_of(
    user_id: Seq<char>,
    project_id: Seq<char>,
    run_id: Option<Seq<char>>,
    active_only: bool,
) -> spec_fn(
    Alert,
) -> bool {
    |row: Alert|
        row.user_id == user_id && row.project_id == project_id
            && (run_id matches Some(wanted) ==> row.run_id == Some(wanted)) && (
        active_only ==> row.status != "resolved"@)
}

/// The order of alerts: those changed last first.
pub open spec fn fresh_alert() -> spec_fn(Alert, Alert) -> bool {
    |a: Alert, b: Alert|
        b.updated_at < a.updated_at || (a.updated_at == b.updated_at && (text_before(a.id, b.id)))
}

/// A user's alert by its id.
pub open spec fn alert_of(user_id: Seq<char>, alert_id: Seq<char>) -> spec_fn(Alert) -> bool {
    |row: Alert| row.id == alert_id && row.user_id == user_id
}

/// An alert with another status.
pub open spec fn alert_turns(
    status: Seq<char>,
    resolved_at: Option<i64>,
    now: i64,
) -> spec_fn(Alert) -> Alert {
    |row: Alert| DevelopmentAlertRow { status, resolved_at, updated_at: now, ..row }
}

/// Where something is carried out.
pub open spec fn environment_of(
    entity_type: Seq<char>,
    entity_id: Seq<char>,
    environment_id: Seq<char>,
) -> spec_fn(Environment) -> bool {
    |row: Environment|
        row.entity_type == entity_type && row.entity_id == entity_id
            && row.environment_id == environment_id
}

/// A place written anew.
pub open spec fn environment_becomes(
    environment_kind: Seq<char>,
    bound_at: i64,
) -> spec_fn(Environment) -> Environment {
    |row: Environment| ExecutionEnvironmentBindingRow { environment_kind, bound_at, ..row }
}

/// A user's secret by its id.
pub open spec fn secret_of(user_id: Seq<char>, secret_id: Seq<char>) -> spec_fn(Secret) -> bool {
    |row: Secret| row.user_id == user_id && row.id == secret_id
}

/// A user's secrets of a project.
pub open spec fn secrets_of(user_id: Seq<char>, project_id: Seq<char>) -> spec_fn(Secret) -> bool {
    |row: Secret| row.user_id == user_id && row.project_id == project_id
}

/// The order of secrets: the latest first.
pub open spec fn latest_secret() -> spec_fn(Secret, Secret) -> bool {
    |a: Secret, b: Secret|
        b.created_at < a.created_at || (a.created_at == b.created_at && (text_before(b.id, a.id)))
}

/// A user's secret that can still be used.
pub open spec fn usable_secret(
    user_id: Seq<char>,
    secret_id: Seq<char>,
) -> spec_fn(Secret) -> bool {
    |row: Secret| row.user_id == user_id && row.id == secret_id && row.status == "active"@
}

/// A secret that was revoked.
pub open spec fn secret_revoked(at: i64) -> spec_fn(Secret) -> Secret {
    |row: Secret|
        DevelopmentSecretRow { status: "revoked"@, revoked_at: Some(at), updated_at: at, ..row }
}

/// The leave to use a secret in one place under one key.
pub open spec fn grant_for(
    user_id: Seq<char>,
    secret_id: Seq<char>,
    scope_type: Seq<char>,
    scope_id: Seq<char>,
    environment_key: Seq<char>,
) -> spec_fn(SecretGrant) -> bool {
    |row: SecretGrant|
        row.user_id == user_id && row.secret_id == secret_id && row.scope_type == scope_type
            && row.scope_id == scope_id && row.environment_key == environment_key
}

/// A leave written anew. What it is for and its age stay.
pub open spec fn grant_becomes(new: SecretGrant) -> spec_fn(SecretGrant) -> SecretGrant {
    |row: SecretGrant|
        DevelopmentSecretGrantRow {
            status: new.status,
            expires_at: new.expires_at,
            revoked_at: new.revoked_at,
            updated_at: new.updated_at,
            ..row
        }
}

/// The leaves to use a secret.
pub open spec fn grants_of(
    user_id: Seq<char>,
    secret_id: Seq<char>,
) -> spec_fn(SecretGrant) -> bool {
    |row: SecretGrant| row.user_id == user_id && row.secret_id == secret_id
}

/// The order of leaves: the oldest first.
pub open spec fn oldest_grant() -> spec_fn(SecretGrant, SecretGrant) -> bool {
    |a: SecretGrant, b: SecretGrant|
        a.created_at < b.created_at || (a.created_at == b.created_at && (text_before(a.id, b.id)))
}

/// The price of a model in a version of a source.
pub open spec fn price_of(
    provider: Seq<char>,
    name: Seq<char>,
    source_id: Seq<char>,
    version: Seq<char>,
) -> spec_fn(Price) -> bool {
    |row: Price|
        row.provider == provider && row.model == name && row.source_id == source_id
            && row.version == version
}

/// A price written anew. What it is for stays.
pub open spec fn price_becomes(new: Price) -> spec_fn(Price) -> Price {
    |row: Price|
        DevelopmentModelPriceRow {
            input_per_million_microunits: new.input_per_million_microunits,
            output_per_million_microunits: new.output_per_million_microunits,
            cache_read_per_million_microunits: new.cache_read_per_million_microunits,
            cache_write_per_million_microunits: new.cache_write_per_million_microunits,
            effective_at: new.effective_at,
            ..row
        }
}

/// The prices of a model that hold at a time.
pub open spec fn price_by(
    provider: Seq<char>,
    name: Seq<char>,
    occurred_at: i64,
) -> spec_fn(Price) -> bool {
    |row: Price| row.provider == provider && row.model == name && row.effective_at <= occurred_at
}

/// The order of prices: the latest first.
pub open spec fn latest_price() -> spec_fn(Price, Price) -> bool {
    |a: Price, b: Price|
        b.effective_at < a.effective_at
            || (
                a.effective_at == b.effective_at
                    && (
                        b.created_at < a.created_at
                            || (a.created_at == b.created_at && (text_before(b.id, a.id)))
                    )
            )
}

impl OperationsStore {
    /// A user's policy for a project.
    pub fn get_policy(&self, user_id: &str, project_id: &str) -> (row: Option<DevelopmentPolicyRow>)
        ensures
            found(row) == lookup(self@.policies, policy_of(user_id@, project_id@)),
    {
        fetch_where(
            &self.policies,
            |row: &DevelopmentPolicyRow| -> (yes: bool)
                ensures yes == policy_of(user_id@, project_id@)(row@)
                {
                    same(row.user_id.as_str(), user_id) && same(row.project_id.as_str(), project_id)
                },
            Ghost(policy_of(user_id@, project_id@)),
        )
    }

    /// Writes a user's policy for a project.
    pub fn upsert_policy(&mut self, row: &DevelopmentPolicyRow) -> (result: Result<(), DbError>)
        ensures
            rows_changed(
                written(
                    old(self)@.policies,
                    policy_of(row@.user_id, row@.project_id),
                    policy_becomes(row@),
                    policy_with_id(row@.id),
                    row@,
                    "UNIQUE constraint failed: development_policies.id"@,
                ),
                result,
                old(self)@.policies,
                final(self)@.policies,
            ),
            final(self)@ == (OperationsModel { policies: final(self)@.policies, ..old(self)@ }),
    {
        write_row(
            &mut self.policies,
            |known: &DevelopmentPolicyRow| -> (yes: bool)
                ensures yes == policy_of(row@.user_id, row@.project_id)(known@)
                {
                    same(known.user_id.as_str(), row.user_id.as_str())
                        && same(known.project_id.as_str(), row.project_id.as_str())
                },
            |known: &DevelopmentPolicyRow| -> (next: DevelopmentPolicyRow)
                ensures next@ == policy_becomes(row@)(known@)
                {
                    DevelopmentPolicyRow {
                        isolation_mode: row.isolation_mode.clone(),
                        container_image: copy_opt(&row.container_image),
                        devcontainer_config_path: copy_opt(&row.devcontainer_config_path),
                        container_cpu_millis: row.container_cpu_millis,
                        container_memory_mb: row.container_memory_mb,
                        container_pids_limit: row.container_pids_limit,
                        network_mode: row.network_mode.clone(),
                        allowed_secret_keys_json: row.allowed_secret_keys_json.clone(),
                        allowed_commands_json: row.allowed_commands_json.clone(),
                        protected_paths_json: row.protected_paths_json.clone(),
                        allowed_network_hosts_json: row.allowed_network_hosts_json.clone(),
                        protected_branches_json: row.protected_branches_json.clone(),
                        dangerous_confirmation_count: row.dangerous_confirmation_count,
                        max_duration_ms: row.max_duration_ms,
                        max_parallel_agents: row.max_parallel_agents,
                        max_retries: row.max_retries,
                        max_cost_microunits: row.max_cost_microunits,
                        max_total_tokens: row.max_total_tokens,
                        fallback_model: copy_opt(&row.fallback_model),
                        alert_percent: row.alert_percent,
                        over_limit_action: row.over_limit_action.clone(),
                        updated_at: row.updated_at,
                        ..known.duplicate()
                    }
                },
            |known: &DevelopmentPolicyRow| -> (yes: bool)
                ensures yes == policy_with_id(row@.id)(known@)
                { same(known.id.as_str(), row.id.as_str()) },
            row.duplicate(),
            "UNIQUE constraint failed: development_policies.id",
            Ghost(policy_of(row@.user_id, row@.project_id)),
            Ghost(policy_becomes(row@)),
            Ghost(policy_with_id(row@.id)),
        )
    }

    /// Adds an event.
    pub fn append_audit(&mut self, row: &DevelopmentAuditEventRow) -> (result: Result<(), DbError>)
        ensures
            rows_changed(
                added(
                    old(self)@.audit,
                    audit_with_id(row@.id),
                    row@,
                    "UNIQUE constraint failed: development_audit_events.id"@,
                ),
                result,
                old(self)@.audit,
                final(self)@.audit,
            ),
            final(self)@ == (OperationsModel { audit: final(self)@.audit, ..old(self)@ }),
    {
        add_row(
            &mut self.audit,
            row.duplicate(),
            |known: &DevelopmentAuditEventRow| -> (yes: bool)
                ensures yes == audit_with_id(row@.id)(known@)
                { same(known.id.as_str(), row.id.as_str()) },
            "UNIQUE constraint failed: development_audit_events.id",
            Ghost(audit_with_id(row@.id)),
        )
    }

    /// A user's events on a project, of one run where it is given: the latest,
    /// as many as are asked for.
    pub fn list_audit(
        &self,
        user_id: &str,
        project_id: &str,
        run_id: Option<&str>,
        limit: i64,
    ) -> (list: Vec<
        DevelopmentAuditEventRow,
    >)
        ensures
            model(list@) == limited(
                ordered(
                    selected(self@.audit, audit_of(user_id@, project_id@, opt_str(run_id))),
                    latest_event(),
                ),
                clamped(limit, MAX_LISTED),
                0,
            ),
    {
        let all = list_where(
            &self.audit,
            |row: &DevelopmentAuditEventRow| -> (yes: bool)
                ensures yes == audit_of(user_id@, project_id@, opt_str(run_id))(row@)
                {
                    same(row.user_id.as_str(), user_id) && is_some_text(&row.project_id, project_id)
                        && match run_id {
                            Some(wanted) => is_some_text(&row.run_id, wanted),
                            None => true,
                        }
                },
            |a: &DevelopmentAuditEventRow, b: &DevelopmentAuditEventRow| -> (yes: bool)
                ensures yes == latest_event()(a@, b@)
                {
                    b.created_at < a.created_at
                        || (a.created_at == b.created_at && (before(b.id.as_str(), a.id.as_str())))
                },
            Ghost(audit_of(user_id@, project_id@, opt_str(run_id))),
            Ghost(latest_event()),
        );
        take_limited(&all, clamp_limit(limit, MAX_LISTED), 0)
    }

    /// Raises an alert, or raises it again where its key is known.
    pub fn upsert_alert(&mut self, row: &DevelopmentAlertRow) -> (result: Result<(), DbError>)
        ensures
            rows_changed(
                written(
                    old(self)@.alerts,
                    alert_by_key(row@.user_id, row@.dedupe_key),
                    alert_becomes(row@),
                    alert_with_id(row@.id),
                    row@,
                    "UNIQUE constraint failed: development_alerts.id"@,
                ),
                result,
                old(self)@.alerts,
                final(self)@.alerts,
            ),
            final(self)@ == (OperationsModel { alerts: final(self)@.alerts, ..old(self)@ }),
    {
        write_row(
            &mut self.alerts,
            |known: &DevelopmentAlertRow| -> (yes: bool)
                ensures yes == alert_by_key(row@.user_id, row@.dedupe_key)(known@)
                {
                    same(known.user_id.as_str(), row.user_id.as_str())
                        && same(known.dedupe_key.as_str(), row.dedupe_key.as_str())
                },
            |known: &DevelopmentAlertRow| -> (next: DevelopmentAlertRow)
                ensures next@ == alert_becomes(row@)(known@)
                {
                    DevelopmentAlertRow {
                        run_id: copy_opt(&row.run_id),
                        alert_type: row.alert_type.clone(),
                        severity: row.severity.clone(),
                        status: row.status.clone(),
                        message: row.message.clone(),
                        updated_at: row.updated_at,
                        resolved_at: row.resolved_at,
                        ..known.duplicate()
                    }
                },
            |known: &DevelopmentAlertRow| -> (yes: bool)
                ensures yes == alert_with_id(row@.id)(known@)
                { same(known.id.as_str(), row.id.as_str()) },
            row.duplicate(),
            "UNIQUE constraint failed: development_alerts.id",
            Ghost(alert_by_key(row@.user_id, row@.dedupe_key)),
            Ghost(alert_becomes(row@)),
            Ghost(alert_with_id(row@.id)),
        )
    }

    /// A user's alerts on a project, of one run where it is given.
    pub fn list_alerts(
        &self,
        user_id: &str,
        project_id: &str,
        run_id: Option<&str>,
        active_only: bool,
    ) -> (list:
        Vec<DevelopmentAlertRow>)
        ensures
            model(list@) == ordered(
                selected(
                    self@.alerts,
                    alerts_of(user_id@, project_id@, opt_str(run_id), active_only),
                ),
                fresh_alert(),
            ),
    {
        let ghost hit = alerts_of(user_id@, project_id@, opt_str(run_id), active_only);
        list_where(
            &self.alerts,
            |row: &DevelopmentAlertRow| -> (yes: bool)
                ensures yes == hit(row@)
                {
                    same(row.user_id.as_str(), user_id) && same(row.project_id.as_str(), project_id)
                        && match run_id {
                            Some(wanted) => is_some_text(&row.run_id, wanted),
                            None => true,
                        }
                        && (!active_only || !same(row.status.as_str(), "resolved"))
                },
            |a: &DevelopmentAlertRow, b: &DevelopmentAlertRow| -> (yes: bool)
                ensures yes == fresh_alert()(a@, b@)
                {
                    b.updated_at < a.updated_at
                        || (a.updated_at == b.updated_at && (before(a.id.as_str(), b.id.as_str())))
                },
            Ghost(hit),
            Ghost(fresh_alert()),
        )
    }

    /// Sets the status of a user's alert, and says whether it is there.
    pub fn update_alert_status(
        &mut self,
        user_id: &str,
        alert_id: &str,
        status: &str,
        resolved_at: Option<i64>,
        now: i64,
    ) -> (done: bool)
        ensures
            final(self)@ == (OperationsModel {
                alerts: updated(
                    old(self)@.alerts,
                    alert_of(user_id@, alert_id@),
                    alert_turns(status@, resolved_at, now),
                ),
                ..old(self)@
            }),
            done == exists_in(old(self)@.alerts, alert_of(user_id@, alert_id@)),
    {
        let known = any_where(
            &self.alerts,
            |row: &DevelopmentAlertRow| -> (yes: bool)
                ensures yes == alert_of(user_id@, alert_id@)(row@)
                { same(row.id.as_str(), alert_id) && same(row.user_id.as_str(), user_id) },
            Ghost(alert_of(user_id@, alert_id@)),
        );
        let _count: u64 = update_where(
            &mut self.alerts,
            |row: &DevelopmentAlertRow| -> (yes: bool)
                ensures yes == alert_of(user_id@, alert_id@)(row@)
                { same(row.id.as_str(), alert_id) && same(row.user_id.as_str(), user_id) },
            |row: &DevelopmentAlertRow| -> (next: DevelopmentAlertRow)
                ensures next@ == alert_turns(status@, resolved_at, now)(row@)
                {
                    DevelopmentAlertRow {
                        status: status.to_owned(),
                        resolved_at: resolved_at,
                        updated_at: now,
                        ..row.duplicate()
                    }
                },
            Ghost(alert_of(user_id@, alert_id@)),
            Ghost(alert_turns(status@, resolved_at, now)),
        );
        known
    }

    /// Writes where something is carried out.
    pub fn bind_execution_environment(
        &mut self,
        entity_type: &str,
        entity_id: &str,
        environment_id: &str,
        environment_kind: &str,
        bound_at: i64,
    )
        ensures
            final(self)@ == (OperationsModel {
                environments: put(
                    old(self)@.environments,
                    environment_of(entity_type@, entity_id@, environment_id@),
                    environment_becomes(environment_kind@, bound_at),
                    (ExecutionEnvironmentBindingRow {
                        entity_type: entity_type@,
                        entity_id: entity_id@,
                        environment_id: environment_id@,
                        environment_kind: environment_kind@,
                        bound_at,
                    }),
                ),
                ..old(self)@
            }),
    {
        let row = ExecutionEnvironmentBindingRow {
            entity_type: entity_type.to_owned(),
            entity_id: entity_id.to_owned(),
            environment_id: environment_id.to_owned(),
            environment_kind: environment_kind.to_owned(),
            bound_at,
        };
        put_row(
            &mut self.environments,
            |row: &ExecutionEnvironmentBindingRow| -> (yes: bool)
                ensures yes == environment_of(entity_type@, entity_id@, environment_id@)(row@)
                {
                    same(row.entity_type.as_str(), entity_type)
                        && same(row.entity_id.as_str(), entity_id)
                        && same(row.environment_id.as_str(), environment_id)
                },
            |row: &ExecutionEnvironmentBindingRow| -> (next: ExecutionEnvironmentBindingRow)
                ensures next@ == environment_becomes(environment_kind@, bound_at)(row@)
                {
                    ExecutionEnvironmentBindingRow {
                        environment_kind: environment_kind.to_owned(),
                        bound_at,
                        ..row.duplicate()
                    }
                },
            row,
            Ghost(environment_of(entity_type@, entity_id@, environment_id@)),
            Ghost(environment_becomes(environment_kind@, bound_at)),
        )
    }

    /// Adds a secret.
    pub fn insert_secret(&mut self, row: &DevelopmentSecretRow) -> (result: Result<(), DbError>)
        ensures
            rows_changed(
                added(
                    old(self)@.secrets,
                    secret_with_id(row@.id),
                    row@,
                    "UNIQUE constraint failed: development_secrets.id"@,
                ),
                result,
                old(self)@.secrets,
                final(self)@.secrets,
            ),
            final(self)@ == (OperationsModel { secrets: final(self)@.secrets, ..old(self)@ }),
    {
        add_row(
            &mut self.secrets,
            row.duplicate(),
            |known: &DevelopmentSecretRow| -> (yes: bool)
                ensures yes == secret_with_id(row@.id)(known@)
                { same(known.id.as_str(), row.id.as_str()) },
            "UNIQUE constraint failed: development_secrets.id",
            Ghost(secret_with_id(row@.id)),
        )
    }

    /// A user's secret.
    pub fn get_secret(&self, user_id: &str, secret_id: &str) -> (row: Option<DevelopmentSecretRow>)
        ensures
            found(row) == lookup(self@.secrets, secret_of(user_id@, secret_id@)),
    {
        fetch_where(
            &self.secrets,
            |row: &DevelopmentSecretRow| -> (yes: bool)
                ensures yes == secret_of(user_id@, secret_id@)(row@)
                { same(row.user_id.as_str(), user_id) && same(row.id.as_str(), secret_id) },
            Ghost(secret_of(user_id@, secret_id@)),
        )
    }

    /// A user's secrets of a project.
    pub fn list_secrets(&self, user_id: &str, project_id: &str) -> (list: Vec<DevelopmentSecretRow>)
        ensures
            model(list@) == ordered(
                selected(self@.secrets, secrets_of(user_id@, project_id@)),
                latest_secret(),
            ),
    {
        list_where(
            &self.secrets,
            |row: &DevelopmentSecretRow| -> (yes: bool)
                ensures yes == secrets_of(user_id@, project_id@)(row@)
                {
                    same(row.user_id.as_str(), user_id) && same(row.project_id.as_str(), project_id)
                },
            |a: &DevelopmentSecretRow, b: &DevelopmentSecretRow| -> (yes: bool)
                ensures yes == latest_secret()(a@, b@)
                {
                    b.created_at < a.created_at
                        || (a.created_at == b.created_at && (before(b.id.as_str(), a.id.as_str())))
                },
            Ghost(secrets_of(user_id@, project_id@)),
            Ghost(latest_secret()),
        )
    }

    /// Revokes a user's secret, and says whether it could still be used.
    pub fn revoke_secret(&mut self, user_id: &str, secret_id: &str, revoked_at: i64) -> (done: bool)
        ensures
            final(self)@ == (OperationsModel {
                secrets: updated(
                    old(self)@.secrets,
                    usable_secret(user_id@, secret_id@),
                    secret_revoked(revoked_at),
                ),
                ..old(self)@
            }),
            done == exists_in(old(self)@.secrets, usable_secret(user_id@, secret_id@)),
    {
        let known = any_where(
            &self.secrets,
            |row: &DevelopmentSecretRow| -> (yes: bool)
                ensures yes == usable_secret(user_id@, secret_id@)(row@)
                {
                    same(row.user_id.as_str(), user_id) && same(row.id.as_str(), secret_id)
                        && same(row.status.as_str(), "active")
                },
            Ghost(usable_secret(user_id@, secret_id@)),
        );
        let _count: u64 = update_where(
            &mut self.secrets,
            |row: &DevelopmentSecretRow| -> (yes: bool)
                ensures yes == usable_secret(user_id@, secret_id@)(row@)
                {
                    same(row.user_id.as_str(), user_id) && same(row.id.as_str(), secret_id)
                        && same(row.status.as_str(), "active")
                },
            |row: &DevelopmentSecretRow| -> (next: DevelopmentSecretRow)
                ensures next@ == secret_revoked(revoked_at)(row@)
                {
                    DevelopmentSecretRow {
                        status: "revoked".to_owned(),
                        revoked_at: Some(revoked_at),
                        updated_at: revoked_at,
                        ..row.duplicate()
                    }
                },
            Ghost(usable_secret(user_id@, secret_id@)),
            Ghost(secret_revoked(revoked_at)),
        );
        known
    }

    /// Writes the leave to use a secret in one place.
    pub fn upsert_secret_grant(
        &mut self,
        row: &DevelopmentSecretGrantRow,
    ) -> (result: Result<(), DbError>)
        ensures
            rows_changed(
                written(
                    old(self)@.grants,
                    grant_for(
                        row@.user_id,
                        row@.secret_id,
                        row@.scope_type,
                        row@.scope_id,
                        row@.environment_key,
                    ),
                    grant_becomes(row@),
                    grant_with_id(row@.id),
                    row@,
                    "UNIQUE constraint failed: development_secret_grants.id"@,
                ),
                result,
                old(self)@.grants,
                final(self)@.grants,
            ),
            final(self)@ == (OperationsModel { grants: final(self)@.grants, ..old(self)@ }),
    {
        write_row(
            &mut self.grants,
            |known: &DevelopmentSecretGrantRow| -> (yes: bool)
                ensures yes == grant_for(
                    row@.user_id,
                    row@.secret_id,
                    row@.scope_type,
                    row@.scope_id,
                    row@.environment_key,
                )(known@)
                {
                    same(known.user_id.as_str(), row.user_id.as_str())
                        && same(known.secret_id.as_str(), row.secret_id.as_str())
                        && same(known.scope_type.as_str(), row.scope_type.as_str())
                        && same(known.scope_id.as_str(), row.scope_id.as_str())
                        && same(known.environment_key.as_str(), row.environment_key.as_str())
                },
            |known: &DevelopmentSecretGrantRow| -> (next: DevelopmentSecretGrantRow)
                ensures next@ == grant_becomes(row@)(known@)
                {
                    DevelopmentSecretGrantRow {
                        status: row.status.clone(),
                        expires_at: row.expires_at,
                        revoked_at: row.revoked_at,
                        updated_at: row.updated_at,
                        ..known.duplicate()
                    }
                },
            |known: &DevelopmentSecretGrantRow| -> (yes: bool)
                ensures yes == grant_with_id(row@.id)(known@)
                { same(known.id.as_str(), row.id.as_str()) },
            row.duplicate(),
            "UNIQUE constraint failed: development_secret_grants.id",
            Ghost(
                grant_for(
                    row@.user_id,
                    row@.secret_id,
                    row@.scope_type,
                    row@.scope_id,
                    row@.environment_key,
                ),
            ),
            Ghost(grant_becomes(row@)),
            Ghost(grant_with_id(row@.id)),
        )
    }

    /// The leaves to use a secret.
    pub fn list_secret_grants(
        &self,
        user_id: &str,
        secret_id: &str,
    ) -> (list: Vec<DevelopmentSecretGrantRow>)
        ensures
            model(list@) == ordered(
                selected(self@.grants, grants_of(user_id@, secret_id@)),
                oldest_grant(),
            ),
    {
        list_where(
            &self.grants,
            |row: &DevelopmentSecretGrantRow| -> (yes: bool)
                ensures yes == grants_of(user_id@, secret_id@)(row@)
                { same(row.user_id.as_str(), user_id) && same(row.secret_id.as_str(), secret_id) },
            |a: &DevelopmentSecretGrantRow, b: &DevelopmentSecretGrantRow| -> (yes: bool)
                ensures yes == oldest_grant()(a@, b@)
                {
                    a.created_at < b.created_at
                        || (a.created_at == b.created_at && (before(a.id.as_str(), b.id.as_str())))
                },
            Ghost(grants_of(user_id@, secret_id@)),
            Ghost(oldest_grant()),
        )
    }

    /// Writes the price of a model.
    pub fn upsert_model_price(
        &mut self,
        row: &DevelopmentModelPriceRow,
    ) -> (result: Result<(), DbError>)
        ensures
            rows_changed(
                written(
                    old(self)@.prices,
                    price_of(row@.provider, row@.model, row@.source_id, row@.version),
                    price_becomes(row@),
                    price_with_id(row@.id),
                    row@,
                    "UNIQUE constraint failed: development_model_prices.id"@,
                ),
                result,
                old(self)@.prices,
                final(self)@.prices,
            ),
            final(self)@ == (OperationsModel { prices: final(self)@.prices, ..old(self)@ }),
    {
        write_row(
            &mut self.prices,
            |known: &DevelopmentModelPriceRow| -> (yes: bool)
                ensures yes == price_of(
                    row@.provider,
                    row@.model,
                    row@.source_id,
                    row@.version,
                )(known@)
                {
                    same(known.provider.as_str(), row.provider.as_str())
                        && same(known.model.as_str(), row.model.as_str())
                        && same(known.source_id.as_str(), row.source_id.as_str())
                        && same(known.version.as_str(), row.version.as_str())
                },
            |known: &DevelopmentModelPriceRow| -> (next: DevelopmentModelPriceRow)
                ensures next@ == price_becomes(row@)(known@)
                {
                    DevelopmentModelPriceRow {
                        input_per_million_microunits: row.input_per_million_microunits,
                        output_per_million_microunits: row.output_per_million_microunits,
                        cache_read_per_million_microunits: row.cache_read_per_million_microunits,
                        cache_write_per_million_microunits: row.cache_write_per_million_microunits,
                        effective_at: row.effective_at,
                        ..known.duplicate()
                    }
                },
            |known: &DevelopmentModelPriceRow| -> (yes: bool)
                ensures yes == price_with_id(row@.id)(known@)
                { same(known.id.as_str(), row.id.as_str()) },
            row.duplicate(),
            "UNIQUE constraint failed: development_model_prices.id",
            Ghost(price_of(row@.provider, row@.model, row@.source_id, row@.version)),
            Ghost(price_becomes(row@)),
            Ghost(price_with_id(row@.id)),
        )
    }

    /// The price of a model that holds at a time.
    pub fn resolve_model_price(
        &self,
        provider: &str,
        model: &str,
        occurred_at: i64,
    ) -> (row: Option<DevelopmentModelPriceRow>)
        ensures
            found(row) == least(
                self@.prices,
                price_by(provider@, model@, occurred_at),
                latest_price(),
            ),
    {
        fetch_least(
            &self.prices,
            |row: &DevelopmentModelPriceRow| -> (yes: bool)
                ensures yes == price_by(provider@, model@, occurred_at)(row@)
                {
                    same(row.provider.as_str(), provider) && same(row.model.as_str(), model)
                        && row.effective_at <= occurred_at
                },
            |a: &DevelopmentModelPriceRow, b: &DevelopmentModelPriceRow| -> (yes: bool)
                ensures yes == latest_price()(a@, b@)
                {
                    b.effective_at < a.effective_at
                        || (
                            a.effective_at == b.effective_at
                                && (
                                    b.created_at < a.created_at
                                        || (
                                            a.created_at == b.created_at
                                                && (before(b.id.as_str(), a.id.as_str()))
                                        )
                                )
                        )
                },
            Ghost(price_by(provider@, model@, occurred_at)),
            Ghost(latest_price()),
        )
    }
}

// ----------------------------------------------------------------------------
// What these tables promise
// ----------------------------------------------------------------------------

proof fn lemma_latest_price()
    ensures
        orders(latest_price()),
{
    let less = latest_price();
    assert forall|a: Price, b: Price| #[trigger] less(a, b) implies !less(b, a) by {
        lemma_text_order(a.id, b.id);
    }
    assert forall|a: Price, b: Price, c: Price| #[trigger] less(a, c) && !less(b, c)
        implies #[trigger] less(
        a,
        b,
    ) by {
        lemma_text_order(a.id, b.id);
        lemma_text_order(a.id, c.id);
        lemma_text_order(b.id, c.id);
        if text_before(c.id, a.id) && text_before(b.id, c.id) {
            lemma_text_transitive(b.id, c.id, a.id);
        }
    }
}

/// The price that holds at a time is one of the model, took effect by then, and
/// none of the model took effect later and still by then.
pub proof fn law_price_in_effect(prices: Seq<Price>, provider: Seq<char>, name: Seq<char>, at: i64)
    ensures
        match least(prices, price_by(provider, name, at), latest_price()) {
            Some(price) => {
                &&& prices.contains(price)
                &&& price_by(provider, name, at)(price)
                &&& forall|i: int|
                    0 <= i < prices.len() && price_by(provider, name, at)(#[trigger] prices[i])
                        ==> prices[i].effective_at <= price.effective_at
            },
            None => !exists_in(prices, price_by(provider, name, at)),
        },
{
    let hit = price_by(provider, name, at);
    lemma_latest_price();
    law_least(prices, hit, latest_price());
    lemma_least_selected(prices, hit, latest_price());
    if let Some(price) = least(prices, hit, latest_price()) {
        assert forall|i: int| 0 <= i < prices.len() && hit(#[trigger] prices[i])
            implies prices[i].effective_at
            <= price.effective_at by {
            assert(!latest_price()(prices[i], price));
        }
    }
}

/// A revoked secret cannot be used or revoked again.
pub proof fn law_revoked_stays_revoked(
    secrets: Seq<Secret>,
    user_id: Seq<char>,
    secret_id: Seq<char>,
    at: i64,
)
    ensures
        !exists_in(
            updated(secrets, usable_secret(user_id, secret_id), secret_revoked(at)),
            usable_secret(user_id, secret_id),
        ),
{
    reveal_strlit("active");
    reveal_strlit("revoked");
    assert("active"@[0] != "revoked"@[0]);
}

/// An alert that comes up again is the same alert still: there are no more of
/// them, and its id and its age stay.
pub proof fn law_alert_is_not_doubled(alerts: Seq<Alert>, new: Alert, text: Seq<char>)
    requires
        exists_in(alerts, alert_by_key(new.user_id, new.dedupe_key)),
    ensures
        ({
            let hit = alert_by_key(new.user_id, new.dedupe_key);
            &&& lookup(alerts, hit) matches Some(known)
            &&& written(alerts, hit, alert_becomes(new), alert_with_id(new.id), new, text)
                matches Ok(after)
            &&& after.len() == alerts.len()
            &&& lookup(after, hit) matches Some(alert)
            &&& alert.id == known.id
            &&& alert.created_at == known.created_at
            &&& alert.status == new.status
            &&& alert.message == new.message
        }),
{
    let hit = alert_by_key(new.user_id, new.dedupe_key);
    lemma_lookup(alerts, hit);
    law_put_is_found(alerts, hit, alert_becomes(new), new);
}

/// A policy is read as it was written, under the id and with the age it had.
pub proof fn law_policy_is_read(policies: Seq<Policy>, new: Policy, text: Seq<char>)
    ensures
        ({
            let hit = policy_of(new.user_id, new.project_id);
            written(policies, hit, policy_becomes(new), policy_with_id(new.id), new, text)
                matches Ok(after) ==> lookup(after, hit) == (match lookup(policies, hit) {
                Some(known) => Some(
                    DevelopmentPolicyRow { id: known.id, created_at: known.created_at, ..new },
                ),
                None => Some(new),
            })
        }),
{
    let hit = policy_of(new.user_id, new.project_id);
    lemma_lookup(policies, hit);
    law_put_is_found(policies, hit, policy_becomes(new), new);
}

} // verus!

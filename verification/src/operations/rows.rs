//! The rows of the tables on running development.
use crate::table::Record;
use crate::text::{copy_opt, opt_text};
use vstd::prelude::*;

verus! {

/// What the runs on a project may do, and what they may cost.
#[derive(Debug, Clone, PartialEq, Eq)]
pub struct DevelopmentPolicyRow<T = String> {
    pub id: T,
    pub user_id: T,
    pub project_id: T,
    pub isolation_mode: T,
    pub container_image: Option<T>,
    pub devcontainer_config_path: Option<T>,
    pub container_cpu_millis: Option<i64>,
    pub container_memory_mb: Option<i64>,
    pub container_pids_limit: Option<i64>,
    pub network_mode: T,
    pub allowed_secret_keys_json: T,
    pub allowed_commands_json: T,
    pub protected_paths_json: T,
    pub allowed_network_hosts_json: T,
    pub protected_branches_json: T,
    pub dangerous_confirmation_count: i64,
    pub max_duration_ms: Option<i64>,
    pub max_parallel_agents: Option<i64>,
    pub max_retries: Option<i64>,
    pub max_cost_microunits: Option<i64>,
    pub max_total_tokens: Option<i64>,
    pub fallback_model: Option<T>,
    pub alert_percent: i64,
    pub over_limit_action: T,
    pub created_at: i64,
    pub updated_at: i64,
}

impl View for DevelopmentPolicyRow<String> {
    type V = DevelopmentPolicyRow<Seq<char>>;

    open spec fn view(&self) -> DevelopmentPolicyRow<Seq<char>> {
        DevelopmentPolicyRow {
            id: self.id@,
            user_id: self.user_id@,
            project_id: self.project_id@,
            isolation_mode: self.isolation_mode@,
            container_image: opt_text(self.container_image),
            devcontainer_config_path: opt_text(self.devcontainer_config_path),
            container_cpu_millis: self.container_cpu_millis,
            container_memory_mb: self.container_memory_mb,
            container_pids_limit: self.container_pids_limit,
            network_mode: self.network_mode@,
            allowed_secret_keys_json: self.allowed_secret_keys_json@,
            allowed_commands_json: self.allowed_commands_json@,
            protected_paths_json: self.protected_paths_json@,
            allowed_network_hosts_json: self.allowed_network_hosts_json@,
            protected_branches_json: self.protected_branches_json@,
            dangerous_confirmation_count: self.dangerous_confirmation_count,
            max_duration_ms: self.max_duration_ms,
            max_parallel_agents: self.max_parallel_agents,
            max_retries: self.max_retries,
            max_cost_microunits: self.max_cost_microunits,
            max_total_tokens: self.max_total_tokens,
            fallback_model: opt_text(self.fallback_model),
            alert_percent: self.alert_percent,
            over_limit_action: self.over_limit_action@,
            created_at: self.created_at,
            updated_at: self.updated_at,
        }
    }
}

impl Record for DevelopmentPolicyRow<String> {
    fn duplicate(&self) -> (copy: Self) {
        DevelopmentPolicyRow {
            id: self.id.clone(),
            user_id: self.user_id.clone(),
            project_id: self.project_id.clone(),
            isolation_mode: self.isolation_mode.clone(),
            container_image: copy_opt(&self.container_image),
            devcontainer_config_path: copy_opt(&self.devcontainer_config_path),
            container_cpu_millis: self.container_cpu_millis,
            container_memory_mb: self.container_memory_mb,
            container_pids_limit: self.container_pids_limit,
            network_mode: self.network_mode.clone(),
            allowed_secret_keys_json: self.allowed_secret_keys_json.clone(),
            allowed_commands_json: self.allowed_commands_json.clone(),
            protected_paths_json: self.protected_paths_json.clone(),
            allowed_network_hosts_json: self.allowed_network_hosts_json.clone(),
            protected_branches_json: self.protected_branches_json.clone(),
            dangerous_confirmation_count: self.dangerous_confirmation_count,
            max_duration_ms: self.max_duration_ms,
            max_parallel_agents: self.max_parallel_agents,
            max_retries: self.max_retries,
            max_cost_microunits: self.max_cost_microunits,
            max_total_tokens: self.max_total_tokens,
            fallback_model: copy_opt(&self.fallback_model),
            alert_percent: self.alert_percent,
            over_limit_action: self.over_limit_action.clone(),
            created_at: self.created_at,
            updated_at: self.updated_at,
        }
    }
}

/// The model of a policy.
pub type Policy = DevelopmentPolicyRow<Seq<char>>;

/// What a step of a run has used.
#[derive(Debug, Clone, PartialEq, Eq)]
pub struct DevelopmentUsageEventRow<T = String> {
    pub id: T,
    pub user_id: T,
    pub project_id: T,
    pub run_id: Option<T>,
    pub task_id: Option<T>,
    pub usage_type: T,
    pub source: T,
    pub confidence: T,
    pub input_tokens: i64,
    pub output_tokens: i64,
    pub cost_microunits: Option<i64>,
    pub duration_ms: i64,
    pub retry_count: i64,
    pub metadata_json: T,
    pub created_at: i64,
}

impl View for DevelopmentUsageEventRow<String> {
    type V = DevelopmentUsageEventRow<Seq<char>>;

    open spec fn view(&self) -> DevelopmentUsageEventRow<Seq<char>> {
        DevelopmentUsageEventRow {
            id: self.id@,
            user_id: self.user_id@,
            project_id: self.project_id@,
            run_id: opt_text(self.run_id),
            task_id: opt_text(self.task_id),
            usage_type: self.usage_type@,
            source: self.source@,
            confidence: self.confidence@,
            input_tokens: self.input_tokens,
            output_tokens: self.output_tokens,
            cost_microunits: self.cost_microunits,
            duration_ms: self.duration_ms,
            retry_count: self.retry_count,
            metadata_json: self.metadata_json@,
            created_at: self.created_at,
        }
    }
}

impl Record for DevelopmentUsageEventRow<String> {
    fn duplicate(&self) -> (copy: Self) {
        DevelopmentUsageEventRow {
            id: self.id.clone(),
            user_id: self.user_id.clone(),
            project_id: self.project_id.clone(),
            run_id: copy_opt(&self.run_id),
            task_id: copy_opt(&self.task_id),
            usage_type: self.usage_type.clone(),
            source: self.source.clone(),
            confidence: self.confidence.clone(),
            input_tokens: self.input_tokens,
            output_tokens: self.output_tokens,
            cost_microunits: self.cost_microunits,
            duration_ms: self.duration_ms,
            retry_count: self.retry_count,
            metadata_json: self.metadata_json.clone(),
            created_at: self.created_at,
        }
    }
}

/// The model of a use.
pub type Usage = DevelopmentUsageEventRow<Seq<char>>;

/// What a step has used, with what it cost and how that is known.
#[derive(Debug, Clone, PartialEq, Eq)]
pub struct DevelopmentPricedUsageEventRow<T = String> {
    pub id: T,
    pub user_id: T,
    pub project_id: T,
    pub run_id: Option<T>,
    pub task_id: Option<T>,
    pub conversation_id: Option<T>,
    pub agent_id: Option<T>,
    pub team_id: Option<T>,
    pub usage_type: T,
    pub source: T,
    pub confidence: T,
    pub provider: Option<T>,
    pub model: Option<T>,
    pub input_tokens: i64,
    pub output_tokens: i64,
    pub cache_read_tokens: i64,
    pub cache_write_tokens: i64,
    pub cost_microunits: Option<i64>,
    pub cost_status: T,
    pub cost_origin: Option<T>,
    pub price_source_id: Option<T>,
    pub price_version: Option<T>,
    pub price_effective_at: Option<i64>,
    pub duration_ms: i64,
    pub retry_count: i64,
    pub metadata_json: T,
    pub created_at: i64,
}

impl View for DevelopmentPricedUsageEventRow<String> {
    type V = DevelopmentPricedUsageEventRow<Seq<char>>;

    open spec fn view(&self) -> DevelopmentPricedUsageEventRow<Seq<char>> {
        DevelopmentPricedUsageEventRow {
            id: self.id@,
            user_id: self.user_id@,
            project_id: self.project_id@,
            run_id: opt_text(self.run_id),
            task_id: opt_text(self.task_id),
            conversation_id: opt_text(self.conversation_id),
            agent_id: opt_text(self.agent_id),
            team_id: opt_text(self.team_id),
            usage_type: self.usage_type@,
            source: self.source@,
            confidence: self.confidence@,
            provider: opt_text(self.provider),
            model: opt_text(self.model),
            input_tokens: self.input_tokens,
            output_tokens: self.output_tokens,
            cache_read_tokens: self.cache_read_tokens,
            cache_write_tokens: self.cache_write_tokens,
            cost_microunits: self.cost_microunits,
            cost_status: self.cost_status@,
            cost_origin: opt_text(self.cost_origin),
            price_source_id: opt_text(self.price_source_id),
            price_version: opt_text(self.price_version),
            price_effective_at: self.price_effective_at,
            duration_ms: self.duration_ms,
            retry_count: self.retry_count,
            metadata_json: self.metadata_json@,
            created_at: self.created_at,
        }
    }
}

impl Record for DevelopmentPricedUsageEventRow<String> {
    fn duplicate(&self) -> (copy: Self) {
        DevelopmentPricedUsageEventRow {
            id: self.id.clone(),
            user_id: self.user_id.clone(),
            project_id: self.project_id.clone(),
            run_id: copy_opt(&self.run_id),
            task_id: copy_opt(&self.task_id),
            conversation_id: copy_opt(&self.conversation_id),
            agent_id: copy_opt(&self.agent_id),
            team_id: copy_opt(&self.team_id),
            usage_type: self.usage_type.clone(),
            source: self.source.clone(),
            confidence: self.confidence.clone(),
            provider: copy_opt(&self.provider),
            model: copy_opt(&self.model),
            input_tokens: self.input_tokens,
            output_tokens: self.output_tokens,
            cache_read_tokens: self.cache_read_tokens,
            cache_write_tokens: self.cache_write_tokens,
            cost_microunits: self.cost_microunits,
            cost_status: self.cost_status.clone(),
            cost_origin: copy_opt(&self.cost_origin),
            price_source_id: copy_opt(&self.price_source_id),
            price_version: copy_opt(&self.price_version),
            price_effective_at: self.price_effective_at,
            duration_ms: self.duration_ms,
            retry_count: self.retry_count,
            metadata_json: self.metadata_json.clone(),
            created_at: self.created_at,
        }
    }
}

/// The model of a priced use.
pub type PricedUsage = DevelopmentPricedUsageEventRow<Seq<char>>;

/// What the columns on prices hold of a use that was written without them.
#[derive(Debug, Clone, PartialEq, Eq)]
pub struct PriceColumns<T = String> {
    pub cache_read_tokens: i64,
    pub cache_write_tokens: i64,
    pub cost_status: T,
    pub cost_origin: Option<T>,
}

impl View for PriceColumns<String> {
    type V = PriceColumns<Seq<char>>;

    open spec fn view(&self) -> PriceColumns<Seq<char>> {
        PriceColumns {
            cache_read_tokens: self.cache_read_tokens,
            cache_write_tokens: self.cache_write_tokens,
            cost_status: self.cost_status@,
            cost_origin: opt_text(self.cost_origin),
        }
    }
}

impl Record for PriceColumns<String> {
    fn duplicate(&self) -> (copy: Self) {
        PriceColumns {
            cache_read_tokens: self.cache_read_tokens,
            cache_write_tokens: self.cache_write_tokens,
            cost_status: self.cost_status.clone(),
            cost_origin: copy_opt(&self.cost_origin),
        }
    }
}

/// The model of those columns.
pub type Columns = PriceColumns<Seq<char>>;

/// Who did what to what.
#[derive(Debug, Clone, PartialEq, Eq)]
pub struct DevelopmentAuditEventRow<T = String> {
    pub id: T,
    pub user_id: T,
    pub actor_type: T,
    pub actor_id: T,
    pub action: T,
    pub target_type: T,
    pub target_id: Option<T>,
    pub project_id: Option<T>,
    pub run_id: Option<T>,
    pub task_id: Option<T>,
    pub result: T,
    pub redacted_payload_json: T,
    pub created_at: i64,
}

impl View for DevelopmentAuditEventRow<String> {
    type V = DevelopmentAuditEventRow<Seq<char>>;

    open spec fn view(&self) -> DevelopmentAuditEventRow<Seq<char>> {
        DevelopmentAuditEventRow {
            id: self.id@,
            user_id: self.user_id@,
            actor_type: self.actor_type@,
            actor_id: self.actor_id@,
            action: self.action@,
            target_type: self.target_type@,
            target_id: opt_text(self.target_id),
            project_id: opt_text(self.project_id),
            run_id: opt_text(self.run_id),
            task_id: opt_text(self.task_id),
            result: self.result@,
            redacted_payload_json: self.redacted_payload_json@,
            created_at: self.created_at,
        }
    }
}

impl Record for DevelopmentAuditEventRow<String> {
    fn duplicate(&self) -> (copy: Self) {
        DevelopmentAuditEventRow {
            id: self.id.clone(),
            user_id: self.user_id.clone(),
            actor_type: self.actor_type.clone(),
            actor_id: self.actor_id.clone(),
            action: self.action.clone(),
            target_type: self.target_type.clone(),
            target_id: copy_opt(&self.target_id),
            project_id: copy_opt(&self.project_id),
            run_id: copy_opt(&self.run_id),
            task_id: copy_opt(&self.task_id),
            result: self.result.clone(),
            redacted_payload_json: self.redacted_payload_json.clone(),
            created_at: self.created_at,
        }
    }
}

/// The model of an event.
pub type Audit = DevelopmentAuditEventRow<Seq<char>>;

/// Something that a user should know of.
#[derive(Debug, Clone, PartialEq, Eq)]
pub struct DevelopmentAlertRow<T = String> {
    pub id: T,
    pub user_id: T,
    pub project_id: T,
    pub run_id: Option<T>,
    pub alert_type: T,
    pub severity: T,
    pub status: T,
    pub message: T,
    pub dedupe_key: T,
    pub created_at: i64,
    pub updated_at: i64,
    pub resolved_at: Option<i64>,
}

impl View for DevelopmentAlertRow<String> {
    type V = DevelopmentAlertRow<Seq<char>>;

    open spec fn view(&self) -> DevelopmentAlertRow<Seq<char>> {
        DevelopmentAlertRow {
            id: self.id@,
            user_id: self.user_id@,
            project_id: self.project_id@,
            run_id: opt_text(self.run_id),
            alert_type: self.alert_type@,
            severity: self.severity@,
            status: self.status@,
            message: self.message@,
            dedupe_key: self.dedupe_key@,
            created_at: self.created_at,
            updated_at: self.updated_at,
            resolved_at: self.resolved_at,
        }
    }
}

impl Record for DevelopmentAlertRow<String> {
    fn duplicate(&self) -> (copy: Self) {
        DevelopmentAlertRow {
            id: self.id.clone(),
            user_id: self.user_id.clone(),
            project_id: self.project_id.clone(),
            run_id: copy_opt(&self.run_id),
            alert_type: self.alert_type.clone(),
            severity: self.severity.clone(),
            status: self.status.clone(),
            message: self.message.clone(),
            dedupe_key: self.dedupe_key.clone(),
            created_at: self.created_at,
            updated_at: self.updated_at,
            resolved_at: self.resolved_at,
        }
    }
}

/// The model of an alert.
pub type Alert = DevelopmentAlertRow<Seq<char>>;

/// What was found of a run that had stopped, and what was decided.
#[derive(Debug, Clone, PartialEq, Eq)]
pub struct DevelopmentRecoveryRecordRow<T = String> {
    pub id: T,
    pub user_id: T,
    pub project_id: T,
    pub run_id: Option<T>,
    pub recovery_key: T,
    pub finding: T,
    pub decision: T,
    pub status_before: T,
    pub status_after: T,
    pub details_json: T,
    pub created_at: i64,
}

impl View for DevelopmentRecoveryRecordRow<String> {
    type V = DevelopmentRecoveryRecordRow<Seq<char>>;

    open spec fn view(&self) -> DevelopmentRecoveryRecordRow<Seq<char>> {
        DevelopmentRecoveryRecordRow {
            id: self.id@,
            user_id: self.user_id@,
            project_id: self.project_id@,
            run_id: opt_text(self.run_id),
            recovery_key: self.recovery_key@,
            finding: self.finding@,
            decision: self.decision@,
            status_before: self.status_before@,
            status_after: self.status_after@,
            details_json: self.details_json@,
            created_at: self.created_at,
        }
    }
}

impl Record for DevelopmentRecoveryRecordRow<String> {
    fn duplicate(&self) -> (copy: Self) {
        DevelopmentRecoveryRecordRow {
            id: self.id.clone(),
            user_id: self.user_id.clone(),
            project_id: self.project_id.clone(),
            run_id: copy_opt(&self.run_id),
            recovery_key: self.recovery_key.clone(),
            finding: self.finding.clone(),
            decision: self.decision.clone(),
            status_before: self.status_before.clone(),
            status_after: self.status_after.clone(),
            details_json: self.details_json.clone(),
            created_at: self.created_at,
        }
    }
}

/// The model of such a record.
pub type Recovery = DevelopmentRecoveryRecordRow<Seq<char>>;

/// A hold on something that a run uses, such as a container.
#[derive(Debug, Clone, PartialEq, Eq)]
pub struct ExecutionResourceLeaseRow<T = String> {
    pub id: T,
    pub user_id: T,
    pub project_id: T,
    pub run_id: T,
    pub task_id: Option<T>,
    pub turn_id: Option<T>,
    pub gate_id: Option<T>,
    pub environment_id: T,
    pub environment_kind: T,
    pub resource_kind: T,
    pub resource_identifier: T,
    pub status: T,
    pub accepts_work: bool,
    pub owner_instance_id: Option<T>,
    pub heartbeat_at: i64,
    pub expires_at: i64,
    pub cleanup_order: i64,
    pub cleanup_status: Option<T>,
    pub cleanup_result: Option<T>,
    pub recovery_decision: Option<T>,
    pub created_at: i64,
    pub updated_at: i64,
    pub terminal_at: Option<i64>,
}

impl View for ExecutionResourceLeaseRow<String> {
    type V = ExecutionResourceLeaseRow<Seq<char>>;

    open spec fn view(&self) -> ExecutionResourceLeaseRow<Seq<char>> {
        ExecutionResourceLeaseRow {
            id: self.id@,
            user_id: self.user_id@,
            project_id: self.project_id@,
            run_id: self.run_id@,
            task_id: opt_text(self.task_id),
            turn_id: opt_text(self.turn_id),
            gate_id: opt_text(self.gate_id),
            environment_id: self.environment_id@,
            environment_kind: self.environment_kind@,
            resource_kind: self.resource_kind@,
            resource_identifier: self.resource_identifier@,
            status: self.status@,
            accepts_work: self.accepts_work,
            owner_instance_id: opt_text(self.owner_instance_id),
            heartbeat_at: self.heartbeat_at,
            expires_at: self.expires_at,
            cleanup_order: self.cleanup_order,
            cleanup_status: opt_text(self.cleanup_status),
            cleanup_result: opt_text(self.cleanup_result),
            recovery_decision: opt_text(self.recovery_decision),
            created_at: self.created_at,
            updated_at: self.updated_at,
            terminal_at: self.terminal_at,
        }
    }
}

impl Record for ExecutionResourceLeaseRow<String> {
    fn duplicate(&self) -> (copy: Self) {
        ExecutionResourceLeaseRow {
            id: self.id.clone(),
            user_id: self.user_id.clone(),
            project_id: self.project_id.clone(),
            run_id: self.run_id.clone(),
            task_id: copy_opt(&self.task_id),
            turn_id: copy_opt(&self.turn_id),
            gate_id: copy_opt(&self.gate_id),
            environment_id: self.environment_id.clone(),
            environment_kind: self.environment_kind.clone(),
            resource_kind: self.resource_kind.clone(),
            resource_identifier: self.resource_identifier.clone(),
            status: self.status.clone(),
            accepts_work: self.accepts_work,
            owner_instance_id: copy_opt(&self.owner_instance_id),
            heartbeat_at: self.heartbeat_at,
            expires_at: self.expires_at,
            cleanup_order: self.cleanup_order,
            cleanup_status: copy_opt(&self.cleanup_status),
            cleanup_result: copy_opt(&self.cleanup_result),
            recovery_decision: copy_opt(&self.recovery_decision),
            created_at: self.created_at,
            updated_at: self.updated_at,
            terminal_at: self.terminal_at,
        }
    }
}

/// The model of a hold.
pub type ResourceLease = ExecutionResourceLeaseRow<Seq<char>>;

/// Where something is carried out.
#[derive(Debug, Clone, PartialEq, Eq)]
pub struct ExecutionEnvironmentBindingRow<T = String> {
    pub entity_type: T,
    pub entity_id: T,
    pub environment_id: T,
    pub environment_kind: T,
    pub bound_at: i64,
}

impl View for ExecutionEnvironmentBindingRow<String> {
    type V = ExecutionEnvironmentBindingRow<Seq<char>>;

    open spec fn view(&self) -> ExecutionEnvironmentBindingRow<Seq<char>> {
        ExecutionEnvironmentBindingRow {
            entity_type: self.entity_type@,
            entity_id: self.entity_id@,
            environment_id: self.environment_id@,
            environment_kind: self.environment_kind@,
            bound_at: self.bound_at,
        }
    }
}

impl Record for ExecutionEnvironmentBindingRow<String> {
    fn duplicate(&self) -> (copy: Self) {
        ExecutionEnvironmentBindingRow {
            entity_type: self.entity_type.clone(),
            entity_id: self.entity_id.clone(),
            environment_id: self.environment_id.clone(),
            environment_kind: self.environment_kind.clone(),
            bound_at: self.bound_at,
        }
    }
}

/// The model of such a place.
pub type Environment = ExecutionEnvironmentBindingRow<Seq<char>>;

/// A secret of a project, encrypted.
#[derive(Debug, Clone, PartialEq, Eq)]
pub struct DevelopmentSecretRow<T = String> {
    pub id: T,
    pub user_id: T,
    pub project_id: T,
    pub name: T,
    pub encrypted_value: T,
    pub key_version: T,
    pub status: T,
    pub expires_at: Option<i64>,
    pub revoked_at: Option<i64>,
    pub created_at: i64,
    pub updated_at: i64,
}

impl View for DevelopmentSecretRow<String> {
    type V = DevelopmentSecretRow<Seq<char>>;

    open spec fn view(&self) -> DevelopmentSecretRow<Seq<char>> {
        DevelopmentSecretRow {
            id: self.id@,
            user_id: self.user_id@,
            project_id: self.project_id@,
            name: self.name@,
            encrypted_value: self.encrypted_value@,
            key_version: self.key_version@,
            status: self.status@,
            expires_at: self.expires_at,
            revoked_at: self.revoked_at,
            created_at: self.created_at,
            updated_at: self.updated_at,
        }
    }
}

impl Record for DevelopmentSecretRow<String> {
    fn duplicate(&self) -> (copy: Self) {
        DevelopmentSecretRow {
            id: self.id.clone(),
            user_id: self.user_id.clone(),
            project_id: self.project_id.clone(),
            name: self.name.clone(),
            encrypted_value: self.encrypted_value.clone(),
            key_version: self.key_version.clone(),
            status: self.status.clone(),
            expires_at: self.expires_at,
            revoked_at: self.revoked_at,
            created_at: self.created_at,
            updated_at: self.updated_at,
        }
    }
}

/// The model of a secret.
pub type Secret = DevelopmentSecretRow<Seq<char>>;

/// Where a secret may be used.
#[derive(Debug, Clone, PartialEq, Eq)]
pub struct DevelopmentSecretGrantRow<T = String> {
    pub id: T,
    pub user_id: T,
    pub project_id: T,
    pub secret_id: T,
    pub scope_type: T,
    pub scope_id: T,
    pub environment_key: T,
    pub status: T,
    pub expires_at: Option<i64>,
    pub revoked_at: Option<i64>,
    pub created_at: i64,
    pub updated_at: i64,
}

impl View for DevelopmentSecretGrantRow<String> {
    type V = DevelopmentSecretGrantRow<Seq<char>>;

    open spec fn view(&self) -> DevelopmentSecretGrantRow<Seq<char>> {
        DevelopmentSecretGrantRow {
            id: self.id@,
            user_id: self.user_id@,
            project_id: self.project_id@,
            secret_id: self.secret_id@,
            scope_type: self.scope_type@,
            scope_id: self.scope_id@,
            environment_key: self.environment_key@,
            status: self.status@,
            expires_at: self.expires_at,
            revoked_at: self.revoked_at,
            created_at: self.created_at,
            updated_at: self.updated_at,
        }
    }
}

impl Record for DevelopmentSecretGrantRow<String> {
    fn duplicate(&self) -> (copy: Self) {
        DevelopmentSecretGrantRow {
            id: self.id.clone(),
            user_id: self.user_id.clone(),
            project_id: self.project_id.clone(),
            secret_id: self.secret_id.clone(),
            scope_type: self.scope_type.clone(),
            scope_id: self.scope_id.clone(),
            environment_key: self.environment_key.clone(),
            status: self.status.clone(),
            expires_at: self.expires_at,
            revoked_at: self.revoked_at,
            created_at: self.created_at,
            updated_at: self.updated_at,
        }
    }
}

/// The model of such a leave.
pub type SecretGrant = DevelopmentSecretGrantRow<Seq<char>>;

/// What a model costs from a time on.
#[derive(Debug, Clone, PartialEq, Eq)]
pub struct DevelopmentModelPriceRow<T = String> {
    pub id: T,
    pub provider: T,
    pub model: T,
    pub input_per_million_microunits: i64,
    pub output_per_million_microunits: i64,
    pub cache_read_per_million_microunits: i64,
    pub cache_write_per_million_microunits: i64,
    pub source_id: T,
    pub version: T,
    pub effective_at: i64,
    pub created_at: i64,
}

impl View for DevelopmentModelPriceRow<String> {
    type V = DevelopmentModelPriceRow<Seq<char>>;

    open spec fn view(&self) -> DevelopmentModelPriceRow<Seq<char>> {
        DevelopmentModelPriceRow {
            id: self.id@,
            provider: self.provider@,
            model: self.model@,
            input_per_million_microunits: self.input_per_million_microunits,
            output_per_million_microunits: self.output_per_million_microunits,
            cache_read_per_million_microunits: self.cache_read_per_million_microunits,
            cache_write_per_million_microunits: self.cache_write_per_million_microunits,
            source_id: self.source_id@,
            version: self.version@,
            effective_at: self.effective_at,
            created_at: self.created_at,
        }
    }
}

impl Record for DevelopmentModelPriceRow<String> {
    fn duplicate(&self) -> (copy: Self) {
        DevelopmentModelPriceRow {
            id: self.id.clone(),
            provider: self.provider.clone(),
            model: self.model.clone(),
            input_per_million_microunits: self.input_per_million_microunits,
            output_per_million_microunits: self.output_per_million_microunits,
            cache_read_per_million_microunits: self.cache_read_per_million_microunits,
            cache_write_per_million_microunits: self.cache_write_per_million_microunits,
            source_id: self.source_id.clone(),
            version: self.version.clone(),
            effective_at: self.effective_at,
            created_at: self.created_at,
        }
    }
}

/// The model of a price.
pub type Price = DevelopmentModelPriceRow<Seq<char>>;

/// What a user has used on a project or in a run.
#[derive(Debug, Clone, Copy, PartialEq, Eq, Structural)]
pub struct DevelopmentUsageSummary {
    pub event_count: i64,
    pub input_tokens: i64,
    pub output_tokens: i64,
    pub cost_microunits: i64,
    pub duration_ms: i64,
    pub retry_count: i64,
}

/// What a user has used of one kind, and what of it has a known cost.
#[derive(Debug, Clone, Copy, PartialEq, Eq, Structural)]
pub struct DevelopmentUsageDimensionSummary {
    pub event_count: i64,
    pub input_tokens: i64,
    pub output_tokens: i64,
    pub cache_read_tokens: i64,
    pub cache_write_tokens: i64,
    pub known_cost_microunits: i64,
    pub unknown_cost_events: i64,
    pub duration_ms: i64,
    pub retry_count: i64,
}

/// What uses are summed up for.
#[derive(Debug, Clone, PartialEq, Eq)]
pub enum UsageDimension<T = String> {
    Project(T),
    Run(T),
    Task(T),
    Conversation(T),
    Agent(T),
    Team(T),
}

impl View for UsageDimension<String> {
    type V = UsageDimension<Seq<char>>;

    open spec fn view(&self) -> UsageDimension<Seq<char>> {
        match self {
            UsageDimension::Project(id) => UsageDimension::Project(id@),
            UsageDimension::Run(id) => UsageDimension::Run(id@),
            UsageDimension::Task(id) => UsageDimension::Task(id@),
            UsageDimension::Conversation(id) => UsageDimension::Conversation(id@),
            UsageDimension::Agent(id) => UsageDimension::Agent(id@),
            UsageDimension::Team(id) => UsageDimension::Team(id@),
        }
    }
}

} // verus!

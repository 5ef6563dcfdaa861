//! The rows of the development tables.
use crate::table::Record;
use crate::text::{copy_opt, opt_text};
use vstd::prelude::*;

verus! {

/// A run of agents on a project.
#[derive(Debug, Clone, PartialEq, Eq)]
pub struct DevelopmentRunRow<T = String> {
    pub id: T,
    pub user_id: T,
    pub project_id: T,
    pub team_id: Option<T>,
    pub source_channel: Option<T>,
    pub source_user_id: Option<T>,
    pub execution_mode: T,
    pub status: T,
    pub request_summary: T,
    pub acceptance_criteria: T,
    pub baseline_commit: Option<T>,
    pub integration_branch: Option<T>,
    pub started_at: Option<i64>,
    pub finished_at: Option<i64>,
    pub created_at: i64,
    pub updated_at: i64,
}

impl View for DevelopmentRunRow<String> {
    type V = DevelopmentRunRow<Seq<char>>;

    open spec fn view(&self) -> DevelopmentRunRow<Seq<char>> {
        DevelopmentRunRow {
            id: self.id@,
            user_id: self.user_id@,
            project_id: self.project_id@,
            team_id: opt_text(self.team_id),
            source_channel: opt_text(self.source_channel),
            source_user_id: opt_text(self.source_user_id),
            execution_mode: self.execution_mode@,
            status: self.status@,
            request_summary: self.request_summary@,
            acceptance_criteria: self.acceptance_criteria@,
            baseline_commit: opt_text(self.baseline_commit),
            integration_branch: opt_text(self.integration_branch),
            started_at: self.started_at,
            finished_at: self.finished_at,
            created_at: self.created_at,
            updated_at: self.updated_at,
        }
    }
}

impl Record for DevelopmentRunRow<String> {
    fn duplicate(&self) -> (copy: Self) {
        DevelopmentRunRow {
            id: self.id.clone(),
            user_id: self.user_id.clone(),
            project_id: self.project_id.clone(),
            team_id: copy_opt(&self.team_id),
            source_channel: copy_opt(&self.source_channel),
            source_user_id: copy_opt(&self.source_user_id),
            execution_mode: self.execution_mode.clone(),
            status: self.status.clone(),
            request_summary: self.request_summary.clone(),
            acceptance_criteria: self.acceptance_criteria.clone(),
            baseline_commit: copy_opt(&self.baseline_commit),
            integration_branch: copy_opt(&self.integration_branch),
            started_at: self.started_at,
            finished_at: self.finished_at,
            created_at: self.created_at,
            updated_at: self.updated_at,
        }
    }
}

/// The model of a run.
pub type Run = DevelopmentRunRow<Seq<char>>;

/// The part that a slot plays in a run.
#[derive(Debug, Clone, PartialEq, Eq)]
pub struct DevelopmentRunRoleRow<T = String> {
    pub run_id: T,
    pub slot_id: T,
    pub role: T,
    pub assigned_at: i64,
}

impl View for DevelopmentRunRoleRow<String> {
    type V = DevelopmentRunRoleRow<Seq<char>>;

    open spec fn view(&self) -> DevelopmentRunRoleRow<Seq<char>> {
        DevelopmentRunRoleRow {
            run_id: self.run_id@,
            slot_id: self.slot_id@,
            role: self.role@,
            assigned_at: self.assigned_at,
        }
    }
}

impl Record for DevelopmentRunRoleRow<String> {
    fn duplicate(&self) -> (copy: Self) {
        DevelopmentRunRoleRow {
            run_id: self.run_id.clone(),
            slot_id: self.slot_id.clone(),
            role: self.role.clone(),
            assigned_at: self.assigned_at,
        }
    }
}

/// The model of a part.
pub type Role = DevelopmentRunRoleRow<Seq<char>>;

/// A task of a run.
#[derive(Debug, Clone, PartialEq, Eq)]
pub struct DevelopmentTaskRow<T = String> {
    pub id: T,
    pub team_id: T,
    pub run_id: Option<T>,
    pub subject: T,
    pub description: Option<T>,
    pub status: T,
    pub owner: Option<T>,
    pub blocked_by: T,
    pub blocks: T,
    pub metadata: Option<T>,
    pub acceptance_criteria: T,
    pub task_type: T,
    pub risk_level: T,
    pub assigned_workspace_lease_id: Option<T>,
    pub review_status: T,
    pub verification_status: T,
    pub created_at: i64,
    pub updated_at: i64,
}

impl View for DevelopmentTaskRow<String> {
    type V = DevelopmentTaskRow<Seq<char>>;

    open spec fn view(&self) -> DevelopmentTaskRow<Seq<char>> {
        DevelopmentTaskRow {
            id: self.id@,
            team_id: self.team_id@,
            run_id: opt_text(self.run_id),
            subject: self.subject@,
            description: opt_text(self.description),
            status: self.status@,
            owner: opt_text(self.owner),
            blocked_by: self.blocked_by@,
            blocks: self.blocks@,
            metadata: opt_text(self.metadata),
            acceptance_criteria: self.acceptance_criteria@,
            task_type: self.task_type@,
            risk_level: self.risk_level@,
            assigned_workspace_lease_id: opt_text(self.assigned_workspace_lease_id),
            review_status: self.review_status@,
            verification_status: self.verification_status@,
            created_at: self.created_at,
            updated_at: self.updated_at,
        }
    }
}

impl Record for DevelopmentTaskRow<String> {
    fn duplicate(&self) -> (copy: Self) {
        DevelopmentTaskRow {
            id: self.id.clone(),
            team_id: self.team_id.clone(),
            run_id: copy_opt(&self.run_id),
            subject: self.subject.clone(),
            description: copy_opt(&self.description),
            status: self.status.clone(),
            owner: copy_opt(&self.owner),
            blocked_by: self.blocked_by.clone(),
            blocks: self.blocks.clone(),
            metadata: copy_opt(&self.metadata),
            acceptance_criteria: self.acceptance_criteria.clone(),
            task_type: self.task_type.clone(),
            risk_level: self.risk_level.clone(),
            assigned_workspace_lease_id: copy_opt(&self.assigned_workspace_lease_id),
            review_status: self.review_status.clone(),
            verification_status: self.verification_status.clone(),
            created_at: self.created_at,
            updated_at: self.updated_at,
        }
    }
}

/// The model of a task.
pub type Task = DevelopmentTaskRow<Seq<char>>;

/// Something that a run has produced.
#[derive(Debug, Clone, PartialEq, Eq)]
pub struct TaskArtifactRow<T = String> {
    pub id: T,
    pub run_id: T,
    pub task_id: Option<T>,
    pub artifact_type: T,
    pub path_or_uri: T,
    pub checksum: Option<T>,
    pub producer_agent_id: Option<T>,
    pub metadata: T,
    pub created_at: i64,
}

impl View for TaskArtifactRow<String> {
    type V = TaskArtifactRow<Seq<char>>;

    open spec fn view(&self) -> TaskArtifactRow<Seq<char>> {
        TaskArtifactRow {
            id: self.id@,
            run_id: self.run_id@,
            task_id: opt_text(self.task_id),
            artifact_type: self.artifact_type@,
            path_or_uri: self.path_or_uri@,
            checksum: opt_text(self.checksum),
            producer_agent_id: opt_text(self.producer_agent_id),
            metadata: self.metadata@,
            created_at: self.created_at,
        }
    }
}

impl Record for TaskArtifactRow<String> {
    fn duplicate(&self) -> (copy: Self) {
        TaskArtifactRow {
            id: self.id.clone(),
            run_id: self.run_id.clone(),
            task_id: copy_opt(&self.task_id),
            artifact_type: self.artifact_type.clone(),
            path_or_uri: self.path_or_uri.clone(),
            checksum: copy_opt(&self.checksum),
            producer_agent_id: copy_opt(&self.producer_agent_id),
            metadata: self.metadata.clone(),
            created_at: self.created_at,
        }
    }
}

/// The model of an artifact.
pub type Artifact = TaskArtifactRow<Seq<char>>;

/// A check that a run has to pass.
#[derive(Debug, Clone, PartialEq, Eq)]
pub struct QualityGateRunRow<T = String> {
    pub id: T,
    pub run_id: T,
    pub task_id: Option<T>,
    pub gate_type: T,
    pub command: T,
    pub working_directory: T,
    pub exit_code: Option<i64>,
    pub status: T,
    pub stdout_artifact_id: Option<T>,
    pub stderr_artifact_id: Option<T>,
    pub duration_ms: Option<i64>,
    pub isolation_mode: T,
    pub execution_id: Option<T>,
    pub required: bool,
    pub started_at: Option<i64>,
    pub finished_at: Option<i64>,
    pub created_at: i64,
}

impl View for QualityGateRunRow<String> {
    type V = QualityGateRunRow<Seq<char>>;

    open spec fn view(&self) -> QualityGateRunRow<Seq<char>> {
        QualityGateRunRow {
            id: self.id@,
            run_id: self.run_id@,
            task_id: opt_text(self.task_id),
            gate_type: self.gate_type@,
            command: self.command@,
            working_directory: self.working_directory@,
            exit_code: self.exit_code,
            status: self.status@,
            stdout_artifact_id: opt_text(self.stdout_artifact_id),
            stderr_artifact_id: opt_text(self.stderr_artifact_id),
            duration_ms: self.duration_ms,
            isolation_mode: self.isolation_mode@,
            execution_id: opt_text(self.execution_id),
            required: self.required,
            started_at: self.started_at,
            finished_at: self.finished_at,
            created_at: self.created_at,
        }
    }
}

impl Record for QualityGateRunRow<String> {
    fn duplicate(&self) -> (copy: Self) {
        QualityGateRunRow {
            id: self.id.clone(),
            run_id: self.run_id.clone(),
            task_id: copy_opt(&self.task_id),
            gate_type: self.gate_type.clone(),
            command: self.command.clone(),
            working_directory: self.working_directory.clone(),
            exit_code: self.exit_code,
            status: self.status.clone(),
            stdout_artifact_id: copy_opt(&self.stdout_artifact_id),
            stderr_artifact_id: copy_opt(&self.stderr_artifact_id),
            duration_ms: self.duration_ms,
            isolation_mode: self.isolation_mode.clone(),
            execution_id: copy_opt(&self.execution_id),
            required: self.required,
            started_at: self.started_at,
            finished_at: self.finished_at,
            created_at: self.created_at,
        }
    }
}

/// The model of a gate.
pub type Gate = QualityGateRunRow<Seq<char>>;

/// Something that one agent objects to in the work of another.
#[derive(Debug, Clone, PartialEq, Eq)]
pub struct ReviewFindingRow<T = String> {
    pub id: T,
    pub run_id: T,
    pub task_id: T,
    pub reviewer_agent_id: T,
    pub producer_agent_id: T,
    pub severity: T,
    pub file_path: Option<T>,
    pub line_number: Option<i64>,
    pub reason: T,
    pub suggestion: Option<T>,
    pub status: T,
    pub created_at: i64,
    pub updated_at: i64,
}

impl View for ReviewFindingRow<String> {
    type V = ReviewFindingRow<Seq<char>>;

    open spec fn view(&self) -> ReviewFindingRow<Seq<char>> {
        ReviewFindingRow {
            id: self.id@,
            run_id: self.run_id@,
            task_id: self.task_id@,
            reviewer_agent_id: self.reviewer_agent_id@,
            producer_agent_id: self.producer_agent_id@,
            severity: self.severity@,
            file_path: opt_text(self.file_path),
            line_number: self.line_number,
            reason: self.reason@,
            suggestion: opt_text(self.suggestion),
            status: self.status@,
            created_at: self.created_at,
            updated_at: self.updated_at,
        }
    }
}

impl Record for ReviewFindingRow<String> {
    fn duplicate(&self) -> (copy: Self) {
        ReviewFindingRow {
            id: self.id.clone(),
            run_id: self.run_id.clone(),
            task_id: self.task_id.clone(),
            reviewer_agent_id: self.reviewer_agent_id.clone(),
            producer_agent_id: self.producer_agent_id.clone(),
            severity: self.severity.clone(),
            file_path: copy_opt(&self.file_path),
            line_number: self.line_number,
            reason: self.reason.clone(),
            suggestion: copy_opt(&self.suggestion),
            status: self.status.clone(),
            created_at: self.created_at,
            updated_at: self.updated_at,
        }
    }
}

/// The model of a finding.
pub type Finding = ReviewFindingRow<Seq<char>>;

/// How far the work of a run has got on its way out.
#[derive(Debug, Clone, PartialEq, Eq)]
pub struct DevelopmentDeliveryRow<T = String> {
    pub id: T,
    pub run_id: T,
    pub project_id: T,
    pub user_id: T,
    pub provider: T,
    pub repository: T,
    pub branch: T,
    pub base_branch: T,
    pub commit_sha: Option<T>,
    pub status: T,
    pub push_status: T,
    pub pr_number: Option<i64>,
    pub pr_url: Option<T>,
    pub pr_status: T,
    pub ci_status: T,
    pub review_status: T,
    pub merge_status: T,
    pub report_json: T,
    pub last_error: Option<T>,
    pub created_at: i64,
    pub updated_at: i64,
}

impl View for DevelopmentDeliveryRow<String> {
    type V = DevelopmentDeliveryRow<Seq<char>>;

    open spec fn view(&self) -> DevelopmentDeliveryRow<Seq<char>> {
        DevelopmentDeliveryRow {
            id: self.id@,
            run_id: self.run_id@,
            project_id: self.project_id@,
            user_id: self.user_id@,
            provider: self.provider@,
            repository: self.repository@,
            branch: self.branch@,
            base_branch: self.base_branch@,
            commit_sha: opt_text(self.commit_sha),
            status: self.status@,
            push_status: self.push_status@,
            pr_number: self.pr_number,
            pr_url: opt_text(self.pr_url),
            pr_status: self.pr_status@,
            ci_status: self.ci_status@,
            review_status: self.review_status@,
            merge_status: self.merge_status@,
            report_json: self.report_json@,
            last_error: opt_text(self.last_error),
            created_at: self.created_at,
            updated_at: self.updated_at,
        }
    }
}

impl Record for DevelopmentDeliveryRow<String> {
    fn duplicate(&self) -> (copy: Self) {
        DevelopmentDeliveryRow {
            id: self.id.clone(),
            run_id: self.run_id.clone(),
            project_id: self.project_id.clone(),
            user_id: self.user_id.clone(),
            provider: self.provider.clone(),
            repository: self.repository.clone(),
            branch: self.branch.clone(),
            base_branch: self.base_branch.clone(),
            commit_sha: copy_opt(&self.commit_sha),
            status: self.status.clone(),
            push_status: self.push_status.clone(),
            pr_number: self.pr_number,
            pr_url: copy_opt(&self.pr_url),
            pr_status: self.pr_status.clone(),
            ci_status: self.ci_status.clone(),
            review_status: self.review_status.clone(),
            merge_status: self.merge_status.clone(),
            report_json: self.report_json.clone(),
            last_error: copy_opt(&self.last_error),
            created_at: self.created_at,
            updated_at: self.updated_at,
        }
    }
}

/// The model of a delivery.
pub type Delivery = DevelopmentDeliveryRow<Seq<char>>;

/// A check that runs elsewhere on a delivery.
#[derive(Debug, Clone, PartialEq, Eq)]
pub struct DevelopmentCiCheckRow<T = String> {
    pub id: T,
    pub delivery_id: T,
    pub provider_check_id: T,
    pub name: T,
    pub status: T,
    pub details_url: Option<T>,
    pub summary: Option<T>,
    pub rework_task_id: Option<T>,
    pub started_at: Option<i64>,
    pub completed_at: Option<i64>,
    pub created_at: i64,
    pub updated_at: i64,
}

impl View for DevelopmentCiCheckRow<String> {
    type V = DevelopmentCiCheckRow<Seq<char>>;

    open spec fn view(&self) -> DevelopmentCiCheckRow<Seq<char>> {
        DevelopmentCiCheckRow {
            id: self.id@,
            delivery_id: self.delivery_id@,
            provider_check_id: self.provider_check_id@,
            name: self.name@,
            status: self.status@,
            details_url: opt_text(self.details_url),
            summary: opt_text(self.summary),
            rework_task_id: opt_text(self.rework_task_id),
            started_at: self.started_at,
            completed_at: self.completed_at,
            created_at: self.created_at,
            updated_at: self.updated_at,
        }
    }
}

impl Record for DevelopmentCiCheckRow<String> {
    fn duplicate(&self) -> (copy: Self) {
        DevelopmentCiCheckRow {
            id: self.id.clone(),
            delivery_id: self.delivery_id.clone(),
            provider_check_id: self.provider_check_id.clone(),
            name: self.name.clone(),
            status: self.status.clone(),
            details_url: copy_opt(&self.details_url),
            summary: copy_opt(&self.summary),
            rework_task_id: copy_opt(&self.rework_task_id),
            started_at: self.started_at,
            completed_at: self.completed_at,
            created_at: self.created_at,
            updated_at: self.updated_at,
        }
    }
}

/// The model of such a check.
pub type CiCheck = DevelopmentCiCheckRow<Seq<char>>;

} // verus!

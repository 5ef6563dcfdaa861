//! The rows of the memory tables. Each row type is generic in how it holds
//! text: `String` in running code, a sequence of characters in its model.
use crate::table::{model, Record};
use crate::text::{copy_opt, opt_text};
use vstd::prelude::*;

verus! {

/// A moment, in milliseconds since the epoch.
pub type TimestampMs = i64;

/// A conversation.
#[derive(Debug, Clone, PartialEq, Eq)]
pub struct ConversationRow<T = String> {
    pub id: T,
    pub user_id: T,
    pub name: T,
    pub conversation_type: T,
    pub extra: T,
    pub model: Option<T>,
    pub status: Option<T>,
    pub source: Option<T>,
    pub channel_chat_id: Option<T>,
    pub pinned: bool,
    pub pinned_at: Option<i64>,
    pub created_at: i64,
    pub updated_at: i64,
}

impl View for ConversationRow<String> {
    type V = ConversationRow<Seq<char>>;

    open spec fn view(&self) -> ConversationRow<Seq<char>> {
        ConversationRow {
            id: self.id@,
            user_id: self.user_id@,
            name: self.name@,
            conversation_type: self.conversation_type@,
            extra: self.extra@,
            model: opt_text(self.model),
            status: opt_text(self.status),
            source: opt_text(self.source),
            channel_chat_id: opt_text(self.channel_chat_id),
            pinned: self.pinned,
            pinned_at: self.pinned_at,
            created_at: self.created_at,
            updated_at: self.updated_at,
        }
    }
}

impl Record for ConversationRow<String> {
    fn duplicate(&self) -> (copy: Self) {
        ConversationRow {
            id: self.id.clone(),
            user_id: self.user_id.clone(),
            name: self.name.clone(),
            conversation_type: self.conversation_type.clone(),
            extra: self.extra.clone(),
            model: copy_opt(&self.model),
            status: copy_opt(&self.status),
            source: copy_opt(&self.source),
            channel_chat_id: copy_opt(&self.channel_chat_id),
            pinned: self.pinned,
            pinned_at: self.pinned_at,
            created_at: self.created_at,
            updated_at: self.updated_at,
        }
    }
}

/// A message of a conversation.
#[derive(Debug, Clone, PartialEq, Eq)]
pub struct MessageRow<T = String> {
    pub id: T,
    pub conversation_id: T,
    pub turn_id: Option<T>,
    pub msg_id: Option<T>,
    pub message_type: T,
    pub content: T,
    pub position: Option<T>,
    pub status: Option<T>,
    pub hidden: bool,
    pub created_at: i64,
}

impl View for MessageRow<String> {
    type V = MessageRow<Seq<char>>;

    open spec fn view(&self) -> MessageRow<Seq<char>> {
        MessageRow {
            id: self.id@,
            conversation_id: self.conversation_id@,
            turn_id: opt_text(self.turn_id),
            msg_id: opt_text(self.msg_id),
            message_type: self.message_type@,
            content: self.content@,
            position: opt_text(self.position),
            status: opt_text(self.status),
            hidden: self.hidden,
            created_at: self.created_at,
        }
    }
}

impl Record for MessageRow<String> {
    fn duplicate(&self) -> (copy: Self) {
        MessageRow {
            id: self.id.clone(),
            conversation_id: self.conversation_id.clone(),
            turn_id: copy_opt(&self.turn_id),
            msg_id: copy_opt(&self.msg_id),
            message_type: self.message_type.clone(),
            content: self.content.clone(),
            position: copy_opt(&self.position),
            status: copy_opt(&self.status),
            hidden: self.hidden,
            created_at: self.created_at,
        }
    }
}

/// A user's memory settings.
#[derive(Debug, Clone, PartialEq, Eq)]
pub struct MemorySettingsRow<T = String> {
    pub user_id: T,
    pub enabled: bool,
    pub default_capture: bool,
    pub default_recall: bool,
    pub consent_version: Option<i64>,
    pub consented_at: Option<i64>,
    pub reset_at: Option<i64>,
    pub lifecycle_epoch: i64,
    pub updated_at: i64,
}

impl View for MemorySettingsRow<String> {
    type V = MemorySettingsRow<Seq<char>>;

    open spec fn view(&self) -> MemorySettingsRow<Seq<char>> {
        MemorySettingsRow {
            user_id: self.user_id@,
            enabled: self.enabled,
            default_capture: self.default_capture,
            default_recall: self.default_recall,
            consent_version: self.consent_version,
            consented_at: self.consented_at,
            reset_at: self.reset_at,
            lifecycle_epoch: self.lifecycle_epoch,
            updated_at: self.updated_at,
        }
    }
}

impl Record for MemorySettingsRow<String> {
    fn duplicate(&self) -> (copy: Self) {
        MemorySettingsRow {
            user_id: self.user_id.clone(),
            enabled: self.enabled,
            default_capture: self.default_capture,
            default_recall: self.default_recall,
            consent_version: self.consent_version,
            consented_at: self.consented_at,
            reset_at: self.reset_at,
            lifecycle_epoch: self.lifecycle_epoch,
            updated_at: self.updated_at,
        }
    }
}

/// A conversation's own memory policy, as it is stored.
#[derive(Debug, Clone, PartialEq, Eq)]
pub struct StoredMemoryPolicyRow<T = String> {
    pub user_id: T,
    pub conversation_id: T,
    pub capture_enabled: Option<bool>,
    pub recall_enabled: Option<bool>,
    pub reset_at: Option<i64>,
    pub lifecycle_epoch: i64,
    pub updated_at: i64,
}

impl View for StoredMemoryPolicyRow<String> {
    type V = StoredMemoryPolicyRow<Seq<char>>;

    open spec fn view(&self) -> StoredMemoryPolicyRow<Seq<char>> {
        StoredMemoryPolicyRow {
            user_id: self.user_id@,
            conversation_id: self.conversation_id@,
            capture_enabled: self.capture_enabled,
            recall_enabled: self.recall_enabled,
            reset_at: self.reset_at,
            lifecycle_epoch: self.lifecycle_epoch,
            updated_at: self.updated_at,
        }
    }
}

impl Record for StoredMemoryPolicyRow<String> {
    fn duplicate(&self) -> (copy: Self) {
        StoredMemoryPolicyRow {
            user_id: self.user_id.clone(),
            conversation_id: self.conversation_id.clone(),
            capture_enabled: self.capture_enabled,
            recall_enabled: self.recall_enabled,
            reset_at: self.reset_at,
            lifecycle_epoch: self.lifecycle_epoch,
            updated_at: self.updated_at,
        }
    }
}

/// A conversation's own memory policy.
#[derive(Debug, Clone, PartialEq, Eq)]
pub struct ConversationMemoryPolicyRow<T = String> {
    pub conversation_id: T,
    pub capture_enabled: Option<bool>,
    pub recall_enabled: Option<bool>,
    pub updated_at: i64,
}

impl View for ConversationMemoryPolicyRow<String> {
    type V = ConversationMemoryPolicyRow<Seq<char>>;

    open spec fn view(&self) -> ConversationMemoryPolicyRow<Seq<char>> {
        ConversationMemoryPolicyRow {
            conversation_id: self.conversation_id@,
            capture_enabled: self.capture_enabled,
            recall_enabled: self.recall_enabled,
            updated_at: self.updated_at,
        }
    }
}

impl Record for ConversationMemoryPolicyRow<String> {
    fn duplicate(&self) -> (copy: Self) {
        ConversationMemoryPolicyRow {
            conversation_id: self.conversation_id.clone(),
            capture_enabled: self.capture_enabled,
            recall_enabled: self.recall_enabled,
            updated_at: self.updated_at,
        }
    }
}

/// The policy that holds for a conversation: its own over the user's.
#[derive(Debug, Clone, PartialEq, Eq)]
pub struct EffectiveMemoryPolicyRow<T = String> {
    pub user_id: T,
    pub conversation_id: T,
    pub enabled: bool,
    pub capture_enabled: bool,
    pub recall_enabled: bool,
    pub capture_override: Option<bool>,
    pub recall_override: Option<bool>,
    pub consent_version: Option<i64>,
    pub consented_at: Option<i64>,
    pub reset_at: Option<i64>,
    pub global_epoch: i64,
    pub conversation_epoch: i64,
}

impl View for EffectiveMemoryPolicyRow<String> {
    type V = EffectiveMemoryPolicyRow<Seq<char>>;

    open spec fn view(&self) -> EffectiveMemoryPolicyRow<Seq<char>> {
        EffectiveMemoryPolicyRow {
            user_id: self.user_id@,
            conversation_id: self.conversation_id@,
            enabled: self.enabled,
            capture_enabled: self.capture_enabled,
            recall_enabled: self.recall_enabled,
            capture_override: self.capture_override,
            recall_override: self.recall_override,
            consent_version: self.consent_version,
            consented_at: self.consented_at,
            reset_at: self.reset_at,
            global_epoch: self.global_epoch,
            conversation_epoch: self.conversation_epoch,
        }
    }
}

impl Record for EffectiveMemoryPolicyRow<String> {
    fn duplicate(&self) -> (copy: Self) {
        EffectiveMemoryPolicyRow {
            user_id: self.user_id.clone(),
            conversation_id: self.conversation_id.clone(),
            enabled: self.enabled,
            capture_enabled: self.capture_enabled,
            recall_enabled: self.recall_enabled,
            capture_override: self.capture_override,
            recall_override: self.recall_override,
            consent_version: self.consent_version,
            consented_at: self.consented_at,
            reset_at: self.reset_at,
            global_epoch: self.global_epoch,
            conversation_epoch: self.conversation_epoch,
        }
    }
}

/// A queued, running or settled memory update of a conversation.
#[derive(Debug, Clone, PartialEq, Eq)]
pub struct MemoryJobRow<T = String> {
    pub id: T,
    pub user_id: T,
    pub conversation_id: T,
    pub from_turn_id: Option<T>,
    pub through_turn_id: T,
    pub operation_version: T,
    pub global_epoch: i64,
    pub conversation_epoch: i64,
    pub turn_count: i64,
    pub queue_digest: T,
    pub input_hash: T,
    pub expected_revision: i64,
    pub state: T,
    pub attempt_count: i64,
    pub invalid_output_count: i64,
    pub next_attempt_at: Option<i64>,
    pub last_error_code: Option<T>,
    pub lease_owner: Option<T>,
    pub lease_token: Option<T>,
    pub lease_expires_at: Option<i64>,
    pub reconciliation_snapshot_json: Option<T>,
    pub created_at: i64,
    pub updated_at: i64,
}

impl View for MemoryJobRow<String> {
    type V = MemoryJobRow<Seq<char>>;

    open spec fn view(&self) -> MemoryJobRow<Seq<char>> {
        MemoryJobRow {
            id: self.id@,
            user_id: self.user_id@,
            conversation_id: self.conversation_id@,
            from_turn_id: opt_text(self.from_turn_id),
            through_turn_id: self.through_turn_id@,
            operation_version: self.operation_version@,
            global_epoch: self.global_epoch,
            conversation_epoch: self.conversation_epoch,
            turn_count: self.turn_count,
            queue_digest: self.queue_digest@,
            input_hash: self.input_hash@,
            expected_revision: self.expected_revision,
            state: self.state@,
            attempt_count: self.attempt_count,
            invalid_output_count: self.invalid_output_count,
            next_attempt_at: self.next_attempt_at,
            last_error_code: opt_text(self.last_error_code),
            lease_owner: opt_text(self.lease_owner),
            lease_token: opt_text(self.lease_token),
            lease_expires_at: self.lease_expires_at,
            reconciliation_snapshot_json: opt_text(self.reconciliation_snapshot_json),
            created_at: self.created_at,
            updated_at: self.updated_at,
        }
    }
}

impl Record for MemoryJobRow<String> {
    fn duplicate(&self) -> (copy: Self) {
        MemoryJobRow {
            id: self.id.clone(),
            user_id: self.user_id.clone(),
            conversation_id: self.conversation_id.clone(),
            from_turn_id: copy_opt(&self.from_turn_id),
            through_turn_id: self.through_turn_id.clone(),
            operation_version: self.operation_version.clone(),
            global_epoch: self.global_epoch,
            conversation_epoch: self.conversation_epoch,
            turn_count: self.turn_count,
            queue_digest: self.queue_digest.clone(),
            input_hash: self.input_hash.clone(),
            expected_revision: self.expected_revision,
            state: self.state.clone(),
            attempt_count: self.attempt_count,
            invalid_output_count: self.invalid_output_count,
            next_attempt_at: self.next_attempt_at,
            last_error_code: copy_opt(&self.last_error_code),
            lease_owner: copy_opt(&self.lease_owner),
            lease_token: copy_opt(&self.lease_token),
            lease_expires_at: self.lease_expires_at,
            reconciliation_snapshot_json: copy_opt(&self.reconciliation_snapshot_json),
            created_at: self.created_at,
            updated_at: self.updated_at,
        }
    }
}

/// A turn that a job covers, as it is stored.
#[derive(Debug, Clone, PartialEq, Eq)]
pub struct StoredJobTurnRow<T = String> {
    pub job_id: T,
    pub user_id: T,
    pub conversation_id: T,
    pub operation_version: T,
    pub position: i64,
    pub turn_id: T,
    pub turn_hash: T,
}

impl View for StoredJobTurnRow<String> {
    type V = StoredJobTurnRow<Seq<char>>;

    open spec fn view(&self) -> StoredJobTurnRow<Seq<char>> {
        StoredJobTurnRow {
            job_id: self.job_id@,
            user_id: self.user_id@,
            conversation_id: self.conversation_id@,
            operation_version: self.operation_version@,
            position: self.position,
            turn_id: self.turn_id@,
            turn_hash: self.turn_hash@,
        }
    }
}

impl Record for StoredJobTurnRow<String> {
    fn duplicate(&self) -> (copy: Self) {
        StoredJobTurnRow {
            job_id: self.job_id.clone(),
            user_id: self.user_id.clone(),
            conversation_id: self.conversation_id.clone(),
            operation_version: self.operation_version.clone(),
            position: self.position,
            turn_id: self.turn_id.clone(),
            turn_hash: self.turn_hash.clone(),
        }
    }
}

/// A turn that a job covers.
#[derive(Debug, Clone, PartialEq, Eq)]
pub struct MemoryJobTurnRow<T = String> {
    pub job_id: T,
    pub position: i64,
    pub turn_id: T,
    pub turn_hash: T,
}

impl View for MemoryJobTurnRow<String> {
    type V = MemoryJobTurnRow<Seq<char>>;

    open spec fn view(&self) -> MemoryJobTurnRow<Seq<char>> {
        MemoryJobTurnRow {
            job_id: self.job_id@,
            position: self.position,
            turn_id: self.turn_id@,
            turn_hash: self.turn_hash@,
        }
    }
}

impl Record for MemoryJobTurnRow<String> {
    fn duplicate(&self) -> (copy: Self) {
        MemoryJobTurnRow {
            job_id: self.job_id.clone(),
            position: self.position,
            turn_id: self.turn_id.clone(),
            turn_hash: self.turn_hash.clone(),
        }
    }
}

/// What is remembered of a conversation as a whole.
#[derive(Debug, Clone, PartialEq, Eq)]
pub struct ConversationMemoryRow<T = String> {
    pub user_id: T,
    pub conversation_id: T,
    pub project_id: Option<T>,
    pub workspace_key: Option<T>,
    pub summary_json: T,
    pub through_turn_id: T,
    pub revision: i64,
    pub source: T,
    pub schema_version: i64,
    pub prompt_version: Option<T>,
    pub writer_provider_id: Option<T>,
    pub writer_model_id: Option<T>,
    pub created_at: i64,
    pub updated_at: i64,
}

impl View for ConversationMemoryRow<String> {
    type V = ConversationMemoryRow<Seq<char>>;

    open spec fn view(&self) -> ConversationMemoryRow<Seq<char>> {
        ConversationMemoryRow {
            user_id: self.user_id@,
            conversation_id: self.conversation_id@,
            project_id: opt_text(self.project_id),
            workspace_key: opt_text(self.workspace_key),
            summary_json: self.summary_json@,
            through_turn_id: self.through_turn_id@,
            revision: self.revision,
            source: self.source@,
            schema_version: self.schema_version,
            prompt_version: opt_text(self.prompt_version),
            writer_provider_id: opt_text(self.writer_provider_id),
            writer_model_id: opt_text(self.writer_model_id),
            created_at: self.created_at,
            updated_at: self.updated_at,
        }
    }
}

impl Record for ConversationMemoryRow<String> {
    fn duplicate(&self) -> (copy: Self) {
        ConversationMemoryRow {
            user_id: self.user_id.clone(),
            conversation_id: self.conversation_id.clone(),
            project_id: copy_opt(&self.project_id),
            workspace_key: copy_opt(&self.workspace_key),
            summary_json: self.summary_json.clone(),
            through_turn_id: self.through_turn_id.clone(),
            revision: self.revision,
            source: self.source.clone(),
            schema_version: self.schema_version,
            prompt_version: copy_opt(&self.prompt_version),
            writer_provider_id: copy_opt(&self.writer_provider_id),
            writer_model_id: copy_opt(&self.writer_model_id),
            created_at: self.created_at,
            updated_at: self.updated_at,
        }
    }
}

/// A remembered entry, as it is stored.
#[derive(Debug, Clone, PartialEq, Eq)]
pub struct MemoryEntryDbRow<T = String> {
    pub id: T,
    pub user_id: T,
    pub project_id: Option<T>,
    pub workspace_key: Option<T>,
    pub kind: T,
    pub stable_key: T,
    pub fingerprint: T,
    pub content: Option<T>,
    pub state: T,
    pub pinned: bool,
    pub user_edited: bool,
    pub revision: i64,
    pub supersedes_id: Option<T>,
    pub conflict_group_id: Option<T>,
    pub schema_version: i64,
    pub deleted_at: Option<i64>,
    pub created_at: i64,
    pub updated_at: i64,
}

impl View for MemoryEntryDbRow<String> {
    type V = MemoryEntryDbRow<Seq<char>>;

    open spec fn view(&self) -> MemoryEntryDbRow<Seq<char>> {
        MemoryEntryDbRow {
            id: self.id@,
            user_id: self.user_id@,
            project_id: opt_text(self.project_id),
            workspace_key: opt_text(self.workspace_key),
            kind: self.kind@,
            stable_key: self.stable_key@,
            fingerprint: self.fingerprint@,
            content: opt_text(self.content),
            state: self.state@,
            pinned: self.pinned,
            user_edited: self.user_edited,
            revision: self.revision,
            supersedes_id: opt_text(self.supersedes_id),
            conflict_group_id: opt_text(self.conflict_group_id),
            schema_version: self.schema_version,
            deleted_at: self.deleted_at,
            created_at: self.created_at,
            updated_at: self.updated_at,
        }
    }
}

impl Record for MemoryEntryDbRow<String> {
    fn duplicate(&self) -> (copy: Self) {
        MemoryEntryDbRow {
            id: self.id.clone(),
            user_id: self.user_id.clone(),
            project_id: copy_opt(&self.project_id),
            workspace_key: copy_opt(&self.workspace_key),
            kind: self.kind.clone(),
            stable_key: self.stable_key.clone(),
            fingerprint: self.fingerprint.clone(),
            content: copy_opt(&self.content),
            state: self.state.clone(),
            pinned: self.pinned,
            user_edited: self.user_edited,
            revision: self.revision,
            supersedes_id: copy_opt(&self.supersedes_id),
            conflict_group_id: copy_opt(&self.conflict_group_id),
            schema_version: self.schema_version,
            deleted_at: self.deleted_at,
            created_at: self.created_at,
            updated_at: self.updated_at,
        }
    }
}

/// A turn that an entry was drawn from.
#[derive(Debug, Clone, PartialEq, Eq)]
pub struct MemorySourceRow<T = String> {
    pub memory_entry_id: T,
    pub conversation_id: T,
    pub turn_id: T,
    pub message_ids_json: T,
    pub first_observed_at: i64,
    pub last_observed_at: i64,
}

impl View for MemorySourceRow<String> {
    type V = MemorySourceRow<Seq<char>>;

    open spec fn view(&self) -> MemorySourceRow<Seq<char>> {
        MemorySourceRow {
            memory_entry_id: self.memory_entry_id@,
            conversation_id: self.conversation_id@,
            turn_id: self.turn_id@,
            message_ids_json: self.message_ids_json@,
            first_observed_at: self.first_observed_at,
            last_observed_at: self.last_observed_at,
        }
    }
}

impl Record for MemorySourceRow<String> {
    fn duplicate(&self) -> (copy: Self) {
        MemorySourceRow {
            memory_entry_id: self.memory_entry_id.clone(),
            conversation_id: self.conversation_id.clone(),
            turn_id: self.turn_id.clone(),
            message_ids_json: self.message_ids_json.clone(),
            first_observed_at: self.first_observed_at,
            last_observed_at: self.last_observed_at,
        }
    }
}

/// What one committed update changed.
#[derive(Debug, Clone, PartialEq, Eq)]
pub struct MemoryChangeSetRow<T = String> {
    pub id: T,
    pub user_id: T,
    pub conversation_id: T,
    pub through_turn_id: T,
    pub job_id: T,
    pub added_ids_json: T,
    pub refined_ids_json: T,
    pub superseded_ids_json: T,
    pub conflict_ids_json: T,
    pub created_at: i64,
}

impl View for MemoryChangeSetRow<String> {
    type V = MemoryChangeSetRow<Seq<char>>;

    open spec fn view(&self) -> MemoryChangeSetRow<Seq<char>> {
        MemoryChangeSetRow {
            id: self.id@,
            user_id: self.user_id@,
            conversation_id: self.conversation_id@,
            through_turn_id: self.through_turn_id@,
            job_id: self.job_id@,
            added_ids_json: self.added_ids_json@,
            refined_ids_json: self.refined_ids_json@,
            superseded_ids_json: self.superseded_ids_json@,
            conflict_ids_json: self.conflict_ids_json@,
            created_at: self.created_at,
        }
    }
}

impl Record for MemoryChangeSetRow<String> {
    fn duplicate(&self) -> (copy: Self) {
        MemoryChangeSetRow {
            id: self.id.clone(),
            user_id: self.user_id.clone(),
            conversation_id: self.conversation_id.clone(),
            through_turn_id: self.through_turn_id.clone(),
            job_id: self.job_id.clone(),
            added_ids_json: self.added_ids_json.clone(),
            refined_ids_json: self.refined_ids_json.clone(),
            superseded_ids_json: self.superseded_ids_json.clone(),
            conflict_ids_json: self.conflict_ids_json.clone(),
            created_at: self.created_at,
        }
    }
}

/// The memories selected for a prompt.
#[derive(Debug, Clone, PartialEq, Eq)]
pub struct MemoryRetrievalRow<T = String> {
    pub id: T,
    pub user_id: T,
    pub conversation_id: T,
    pub prompt_hash: T,
    pub selected_ids_json: T,
    pub estimated_tokens: i64,
    pub budget_tokens: i64,
    pub retrieval_version: T,
    pub created_at: i64,
    pub expires_at: i64,
}

impl View for MemoryRetrievalRow<String> {
    type V = MemoryRetrievalRow<Seq<char>>;

    open spec fn view(&self) -> MemoryRetrievalRow<Seq<char>> {
        MemoryRetrievalRow {
            id: self.id@,
            user_id: self.user_id@,
            conversation_id: self.conversation_id@,
            prompt_hash: self.prompt_hash@,
            selected_ids_json: self.selected_ids_json@,
            estimated_tokens: self.estimated_tokens,
            budget_tokens: self.budget_tokens,
            retrieval_version: self.retrieval_version@,
            created_at: self.created_at,
            expires_at: self.expires_at,
        }
    }
}

impl Record for MemoryRetrievalRow<String> {
    fn duplicate(&self) -> (copy: Self) {
        MemoryRetrievalRow {
            id: self.id.clone(),
            user_id: self.user_id.clone(),
            conversation_id: self.conversation_id.clone(),
            prompt_hash: self.prompt_hash.clone(),
            selected_ids_json: self.selected_ids_json.clone(),
            estimated_tokens: self.estimated_tokens,
            budget_tokens: self.budget_tokens,
            retrieval_version: self.retrieval_version.clone(),
            created_at: self.created_at,
            expires_at: self.expires_at,
        }
    }
}

/// How far the import of older conversations has come.
#[derive(Debug, Clone, PartialEq, Eq)]
pub struct MemoryImportStateRow<T = String> {
    pub user_id: T,
    pub cursor: Option<T>,
    pub completed: bool,
    pub started_at: Option<i64>,
    pub completed_at: Option<i64>,
    pub updated_at: i64,
}

impl View for MemoryImportStateRow<String> {
    type V = MemoryImportStateRow<Seq<char>>;

    open spec fn view(&self) -> MemoryImportStateRow<Seq<char>> {
        MemoryImportStateRow {
            user_id: self.user_id@,
            cursor: opt_text(self.cursor),
            completed: self.completed,
            started_at: self.started_at,
            completed_at: self.completed_at,
            updated_at: self.updated_at,
        }
    }
}

impl Record for MemoryImportStateRow<String> {
    fn duplicate(&self) -> (copy: Self) {
        MemoryImportStateRow {
            user_id: self.user_id.clone(),
            cursor: copy_opt(&self.cursor),
            completed: self.completed,
            started_at: self.started_at,
            completed_at: self.completed_at,
            updated_at: self.updated_at,
        }
    }
}

/// How many jobs of a user are in a state.
#[derive(Debug, Clone, PartialEq, Eq)]
pub struct MemoryJobHealthRow<T = String> {
    pub state: T,
    pub count: i64,
}

impl View for MemoryJobHealthRow<String> {
    type V = MemoryJobHealthRow<Seq<char>>;

    open spec fn view(&self) -> MemoryJobHealthRow<Seq<char>> {
        MemoryJobHealthRow {
            state: self.state@,
            count: self.count,
        }
    }
}

impl Record for MemoryJobHealthRow<String> {
    fn duplicate(&self) -> (copy: Self) {
        MemoryJobHealthRow {
            state: self.state.clone(),
            count: self.count,
        }
    }
}

/// A message of a turn as it is stored, with the evidence text that the storage
/// engine reads from its JSON content, if there is any. The engine's reading is
/// taken as it comes; of two members with the evidence's name it takes the first.
#[derive(Debug, Clone, PartialEq, Eq)]
pub struct TurnMessageRow<T = String> {
    pub message: MessageRow<T>,
    pub accepted_content: Option<T>,
}

impl View for TurnMessageRow<String> {
    type V = TurnMessageRow<Seq<char>>;

    open spec fn view(&self) -> TurnMessageRow<Seq<char>> {
        TurnMessageRow { message: self.message@, accepted_content: opt_text(self.accepted_content) }
    }
}

impl Record for TurnMessageRow<String> {
    fn duplicate(&self) -> (copy: Self) {
        TurnMessageRow {
            message: self.message.duplicate(),
            accepted_content: copy_opt(&self.accepted_content),
        }
    }
}

/// A remembered entry with the turns that it was drawn from.
#[derive(Debug, Clone, PartialEq, Eq)]
pub struct MemoryEntryRow {
    pub entry: MemoryEntryDbRow,
    pub sources: Vec<MemorySourceRow>,
}

/// The model of a remembered entry.
#[verifier::ext_equal]
pub struct RememberedEntry {
    pub entry: MemoryEntryDbRow<Seq<char>>,
    pub sources: Seq<MemorySourceRow<Seq<char>>>,
}

impl View for MemoryEntryRow {
    type V = RememberedEntry;

    open spec fn view(&self) -> RememberedEntry {
        RememberedEntry { entry: self.entry@, sources: model(self.sources@) }
    }
}

} // verus!

//! What callers ask of the memory repository, and what it answers.
use crate::memory::rows::{
    ConversationMemoryRow, ConversationRow, EffectiveMemoryPolicyRow, MemoryEntryRow, MemoryJobRow,
    MemoryRetrievalRow, MessageRow, TimestampMs,
};
use vstd::prelude::*;

verus! {

/// A change of a user's memory settings; what is absent stays.
#[derive(Debug, Clone, PartialEq, Eq)]
pub struct UpdateMemorySettingsRow {
    pub user_id: String,
    pub enabled: Option<bool>,
    pub default_capture: Option<bool>,
    pub default_recall: Option<bool>,
    pub consent_version: Option<i64>,
    pub now: TimestampMs,
}

/// A conversation's new memory policy; what is absent inherits.
#[derive(Debug, Clone, PartialEq, Eq)]
pub struct UpdateConversationMemoryPolicyRow {
    pub user_id: String,
    pub conversation_id: String,
    pub capture_enabled: Option<bool>,
    pub recall_enabled: Option<bool>,
    pub now: TimestampMs,
}

/// A completed turn to be queued, with what its sender believes to hold.
#[derive(Debug, Clone, PartialEq, Eq)]
pub struct EnqueueMemoryTurnRow {
    pub id: String,
    pub user_id: String,
    pub conversation_id: String,
    pub through_turn_id: String,
    pub operation_version: String,
    pub expected_global_epoch: i64,
    pub expected_conversation_epoch: i64,
    pub required_consent_version: i64,
    pub now: TimestampMs,
}

/// The evidence of one turn of a job, within bounds.
#[derive(Debug, Clone, PartialEq, Eq)]
pub struct BoundedMemoryTurnMessagesRow {
    pub messages: Vec<MessageRow>,
    pub message_count: i64,
    pub content_bytes: i64,
    pub snapshot_hash: String,
    pub snapshot_matches: bool,
    pub limit_exceeded: bool,
    pub has_user_work: bool,
    pub has_assistant_outcome: bool,
}

/// A turn with the hash of its messages that a worker saw.
#[derive(Debug, Clone, PartialEq, Eq)]
pub struct MemoryTurnSnapshotExpectationRow {
    pub turn_id: String,
    pub snapshot_hash: String,
}

/// What a worker saw of a claimed job, to be fixed before it writes.
#[derive(Debug, Clone, PartialEq, Eq)]
pub struct FinalizeMemoryJobSnapshotRow {
    pub user_id: String,
    pub job_id: String,
    pub lease_token: String,
    pub expected_global_epoch: i64,
    pub expected_conversation_epoch: i64,
    pub turn_snapshots: Vec<MemoryTurnSnapshotExpectationRow>,
    pub reconciliation_snapshot: Option<Vec<MemoryReconciliationSnapshotRow>>,
    pub require_existing_reconciliation_snapshot: bool,
    pub now: TimestampMs,
}

/// An entry that a worker saw, without its content.
#[derive(Debug, Clone, PartialEq, Eq)]
pub struct MemoryReconciliationSnapshotRow {
    pub id: String,
    pub revision: i64,
    pub state: String,
    pub fingerprint: String,
    pub project_id: Option<String>,
    pub workspace_key: Option<String>,
    pub pinned: bool,
    pub user_edited: bool,
    pub content_hash: String,
}

/// What fixing a claimed job's snapshot came to.
#[derive(Debug, Clone, PartialEq, Eq)]
pub enum FinalizeMemoryJobSnapshotResult {
    Finalized(Box<MemoryJobRow>),
    SnapshotChanged,
    ReconciliationChanged,
    FenceLost,
}

/// A worker's request for the next job.
#[derive(Debug, Clone, PartialEq, Eq)]
pub struct ClaimMemoryJobRow {
    pub user_id: String,
    pub worker_id: String,
    pub lease_token: String,
    pub now: TimestampMs,
    pub lease_duration_ms: i64,
}

/// A worker's request for more time.
#[derive(Debug, Clone, PartialEq, Eq)]
pub struct RenewMemoryLeaseRow {
    pub user_id: String,
    pub job_id: String,
    pub worker_id: String,
    pub lease_token: String,
    pub now: TimestampMs,
    pub lease_duration_ms: i64,
}

/// A worker's return of a job.
#[derive(Debug, Clone, PartialEq, Eq)]
pub struct ReleaseMemoryLeaseRow {
    pub user_id: String,
    pub job_id: String,
    pub worker_id: String,
    pub lease_token: String,
    pub now: TimestampMs,
}

/// A worker's verdict on a running job.
#[derive(Debug, Clone, PartialEq, Eq)]
pub struct TransitionMemoryJobRow {
    pub user_id: String,
    pub job_id: String,
    pub worker_id: String,
    pub lease_token: String,
    pub state: String,
    pub next_attempt_at: Option<TimestampMs>,
    pub error_code: Option<String>,
    pub increment_attempt: bool,
    pub increment_invalid_output: bool,
    pub now: TimestampMs,
}

/// A turn that an entry to be written was drawn from.
#[derive(Debug, Clone, PartialEq, Eq)]
pub struct CommitMemorySourceRow {
    pub conversation_id: String,
    pub turn_id: String,
    pub message_ids_json: String,
}

/// An entry to be written.
#[derive(Debug, Clone, PartialEq, Eq)]
pub struct CommitMemoryEntryRow {
    pub id: String,
    pub project_id: Option<String>,
    pub workspace_key: Option<String>,
    pub kind: String,
    pub stable_key: String,
    pub fingerprint: String,
    pub content: String,
    pub transition: CommitMemoryEntryTransition,
    pub sources: Vec<CommitMemorySourceRow>,
}

/// A stored entry as the writer believes it to be.
#[derive(Debug, Clone, PartialEq, Eq)]
pub struct ExpectedMemoryEntryRow {
    pub id: String,
    pub revision: i64,
    pub state: String,
    pub fingerprint: String,
    pub project_id: Option<String>,
    pub workspace_key: Option<String>,
    pub content: Option<String>,
}

/// How an entry to be written relates to a stored one.
#[derive(Debug, Clone, PartialEq, Eq)]
pub enum CommitMemoryEntryTransition {
    Create,
    Refine {
        target: ExpectedMemoryEntryRow,
    },
    Supersede {
        target: ExpectedMemoryEntryRow,
    },
    Conflict {
        target: ExpectedMemoryEntryRow,
        conflict_group_id: String,
    },
    AttachSource {
        target: ExpectedMemoryEntryRow,
    },
}

/// A finished update, with what its writer believes to hold.
#[derive(Debug, Clone, PartialEq, Eq)]
pub struct CommitMemoryUpdateRow {
    pub user_id: String,
    pub job_id: String,
    pub conversation_id: String,
    pub expected_revision: i64,
    pub through_turn_id: String,
    pub project_id: Option<String>,
    pub workspace_key: Option<String>,
    pub summary_json: String,
    pub schema_version: i64,
    pub prompt_version: Option<String>,
    pub writer_provider_id: Option<String>,
    pub writer_model_id: Option<String>,
    pub lease_owner: String,
    pub lease_token: String,
    pub expected_attempt_count: i64,
    pub entries: Vec<CommitMemoryEntryRow>,
    pub change_set_id: String,
    pub now: TimestampMs,
}

/// A request to keep only the first turns of a claimed job.
#[derive(Debug, Clone, PartialEq, Eq)]
pub struct SplitMemoryJobRow {
    pub user_id: String,
    pub job_id: String,
    pub lease_token: String,
    pub prefix_count: i64,
    pub pending_job_id: String,
    pub now: TimestampMs,
}

/// A change of whether a user's memory is kept.
#[derive(Debug, Clone, PartialEq, Eq)]
pub struct UpdateMemoryLifecycleRow {
    pub user_id: String,
    pub enabled: Option<bool>,
    pub default_capture: Option<bool>,
    pub now: TimestampMs,
}

/// A change of whether a conversation is captured.
#[derive(Debug, Clone, PartialEq, Eq)]
pub struct UpdateConversationMemoryLifecycleRow {
    pub user_id: String,
    pub conversation_id: String,
    pub capture_enabled: bool,
    pub now: TimestampMs,
}

/// What committing an update came to.
#[derive(Debug, Clone, PartialEq, Eq)]
pub enum CommitMemoryUpdateResult {
    Committed {
        revision: i64,
        added_ids: Vec<String>,
        refined_ids: Vec<String>,
        superseded_ids: Vec<String>,
        conflict_ids: Vec<String>,
    },
    StaleRevision {
        current_revision: i64,
    },
    StaleReconciliation,
    SnapshotChanged,
}

/// Which entries to list.
#[derive(Debug, Clone, PartialEq, Eq)]
pub struct MemoryEntryQueryRow {
    pub search: Option<String>,
    pub kind: Option<String>,
    pub state: Option<String>,
    pub project_id: Option<String>,
    pub workspace_key: Option<String>,
    pub source_conversation_id: Option<String>,
    pub created_after: Option<TimestampMs>,
    pub created_before: Option<TimestampMs>,
    pub limit: u32,
    pub offset: u32,
}

/// Which change sets to list.
#[derive(Debug, Clone, PartialEq, Eq)]
pub struct MemoryChangeSetQueryRow {
    pub conversation_id: Option<String>,
    pub limit: u32,
    pub offset: u32,
}

/// A user's edit of an entry; what is absent stays.
#[derive(Debug, Clone, PartialEq, Eq)]
pub struct UpdateMemoryEntryRow {
    pub user_id: String,
    pub id: String,
    pub expected_revision: i64,
    pub expected_state: String,
    pub content: Option<String>,
    pub pinned: Option<bool>,
    pub project_id: Option<Option<String>>,
    pub workspace_key: Option<Option<String>>,
    pub new_fingerprint: Option<String>,
    pub now: TimestampMs,
}

/// How a user settles a conflict.
#[derive(Debug, Clone, PartialEq, Eq)]
pub enum ResolveMemoryConflictActionRow {
    Select { selected_entry_id: String },
    Merge { content: String },
    KeepSeparate { tombstone_id_prefix: String },
}

/// A user's settlement of a conflict.
#[derive(Debug, Clone, PartialEq, Eq)]
pub struct ResolveMemoryConflictRow {
    pub user_id: String,
    pub entry_id: String,
    pub action: ResolveMemoryConflictActionRow,
    pub now: TimestampMs,
}

/// Where entries are looked for.
#[derive(Debug, Clone, PartialEq, Eq)]
pub struct MemoryCandidateQueryRow {
    pub user_id: String,
    pub project_id: Option<String>,
    pub workspace_key: Option<String>,
    pub limit: u32,
}

/// Something that a retrieval selected.
#[derive(Debug, Clone, PartialEq, Eq)]
pub enum MemoryRetrievalItemRow {
    Entry(MemoryEntryRow),
    ConversationSummary(ConversationMemoryRow),
}

/// A retrieval to be stored, with what its sender believes to hold.
#[derive(Debug, Clone, PartialEq, Eq)]
pub struct CreateMemoryRetrievalSnapshotRow {
    pub retrieval: MemoryRetrievalRow,
    pub expected_policy: EffectiveMemoryPolicyRow,
    pub expected_conversation_updated_at: TimestampMs,
    pub items: Vec<MemoryRetrievalItemRow>,
}

/// A request to use a stored retrieval.
#[derive(Debug, Clone, PartialEq, Eq)]
pub struct ConsumeMemoryRetrievalSnapshotRow {
    pub user_id: String,
    pub conversation_id: String,
    pub retrieval_id: String,
    pub prompt_hash: String,
    pub retrieval_version: String,
    pub expected_budget_tokens: i64,
    pub now: TimestampMs,
}

/// A stored retrieval with what it selected.
#[derive(Debug, Clone)]
pub struct MemoryRetrievalSnapshotRow {
    pub retrieval: MemoryRetrievalRow,
    pub policy: EffectiveMemoryPolicyRow,
    pub conversation: ConversationRow,
    pub items: Vec<MemoryRetrievalItemRow>,
}

impl Default for MemoryEntryQueryRow {
    /// Every entry.
    fn default() -> (query: Self)
        ensures
            query == (MemoryEntryQueryRow {
                search: None,
                kind: None,
                state: None,
                project_id: None,
                workspace_key: None,
                source_conversation_id: None,
                created_after: None,
                created_before: None,
                limit: 0,
                offset: 0,
            }),
    {
        MemoryEntryQueryRow {
            search: None,
            kind: None,
            state: None,
            project_id: None,
            workspace_key: None,
            source_conversation_id: None,
            created_after: None,
            created_before: None,
            limit: 0,
            offset: 0,
        }
    }
}

impl Default for MemoryChangeSetQueryRow {
    /// The newest change set.
    fn default() -> (query: Self)
        ensures
            query == (MemoryChangeSetQueryRow { conversation_id: None, limit: 0, offset: 0 }),
    {
        MemoryChangeSetQueryRow { conversation_id: None, limit: 0, offset: 0 }
    }
}

} // verus!

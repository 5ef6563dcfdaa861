//! What capture, commit, editing and forgetting of memories do, scene by scene.
use aionui_db::error::DbError;
use aionui_db::memory::commands::{
    ClaimMemoryJobRow, CommitMemoryEntryRow, CommitMemoryEntryTransition, CommitMemorySourceRow,
    CommitMemoryUpdateResult, CommitMemoryUpdateRow, EnqueueMemoryTurnRow, ExpectedMemoryEntryRow,
    FinalizeMemoryJobSnapshotResult, FinalizeMemoryJobSnapshotRow, MemoryCandidateQueryRow,
    MemoryChangeSetQueryRow, MemoryEntryQueryRow, MemoryReconciliationSnapshotRow,
    MemoryTurnSnapshotExpectationRow, ReleaseMemoryLeaseRow, UpdateMemoryLifecycleRow,
    RenewMemoryLeaseRow, ResolveMemoryConflictActionRow, ResolveMemoryConflictRow,
    SplitMemoryJobRow, TransitionMemoryJobRow, UpdateConversationMemoryLifecycleRow,
    UpdateConversationMemoryPolicyRow, UpdateMemoryEntryRow, UpdateMemorySettingsRow,
    BoundedMemoryTurnMessagesRow,
};
use aionui_db::memory::commit::PersistedEntries;
use aionui_db::memory::evidence::{
    derive_memory_fingerprint, memory_entry_content_hash, memory_evidence_content,
};
use aionui_db::memory::rows::{
    ConversationMemoryRow, ConversationRow, EffectiveMemoryPolicyRow, MemoryChangeSetRow,
    MemoryEntryDbRow, MemoryEntryRow, MemoryImportStateRow, MemoryJobRow, MemoryJobTurnRow,
    MemoryRetrievalRow, MemorySettingsRow, MemorySourceRow, MessageRow, TurnMessageRow,
};
use aionui_db::memory::store::MemoryStore;
use serde_json::Value;
use std::cell::RefCell;
use std::ops::Deref;

const USER_A: &str = "system_default_user";
const USER_B: &str = "user_b";

/// The tables, behind calls that read and write them.
struct Repo {
    store: RefCell<MemoryStore>,
}

/// An entry with its sources.
#[derive(Debug)]
struct Entry {
    row: MemoryEntryDbRow,
    sources: Vec<MemorySourceRow>,
}

impl Deref for Entry {
    type Target = MemoryEntryDbRow;

    fn deref(&self) -> &MemoryEntryDbRow {
        &self.row
    }
}

fn entry_of(row: MemoryEntryRow) -> Entry {
    Entry { row: row.entry, sources: row.sources }
}

fn object(members: &[(&str, &str)]) -> String {
    let mut map = serde_json::Map::new();
    for (name, value) in members {
        map.insert((*name).to_owned(), Value::from(*value));
    }
    Value::Object(map).to_string()
}

fn text_or_null(value: &Option<String>) -> Value {
    match value {
        Some(text) => Value::from(text.as_str()),
        None => Value::Null,
    }
}

fn write_snapshot(rows: &[MemoryReconciliationSnapshotRow]) -> String {
    let list = rows
        .iter()
        .map(|row| {
            let mut map = serde_json::Map::new();
            map.insert("id".to_owned(), Value::from(row.id.as_str()));
            map.insert("revision".to_owned(), Value::from(row.revision));
            map.insert("state".to_owned(), Value::from(row.state.as_str()));
            map.insert("fingerprint".to_owned(), Value::from(row.fingerprint.as_str()));
            map.insert("project_id".to_owned(), text_or_null(&row.project_id));
            map.insert("workspace_key".to_owned(), text_or_null(&row.workspace_key));
            map.insert("pinned".to_owned(), Value::from(row.pinned));
            map.insert("user_edited".to_owned(), Value::from(row.user_edited));
            map.insert("content_hash".to_owned(), Value::from(row.content_hash.as_str()));
            Value::Object(map)
        })
        .collect::<Vec<_>>();
    Value::Array(list).to_string()
}

fn read_snapshot(text: &str) -> Vec<MemoryReconciliationSnapshotRow> {
    let value: Value = serde_json::from_str(text).unwrap();
    let text_at = |row: &Value, name: &str| row[name].as_str().map(str::to_owned);
    value
        .as_array()
        .unwrap()
        .iter()
        .map(|row| MemoryReconciliationSnapshotRow {
            id: text_at(row, "id").unwrap(),
            revision: row["revision"].as_i64().unwrap(),
            state: text_at(row, "state").unwrap(),
            fingerprint: text_at(row, "fingerprint").unwrap(),
            project_id: text_at(row, "project_id"),
            workspace_key: text_at(row, "workspace_key"),
            pinned: row["pinned"].as_bool().unwrap(),
            user_edited: row["user_edited"].as_bool().unwrap(),
            content_hash: text_at(row, "content_hash").unwrap(),
        })
        .collect()
}

impl Repo {
    fn read<T>(&self, look: impl FnOnce(&MemoryStore) -> T) -> T {
        look(&self.store.borrow())
    }

    fn change<T>(&self, act: impl FnOnce(&mut MemoryStore) -> T) -> T {
        act(&mut self.store.borrow_mut())
    }

    fn set_job(&self, id: &str, act: impl Fn(&mut MemoryJobRow)) {
        self.change(|store| store.queue.jobs.iter_mut().filter(|job| job.id == id).for_each(act));
    }

    fn set_entry(&self, id: &str, act: impl Fn(&mut MemoryEntryDbRow)) {
        self.change(|store| store.entries.iter_mut().filter(|entry| entry.id == id).for_each(act));
    }

    fn add_entry(&self, entry: MemoryEntryDbRow) {
        self.change(|store| store.entries.push(entry));
    }

    fn add_message(
        &self,
        id: &str,
        conversation_id: &str,
        turn_id: &str,
        message_type: &str,
        content: &str,
        position: &str,
        status: &str,
        hidden: bool,
        created_at: i64,
    ) {
        if self.read(|store| store.messages.iter().any(|row| row.message.id == id)) {
            return;
        }
        let message = MessageRow {
            id: id.into(),
            conversation_id: conversation_id.into(),
            turn_id: Some(turn_id.into()),
            msg_id: None,
            message_type: message_type.into(),
            content: content.into(),
            position: Some(position.into()),
            status: Some(status.into()),
            hidden,
            created_at,
        };
        let accepted_content = memory_evidence_content(&message);
        self.change(|store| store.messages.push(TurnMessageRow { message, accepted_content }));
    }

    fn set_message(&self, id: &str, act: impl Fn(&mut MessageRow)) {
        self.change(|store| {
            for row in store.messages.iter_mut().filter(|row| row.message.id == id) {
                act(&mut row.message);
                row.accepted_content = memory_evidence_content(&row.message);
            }
        });
    }

    fn count_jobs(&self, user_id: &str, conversation_id: &str, state: &str) -> Result<i64, DbError> {
        Ok(self.read(|store| {
            store
                .queue
                .jobs
                .iter()
                .filter(|job| {
                    job.user_id == user_id
                        && job.conversation_id == conversation_id
                        && job.state == state
                })
                .count() as i64
        }))
    }

    fn get_settings(&self, user_id: &str) -> Result<MemorySettingsRow, DbError> {
        self.change(|store| store.get_settings(user_id))
    }

    fn update_settings(&self, command: UpdateMemorySettingsRow) -> Result<MemorySettingsRow, DbError> {
        self.change(|store| store.update_settings(&command))
    }

    fn effective_policy(
        &self,
        user_id: &str,
        conversation_id: &str,
    ) -> Result<EffectiveMemoryPolicyRow, DbError> {
        self.change(|store| store.effective_policy(user_id, conversation_id))
    }

    fn update_conversation_policy(
        &self,
        command: UpdateConversationMemoryPolicyRow,
    ) -> Result<EffectiveMemoryPolicyRow, DbError> {
        self.change(|store| store.update_conversation_policy(&command))
    }

    fn update_conversation_memory_lifecycle(
        &self,
        input: UpdateConversationMemoryLifecycleRow,
    ) -> Result<(), DbError> {
        self.change(|store| store.update_conversation_memory_lifecycle(&input))
    }

    fn enqueue_completed_turn(&self, input: EnqueueMemoryTurnRow) -> Result<Option<MemoryJobRow>, DbError> {
        self.change(|store| store.enqueue_completed_turn(&input))
    }

    fn claim_next_job(&self, input: ClaimMemoryJobRow) -> Result<Option<MemoryJobRow>, DbError> {
        self.change(|store| store.claim_next_job(&input))
    }

    fn retry_failed_job(&self, user_id: &str, job_id: &str, now: i64) -> Result<Option<MemoryJobRow>, DbError> {
        self.change(|store| store.queue.retry_failed_job(user_id, job_id, now))
    }

    fn get_job(&self, user_id: &str, job_id: &str) -> Result<Option<MemoryJobRow>, DbError> {
        self.read(|store| store.queue.get_job(user_id, job_id))
    }

    fn list_job_turns(&self, user_id: &str, job_id: &str, limit: u32) -> Result<Vec<MemoryJobTurnRow>, DbError> {
        self.read(|store| store.queue.list_job_turns(user_id, job_id, limit))
    }

    fn renew_lease(&self, input: RenewMemoryLeaseRow) -> Result<bool, DbError> {
        self.change(|store| store.queue.renew_lease(&input))
    }

    fn release_lease(&self, input: ReleaseMemoryLeaseRow) -> Result<bool, DbError> {
        self.change(|store| store.queue.release_lease(&input))
    }

    fn transition_running_job(&self, input: TransitionMemoryJobRow) -> Result<Option<MemoryJobRow>, DbError> {
        self.change(|store| store.queue.transition_running_job(&input))
    }

    fn recover_expired_jobs(&self, now: i64) -> Result<u64, DbError> {
        self.change(|store| store.queue.recover_expired_jobs(now))
    }

    fn split_claimed_job(&self, input: SplitMemoryJobRow) -> Result<bool, DbError> {
        self.change(|store| store.queue.split_claimed_job(&input))
    }

    fn load_job_turn_messages_bounded(
        &self,
        user_id: &str,
        job_id: &str,
        turn_id: &str,
        max_messages: u32,
        max_bytes: u64,
    ) -> Result<BoundedMemoryTurnMessagesRow, DbError> {
        self.read(|store| {
            store.load_job_turn_messages_bounded(user_id, job_id, turn_id, max_messages, max_bytes)
        })
    }

    fn finalize_claimed_job_snapshot(
        &self,
        input: FinalizeMemoryJobSnapshotRow,
    ) -> Result<FinalizeMemoryJobSnapshotResult, DbError> {
        let encoded = match &input.reconciliation_snapshot {
            Some(rows) => write_snapshot(rows),
            None => String::new(),
        };
        self.change(|store| store.finalize_claimed_job_snapshot(&input, &encoded))
    }

    fn commit_update(&self, input: CommitMemoryUpdateRow) -> Result<CommitMemoryUpdateResult, DbError> {
        let stored = self.read(|store| {
            store
                .queue
                .jobs
                .iter()
                .find(|job| job.id == input.job_id)
                .and_then(|job| job.reconciliation_snapshot_json.clone())
        });
        let persisted = match stored {
            Some(text) => PersistedEntries::Listed(read_snapshot(&text)),
            None => PersistedEntries::Unreadable("there is no text to read".into()),
        };
        self.change(|store| store.commit_update(&input, &persisted))
    }

    fn get_conversation_memory(
        &self,
        user_id: &str,
        conversation_id: &str,
    ) -> Result<Option<ConversationMemoryRow>, DbError> {
        self.read(|store| store.get_conversation_memory(user_id, conversation_id))
    }

    fn get_entry(&self, user_id: &str, entry_id: &str) -> Result<Option<Entry>, DbError> {
        Ok(self.read(|store| store.get_entry(user_id, entry_id))?.map(entry_of))
    }

    fn list_entries(&self, user_id: &str) -> Result<Vec<Entry>, DbError> {
        let rows = self.read(|store| store.list_entries(user_id))?;
        Ok(rows.into_iter().map(entry_of).collect())
    }

    fn update_entry(&self, input: UpdateMemoryEntryRow) -> Result<Entry, DbError> {
        Ok(entry_of(self.change(|store| store.update_entry(&input))?))
    }

    fn resolve_conflict(&self, input: ResolveMemoryConflictRow) -> Result<Vec<Entry>, DbError> {
        let rows = self.change(|store| store.resolve_conflict(&input))?;
        Ok(rows.into_iter().map(entry_of).collect())
    }

    fn delete_entry(&self, user_id: &str, entry_id: &str, now: i64) -> Result<(), DbError> {
        self.change(|store| store.delete_entry(user_id, entry_id, now))
    }

    fn list_change_sets(&self, user_id: &str, limit: u32) -> Result<Vec<MemoryChangeSetRow>, DbError> {
        self.read(|store| store.list_change_sets(user_id, limit))
    }

    fn delete_conversation_memory(&self, user_id: &str, conversation_id: &str, now: i64) -> Result<(), DbError> {
        self.change(|store| store.delete_conversation_memory(user_id, conversation_id, now))
    }

    fn clear_memory(&self, user_id: &str, now: i64) -> Result<(), DbError> {
        self.change(|store| store.clear_memory(user_id, now))
    }

    fn retrieval_candidates(&self, query: MemoryCandidateQueryRow) -> Result<Vec<Entry>, DbError> {
        let rows = self.read(|store| store.retrieval_candidates(&query))?;
        Ok(rows.into_iter().map(entry_of).collect())
    }

    fn reconciliation_entries(
        &self,
        user_id: &str,
        fingerprints: &[String],
        target_ids: &[String],
    ) -> Result<Vec<Entry>, DbError> {
        let rows = self.read(|store| {
            store.reconciliation_entries(user_id, &fingerprints.to_vec(), &target_ids.to_vec())
        })?;
        Ok(rows.into_iter().map(entry_of).collect())
    }

    fn create_retrieval(&self, retrieval: MemoryRetrievalRow) -> Result<MemoryRetrievalRow, DbError> {
        self.change(|store| store.create_retrieval(&retrieval))
    }

    fn get_retrieval(&self, user_id: &str, id: &str) -> Result<Option<MemoryRetrievalRow>, DbError> {
        self.read(|store| store.get_retrieval(user_id, id))
    }

    fn delete_expired_retrievals(&self, now: i64) -> Result<u64, DbError> {
        Ok(self.change(|store| store.delete_expired_retrievals(now)))
    }

    fn get_import_state(&self, user_id: &str) -> Result<Option<MemoryImportStateRow>, DbError> {
        self.read(|store| store.get_import_state(user_id))
    }

    fn upsert_import_state(&self, state: MemoryImportStateRow) -> Result<MemoryImportStateRow, DbError> {
        self.change(|store| store.upsert_import_state(&state))
    }
}

fn setup() -> Repo {
    let mut store = MemoryStore::new();
    store.users = vec![USER_A.to_owned(), USER_B.to_owned()];
    for (id, user_id) in [("conv_a", USER_A), ("conv_a2", USER_A), ("conv_b", USER_B)] {
        store.conversations.push(conversation(id, user_id));
    }
    store.settings.push(MemorySettingsRow {
        user_id: USER_A.into(),
        enabled: true,
        default_capture: true,
        default_recall: true,
        consent_version: Some(1),
        consented_at: Some(1),
        reset_at: None,
        lifecycle_epoch: 0,
        updated_at: 1,
    });
    Repo { store: RefCell::new(store) }
}

fn stored(
    id: &str,
    user_id: &str,
    stable_key: &str,
    fingerprint: &str,
    content: Option<&str>,
    state: &str,
    at: i64,
) -> MemoryEntryDbRow {
    MemoryEntryDbRow {
        id: id.into(),
        user_id: user_id.into(),
        project_id: None,
        workspace_key: None,
        kind: "decision".into(),
        stable_key: stable_key.into(),
        fingerprint: fingerprint.into(),
        content: content.map(str::to_owned),
        state: state.into(),
        pinned: false,
        user_edited: false,
        revision: 0,
        supersedes_id: None,
        conflict_group_id: None,
        schema_version: 1,
        deleted_at: None,
        created_at: at,
        updated_at: at,
    }
}

fn conversation(id: &str, user_id: &str) -> ConversationRow {
    ConversationRow {
        id: id.into(),
        user_id: user_id.into(),
        name: id.into(),
        conversation_type: "gemini".into(),
        extra: "{}".into(),
        model: None,
        status: Some("finished".into()),
        source: Some("aionui".into()),
        channel_chat_id: None,
        pinned: false,
        pinned_at: None,
        created_at: 1,
        updated_at: 1,
    }
}

fn enqueue(id: &str, conversation_id: &str, through_turn_id: &str, now: i64) -> EnqueueMemoryTurnRow {
    EnqueueMemoryTurnRow {
        id: id.into(),
        user_id: USER_A.into(),
        conversation_id: conversation_id.into(),
        through_turn_id: through_turn_id.into(),
        operation_version: "memory-operation-v1".into(),
        expected_global_epoch: 0,
        expected_conversation_epoch: 0,
        required_consent_version: 1,
        now,
    }
}

fn enqueue_turn(
    repo: &Repo,
    id: &str,
    conversation_id: &str,
    turn_id: &str,
    now: i64,
) -> Option<MemoryJobRow> {
    for (suffix, position, content, created_at) in
        [("user", "right", "work", now), ("assistant", "left", "done", now + 1)]
    {
        repo.add_message(
            &format!("msg-{conversation_id}-{turn_id}-{suffix}"),
            conversation_id,
            turn_id,
            "text",
            &object(&[("content", content)]),
            position,
            "finish",
            false,
            created_at,
        );
    }
    repo.enqueue_completed_turn(enqueue(id, conversation_id, turn_id, now))
        .unwrap()
}

fn insert_job_in_state(repo: &Repo, job_id: &str, state: &str) {
    repo.change(|store| store.queue.jobs.push(MemoryJobRow {
        id: job_id.into(),
        user_id: USER_A.into(),
        conversation_id: "conv_a".into(),
        from_turn_id: None,
        through_turn_id: "turn-policy".into(),
        operation_version: "memory-operation-v1".into(),
        global_epoch: 0,
        conversation_epoch: 0,
        turn_count: 0,
        queue_digest: "digest".into(),
        input_hash: "hash".into(),
        expected_revision: 0,
        state: state.into(),
        attempt_count: 0,
        invalid_output_count: 0,
        next_attempt_at: None,
        last_error_code: None,
        lease_owner: None,
        lease_token: None,
        lease_expires_at: None,
        reconciliation_snapshot_json: None,
        created_at: 10,
        updated_at: 10,
    }));
}

fn claim(user_id: &str, worker_id: &str, now: i64) -> ClaimMemoryJobRow {
    ClaimMemoryJobRow {
        user_id: user_id.into(),
        worker_id: worker_id.into(),
        lease_token: format!("lease-{worker_id}-{now}"),
        now,
        lease_duration_ms: 10,
    }
}

fn source(conversation_id: &str, turn_id: &str) -> CommitMemorySourceRow {
    CommitMemorySourceRow {
        conversation_id: conversation_id.into(),
        turn_id: turn_id.into(),
        message_ids_json: format!(r#"["msg-{turn_id}"]"#),
    }
}

fn enqueued_source(conversation_id: &str, turn_id: &str) -> CommitMemorySourceRow {
    CommitMemorySourceRow {
        conversation_id: conversation_id.into(),
        turn_id: turn_id.into(),
        message_ids_json: format!(r#"["msg-{conversation_id}-{turn_id}-user"]"#),
    }
}

fn entry(id: &str, fingerprint: &str, sources: Vec<CommitMemorySourceRow>) -> CommitMemoryEntryRow {
    CommitMemoryEntryRow {
        id: id.into(),
        project_id: None,
        workspace_key: None,
        kind: "decision".into(),
        stable_key: format!("decision:{id}"),
        fingerprint: fingerprint.into(),
        content: format!("content for {id}"),
        transition: CommitMemoryEntryTransition::Create,
        sources,
    }
}

fn expected_entry(
    id: &str,
    fingerprint: &str,
    revision: i64,
    state: &str,
    content: Option<&str>,
) -> ExpectedMemoryEntryRow {
    ExpectedMemoryEntryRow {
        id: id.into(),
        revision,
        state: state.into(),
        fingerprint: fingerprint.into(),
        project_id: None,
        workspace_key: None,
        content: content.map(str::to_owned),
    }
}

fn commit(
    job_id: &str,
    conversation_id: &str,
    through_turn_id: &str,
    expected_revision: i64,
    entries: Vec<CommitMemoryEntryRow>,
    now: i64,
) -> CommitMemoryUpdateRow {
    CommitMemoryUpdateRow {
        user_id: USER_A.into(),
        job_id: job_id.into(),
        conversation_id: conversation_id.into(),
        expected_revision,
        through_turn_id: through_turn_id.into(),
        project_id: None,
        workspace_key: None,
        summary_json: r#"{"goal":"ship memory"}"#.into(),
        schema_version: 1,
        prompt_version: Some("memory-v1".into()),
        writer_provider_id: Some("provider-result".into()),
        writer_model_id: Some("model-result".into()),
        lease_owner: "worker".into(),
        lease_token: "lease-worker-11".into(),
        expected_attempt_count: 0,
        entries,
        change_set_id: format!("changes-{job_id}"),
        now,
    }
}

fn claimed_job(repo: &Repo, job_id: &str, conversation_id: &str, turn_id: &str) {
    repo.add_message(
        &format!("msg-{turn_id}"),
        conversation_id,
        turn_id,
        "text",
        "{}",
        "right",
        "finish",
        false,
        10,
    );
    enqueue_turn(repo, job_id, conversation_id, turn_id, 10);
    let claimed = repo
        .claim_next_job(ClaimMemoryJobRow {
            user_id: USER_A.into(),
            worker_id: "worker".into(),
            lease_token: "lease-worker-11".into(),
            now: 11,
            lease_duration_ms: 100,
        })
        .unwrap()
        .unwrap();
    assert_eq!(claimed.id, job_id);
}

fn claim_cross_conversation_jobs(
    repo: &Repo,
    suffix: &str,
) -> (MemoryJobRow, MemoryJobRow) {
    let first_turn = format!("turn-first-{suffix}");
    let second_turn = format!("turn-second-{suffix}");
    enqueue_turn(repo, &format!("job-first-{suffix}"), "conv_a", &first_turn, 30);
    enqueue_turn(repo, &format!("job-second-{suffix}"), "conv_a2", &second_turn, 30);
    let first = repo
        .claim_next_job(ClaimMemoryJobRow {
            user_id: USER_A.into(),
            worker_id: format!("worker-first-{suffix}"),
            lease_token: format!("lease-first-{suffix}"),
            now: 31,
            lease_duration_ms: 100,
        })
        .unwrap()
        .unwrap();
    let second = repo
        .claim_next_job(ClaimMemoryJobRow {
            user_id: USER_A.into(),
            worker_id: format!("worker-second-{suffix}"),
            lease_token: format!("lease-second-{suffix}"),
            now: 31,
            lease_duration_ms: 100,
        })
        .unwrap()
        .unwrap();
    (first, second)
}

fn running_with_successor(
    repo: &Repo,
) -> (MemoryJobRow, MemoryJobRow) {
    enqueue_turn(repo, "job-running", "conv_a", "turn-1", 10);
    let running = repo
        .claim_next_job(ClaimMemoryJobRow {
            user_id: USER_A.into(),
            worker_id: "worker".into(),
            lease_token: "lease-running".into(),
            now: 20,
            lease_duration_ms: 100,
        })
        .unwrap()
        .unwrap();
    enqueue_turn(repo, "job-successor", "conv_a", "turn-2", 21);
    let successor = enqueue_turn(repo, "ignored", "conv_a", "turn-3", 22).unwrap();
    (running, successor)
}

fn assert_merged_successor(
    repo: &Repo,
    old_job_id: &str,
    successor_id: &str,
    state: &str,
    attempt_count: i64,
) -> MemoryJobRow {
    assert!(repo.get_job(USER_A, old_job_id).unwrap().is_none());
    let successor = repo.get_job(USER_A, successor_id).unwrap().unwrap();
    assert_eq!(successor.state, state);
    assert_eq!(successor.attempt_count, attempt_count);
    assert_eq!(successor.turn_count, 3);
    assert_eq!(successor.through_turn_id, "turn-3");
    assert_eq!(
        repo.list_job_turns(USER_A, successor_id, 10)
            .unwrap()
            .into_iter()
            .map(|turn| turn.turn_id)
            .collect::<Vec<_>>(),
        ["turn-1", "turn-2", "turn-3"],
    );
    let active_count = repo.read(|store| {
        store
            .queue
            .jobs
            .iter()
            .filter(|job| job.user_id == USER_A && job.conversation_id == "conv_a")
            .filter(|job| ["pending", "retry_wait", "blocked"].contains(&job.state.as_str()))
            .count()
    });
    assert_eq!(active_count, 1);
    successor
}

#[test]
fn sqlite_memory_defaults_consent_and_reset_boundaries_are_user_scoped() {
    let repo = setup();
    let defaults = repo.get_settings(USER_B).unwrap();
    assert!(!defaults.enabled);
    assert!(defaults.default_capture);
    assert!(defaults.default_recall);
    assert_eq!(defaults.consent_version, None);
    assert_eq!(defaults.reset_at, None);

    repo.update_settings(UpdateMemorySettingsRow {
        user_id: USER_A.into(),
        enabled: Some(true),
        default_capture: None,
        default_recall: None,
        consent_version: Some(1),
        now: 20,
    })
    .unwrap();
    repo.clear_memory(USER_A, 30).unwrap();

    let user_a = repo.get_settings(USER_A).unwrap();
    let user_b = repo.get_settings(USER_B).unwrap();
    assert_eq!(user_a.consent_version, Some(1));
    assert_eq!(user_a.consented_at, Some(20));
    assert_eq!(user_a.reset_at, Some(30));
    assert_eq!(user_b.consent_version, None);
    assert_eq!(user_b.reset_at, None);
}

#[test]
fn sqlite_memory_nullable_policy_overrides_inherit_user_defaults() {
    let repo = setup();
    repo.update_settings(UpdateMemorySettingsRow {
        user_id: USER_A.into(),
        enabled: Some(true),
        default_capture: Some(true),
        default_recall: Some(false),
        consent_version: Some(1),
        now: 10,
    })
    .unwrap();
    repo.update_conversation_policy(UpdateConversationMemoryPolicyRow {
        user_id: USER_A.into(),
        conversation_id: "conv_a".into(),
        capture_enabled: Some(false),
        recall_enabled: None,
        now: 11,
    })
    .unwrap();

    let effective = repo.effective_policy(USER_A, "conv_a").unwrap();
    assert!(effective.enabled);
    assert!(!effective.capture_enabled);
    assert!(!effective.recall_enabled);
    assert_eq!(effective.capture_override, Some(false));
    assert_eq!(effective.recall_override, None);
}

#[test]
fn sqlite_memory_policy_fences_only_effective_capture_changes() {
    for direction in ["inherit-to-explicit", "explicit-to-inherit"] {
        for state in ["pending", "running", "retry_wait", "blocked", "failed"] {
            let repo = setup();
            if direction == "explicit-to-inherit" {
                repo.update_conversation_policy(UpdateConversationMemoryPolicyRow {
                    user_id: USER_A.into(),
                    conversation_id: "conv_a".into(),
                    capture_enabled: Some(true),
                    recall_enabled: None,
                    now: 5,
                })
                .unwrap();
            }
            let before_epoch: i64 = repo.read(|store| store.policies.iter().find(|row| row.user_id == USER_A && row.conversation_id == "conv_a").map(|row| row.lifecycle_epoch)).unwrap_or(0);
            let job_id = format!("job-{direction}-{state}");
            insert_job_in_state(&repo, &job_id, state);

            repo.update_conversation_policy(UpdateConversationMemoryPolicyRow {
                user_id: USER_A.into(),
                conversation_id: "conv_a".into(),
                capture_enabled: (direction == "inherit-to-explicit").then_some(true),
                recall_enabled: None,
                now: 20,
            })
            .unwrap();

            let stored = repo.get_job(USER_A, &job_id).unwrap().unwrap();
            assert_eq!(stored.state, state, "{direction} must preserve {state}");
            let policy = repo.effective_policy(USER_A, "conv_a").unwrap();
            assert!(policy.capture_enabled);
            assert_eq!(
                policy.conversation_epoch, before_epoch,
                "{direction} must not fence equivalent effective capture for {state}",
            );
        }
    }

    let repo = setup();
    insert_job_in_state(&repo, "job-effective-disable", "failed");
    let disabled = repo
        .update_conversation_policy(UpdateConversationMemoryPolicyRow {
            user_id: USER_A.into(),
            conversation_id: "conv_a".into(),
            capture_enabled: Some(false),
            recall_enabled: None,
            now: 30,
        })
        .unwrap();
    assert!(!disabled.capture_enabled);
    assert_eq!(disabled.conversation_epoch, 1);
    let canceled = repo.get_job(USER_A, "job-effective-disable").unwrap().unwrap();
    assert_eq!(canceled.state, "canceled");
    assert_eq!(canceled.last_error_code.as_deref(), Some("canceled"));
}

#[test]
fn sqlite_memory_duplicate_enqueue_coalesces_and_running_job_has_one_pending_successor() {
    let repo = setup();
    let first = enqueue_turn(&repo, "job-1", "conv_a", "turn-1", 10).unwrap();
    assert_eq!(first.id, "job-1");
    assert!(enqueue_turn(&repo, "duplicate", "conv_a", "turn-1", 11).is_none());

    let coalesced = enqueue_turn(&repo, "job-2", "conv_a", "turn-2", 12).unwrap();
    assert_eq!(coalesced.id, "job-1");
    assert_eq!(coalesced.through_turn_id, "turn-2");
    assert_eq!(coalesced.turn_count, 2);
    assert_eq!(
        repo.list_job_turns(USER_A, "job-1", 10)
            .unwrap()
            .into_iter()
            .map(|turn| turn.turn_id)
            .collect::<Vec<_>>(),
        ["turn-1", "turn-2"],
    );
    assert!(
        enqueue_turn(&repo, "delayed-old", "conv_a", "turn-1", 13)
            .is_none()
    );
    let still_monotonic = repo.get_job(USER_A, "job-1").unwrap().unwrap();
    assert_eq!(still_monotonic.through_turn_id, "turn-2");
    assert_eq!(repo.count_jobs(USER_A, "conv_a", "pending").unwrap(), 1);

    repo.claim_next_job(claim(USER_A, "worker", 13)).unwrap().unwrap();
    let pending = enqueue_turn(&repo, "job-next", "conv_a", "turn-3", 14).unwrap();
    assert_eq!(pending.id, "job-next");
    let pending = enqueue_turn(&repo, "ignored-id", "conv_a", "turn-4", 15).unwrap();
    assert_eq!(pending.id, "job-next");
    assert_eq!(pending.through_turn_id, "turn-4");
    assert_eq!(repo.count_jobs(USER_A, "conv_a", "running").unwrap(), 1);
    assert_eq!(repo.count_jobs(USER_A, "conv_a", "pending").unwrap(), 1);
}

#[test]
fn sqlite_memory_successor_merge_preserves_exact_order_for_release_queue_and_block_transitions() {
    for (label, state, increment_attempt) in [
        ("queue_full", "pending", false),
        ("canceled", "pending", false),
        ("retry", "retry_wait", true),
        ("blocked", "blocked", true),
    ] {
        let repo = setup();
        let (running, successor) = running_with_successor(&repo);
        let original_hash = successor.input_hash.clone();
        let merged = repo
            .transition_running_job(TransitionMemoryJobRow {
                user_id: USER_A.into(),
                job_id: running.id.clone(),
                worker_id: "worker".into(),
                lease_token: "lease-running".into(),
                state: state.into(),
                next_attempt_at: (state == "retry_wait").then_some(90),
                error_code: Some(label.into()),
                increment_attempt,
                increment_invalid_output: false,
                now: 30,
            })
            .unwrap()
            .unwrap();
        assert_eq!(merged.id, successor.id, "{label}");
        let merged =
            assert_merged_successor(&repo, &running.id, &successor.id, state, i64::from(increment_attempt));
        assert_ne!(merged.input_hash, original_hash, "{label}");
        assert_eq!(merged.last_error_code.as_deref(), Some(label));
    }

    let repo = setup();
    let (running, successor) = running_with_successor(&repo);
    assert!(
        repo.release_lease(ReleaseMemoryLeaseRow {
            user_id: USER_A.into(),
            job_id: running.id.clone(),
            worker_id: "worker".into(),
            lease_token: "lease-running".into(),
            now: 30,
        })
        .unwrap()
    );
    assert_merged_successor(&repo, &running.id, &successor.id, "pending", 0);
}

#[test]
fn sqlite_memory_terminal_failures_absorb_successor_without_skipping_predecessor_turns() {
    for error_code in ["invalid_input", "invalid_output", "exhausted_retry"] {
        let repo = setup();
        let (running, successor) = running_with_successor(&repo);
        let failed = repo
            .transition_running_job(TransitionMemoryJobRow {
                user_id: USER_A.into(),
                job_id: running.id.clone(),
                worker_id: "worker".into(),
                lease_token: "lease-running".into(),
                state: "failed".into(),
                next_attempt_at: None,
                error_code: Some(error_code.into()),
                increment_attempt: true,
                increment_invalid_output: error_code == "invalid_output",
                now: 30,
            })
            .unwrap()
            .unwrap();
        assert_eq!(failed.id, running.id, "{error_code}");
        assert_eq!(failed.state, "failed", "{error_code}");
        assert!(repo.get_job(USER_A, &successor.id).unwrap().is_none());
        assert_eq!(failed.turn_count, 3);
        assert_eq!(
            repo.list_job_turns(USER_A, &failed.id, 10)
                .unwrap()
                .into_iter()
                .map(|turn| turn.turn_id)
                .collect::<Vec<_>>(),
            ["turn-1", "turn-2", "turn-3"],
            "{error_code}",
        );

        repo.set_job(&failed.id, |job| if job.state == "failed" { job.state = "pending".into() });
        let retried = repo
            .claim_next_job(claim(USER_A, "manual-retry", 40))
            .unwrap()
            .unwrap();
        assert_eq!(retried.id, failed.id, "{error_code}");
        assert_eq!(retried.turn_count, 3, "{error_code}");
    }
}

#[test]
fn sqlite_memory_failed_job_remains_the_barrier_for_later_enqueue() {
    let repo = setup();
    let (running, _successor) = running_with_successor(&repo);
    let failed = repo
        .transition_running_job(TransitionMemoryJobRow {
            user_id: USER_A.into(),
            job_id: running.id,
            worker_id: "worker".into(),
            lease_token: "lease-running".into(),
            state: "failed".into(),
            next_attempt_at: None,
            error_code: Some("invalid_input".into()),
            increment_attempt: true,
            increment_invalid_output: false,
            now: 30,
        })
        .unwrap()
        .unwrap();

    let barrier = enqueue_turn(&repo, "must-not-become-pending", "conv_a", "turn-4", 40)
        .unwrap();
    assert_eq!(barrier.id, failed.id);
    assert_eq!(barrier.state, "failed");
    assert_eq!(barrier.turn_count, 4);
    assert_eq!(
        repo.list_job_turns(USER_A, &barrier.id, 10)
            .unwrap()
            .into_iter()
            .map(|turn| turn.turn_id)
            .collect::<Vec<_>>(),
        ["turn-1", "turn-2", "turn-3", "turn-4"],
    );
    assert!(
        repo.claim_next_job(claim(USER_A, "blocked", 50))
            .unwrap()
            .is_none()
    );

    let retried = repo.retry_failed_job(USER_A, &barrier.id, 60).unwrap().unwrap();
    assert_eq!(retried.id, barrier.id);
    assert_eq!(retried.state, "pending");
    let claimed = repo
        .claim_next_job(claim(USER_A, "manual-retry", 70))
        .unwrap()
        .unwrap();
    assert_eq!(claimed.id, barrier.id);
    assert_eq!(
        repo.list_job_turns(USER_A, &claimed.id, 10)
            .unwrap()
            .into_iter()
            .map(|turn| turn.turn_id)
            .collect::<Vec<_>>(),
        ["turn-1", "turn-2", "turn-3", "turn-4"],
    );
}

#[test]
fn sqlite_memory_manual_retry_defensively_absorbs_a_legacy_successor() {
    let repo = setup();
    let (running, _successor) = running_with_successor(&repo);
    let failed = repo
        .transition_running_job(TransitionMemoryJobRow {
            user_id: USER_A.into(),
            job_id: running.id,
            worker_id: "worker".into(),
            lease_token: "lease-running".into(),
            state: "failed".into(),
            next_attempt_at: None,
            error_code: Some("invalid_input".into()),
            increment_attempt: true,
            increment_invalid_output: false,
            now: 30,
        })
        .unwrap()
        .unwrap();
    repo.set_job(&failed.id, |job| job.state = "canceled".into());
    let legacy_successor = enqueue_turn(&repo, "legacy-successor", "conv_a", "turn-4", 40)
        .unwrap();
    repo.set_job(&failed.id, |job| job.state = "failed".into());

    assert!(
        repo.claim_next_job(claim(USER_A, "blocked", 50))
            .unwrap()
            .is_none()
    );
    let retried = repo.retry_failed_job(USER_A, &failed.id, 60).unwrap().unwrap();
    assert!(repo.get_job(USER_A, &legacy_successor.id).unwrap().is_none());
    assert_eq!(retried.state, "pending");
    assert_eq!(
        repo.list_job_turns(USER_A, &retried.id, 10)
            .unwrap()
            .into_iter()
            .map(|turn| turn.turn_id)
            .collect::<Vec<_>>(),
        ["turn-1", "turn-2", "turn-3", "turn-4"],
    );
}

#[test]
fn sqlite_memory_failed_barrier_blocks_and_absorbs_an_expired_legacy_running_successor() {
    let repo = setup();
    let (barrier, successor) = running_with_successor(&repo);
    repo.set_job(&barrier.id, |job| {
        job.state = "failed".into();
        job.last_error_code = Some("invalid_input".into());
        job.lease_owner = None;
        job.lease_token = None;
        job.lease_expires_at = None;
    });
    repo.set_job(&successor.id, |job| {
        job.state = "running".into();
        job.lease_owner = Some("legacy-worker".into());
        job.lease_token = Some("legacy-lease".into());
        job.lease_expires_at = Some(30);
    });

    assert!(
        repo.claim_next_job(claim(USER_A, "blocked", 40))
            .unwrap()
            .is_none()
    );
    let retried = repo.retry_failed_job(USER_A, &barrier.id, 50).unwrap().unwrap();
    assert!(repo.get_job(USER_A, &successor.id).unwrap().is_none());
    assert_eq!(retried.state, "pending");
    assert_eq!(
        repo.list_job_turns(USER_A, &retried.id, 10)
            .unwrap()
            .into_iter()
            .map(|turn| turn.turn_id)
            .collect::<Vec<_>>(),
        ["turn-1", "turn-2", "turn-3"],
    );
}

#[test]
fn sqlite_memory_enqueue_after_commit_uses_transaction_current_cursor_and_revision() {
    let repo = setup();
    claimed_job(&repo, "job-first", "conv_a", "turn-1");
    repo.commit_update(commit("job-first", "conv_a", "turn-1", 0, Vec::new(), 20))
        .unwrap();

    enqueue_turn(&repo, "job-second", "conv_a", "turn-2", 30);
    let second = repo.get_job(USER_A, "job-second").unwrap().unwrap();
    assert_eq!(second.from_turn_id.as_deref(), Some("turn-1"));
    assert_eq!(second.expected_revision, 1);
}

#[test]
fn sqlite_memory_enqueue_stores_the_repository_canonical_snapshot_hash() {
    let repo = setup();
    let job = enqueue_turn(&repo, "job-snapshot", "conv_a", "turn-1", 10)
        .unwrap();
    let stored_hash: String =
        repo.read(|store| store.queue.turns.iter().find(|turn| turn.job_id == job.id && turn.position == 0).unwrap().turn_hash.clone());
    assert_ne!(stored_hash, "turn-hash-turn-1");
}

#[test]
fn sqlite_memory_commit_snapshot_drift_requeues_without_partial_writes() {
    let repo = setup();
    claimed_job(&repo, "job-drift", "conv_a", "turn-1");
    repo.set_message("msg-conv_a-turn-1-assistant", |message| message.status = Some("error".into()));

    assert_eq!(
        repo.commit_update(commit("job-drift", "conv_a", "turn-1", 0, Vec::new(), 20))
            .unwrap(),
        CommitMemoryUpdateResult::SnapshotChanged,
    );
    assert_eq!(
        repo.get_job(USER_A, "job-drift").unwrap().unwrap().state,
        "pending",
    );
    assert!(repo.get_conversation_memory(USER_A, "conv_a").unwrap().is_none());
    let change_count: i64 =
        repo.read(|store| store.change_sets.iter().filter(|row| row.job_id == "job-drift").count() as i64);
    assert_eq!(change_count, 0);
}

#[test]
fn sqlite_memory_bounded_snapshot_ignores_unaccepted_tool_rows_before_counting() {
    let repo = setup();
    let job = enqueue_turn(&repo, "job-filtered", "conv_a", "turn-1", 10)
        .unwrap();
    for index in 0..200 {
        let (message_type, status, hidden) = match index % 4 {
            0 => ("tool_call", "finish", false),
            1 => ("permission", "finish", false),
            2 => ("text", "error", false),
            _ => ("text", "finish", true),
        };
        repo.add_message(&format!("excluded-row-{index:03}"), "conv_a", "turn-1", message_type, &object(&[("content", &"x".repeat(1024)), ("raw", &"x".repeat(1024))]), "left", status, hidden, 100 + index);
    }
    repo.set_message("msg-conv_a-turn-1-assistant", |message| message.content = object(&[("content", "done"), ("raw", &"x".repeat(1024 * 1024))]));
    let claimed = repo
        .claim_next_job(claim(USER_A, "filtered-worker", 1_000))
        .unwrap()
        .unwrap();
    assert_eq!(claimed.id, job.id);

    let bounded = repo
        .load_job_turn_messages_bounded(USER_A, &job.id, "turn-1", 128, 64 * 1024)
        .unwrap();
    assert!(bounded.snapshot_matches);
    assert!(!bounded.limit_exceeded);
    assert_eq!(bounded.message_count, 2);
    assert_eq!(bounded.messages.len(), 2);
    assert!(bounded.messages.iter().all(|message| message.content.len() < 100));
}

#[test]
fn sqlite_memory_bounded_snapshot_excludes_all_unicode_whitespace_before_counting() {
    let repo = setup();
    let job = enqueue_turn(&repo, "job-whitespace", "conv_a", "turn-1", 10)
        .unwrap();
    for index in 0..200 {
        repo.add_message(&format!("whitespace-row-{index:03}"), "conv_a", "turn-1", "text", &object(&[("content", " \t\n\r")]), "left", "finish", false, 100 + index);
    }

    let bounded = repo
        .load_job_turn_messages_bounded(USER_A, &job.id, "turn-1", 128, 64 * 1024)
        .unwrap();
    assert!(bounded.snapshot_matches);
    assert!(!bounded.limit_exceeded);
    assert_eq!(bounded.message_count, 2);
    assert_eq!(bounded.messages.len(), 2);
}

#[test]
fn sqlite_memory_bounded_snapshot_excludes_padded_noncanonical_type_names() {
    let repo = setup();
    let job = enqueue_turn(&repo, "job-padded-types", "conv_a", "turn-1", 10)
        .unwrap();
    for (index, message_type) in ["\ttext\t", "\u{2003}text\u{2003}"]
        .into_iter()
        .cycle()
        .take(200)
        .enumerate()
    {
        repo.add_message(&format!("padded-type-row-{index:03}"), "conv_a", "turn-1", message_type, &object(&[("content", "must be excluded")]), "left", "finish", false, 100 + index as i64);
    }

    let bounded = repo
        .load_job_turn_messages_bounded(USER_A, &job.id, "turn-1", 128, 64 * 1024)
        .unwrap();
    assert!(bounded.snapshot_matches);
    assert!(!bounded.limit_exceeded);
    assert_eq!(bounded.message_count, 2);
}

#[test]
fn sqlite_memory_finalize_claim_rejects_eligibility_mutation_without_blessing() {
    let repo = setup();
    let job = enqueue_turn(&repo, "job-gap-eligibility", "conv_a", "turn-1", 10)
        .unwrap();
    let claimed = repo
        .claim_next_job(claim(USER_A, "gap-worker", 1_000))
        .unwrap()
        .unwrap();
    let validated = repo
        .load_job_turn_messages_bounded(USER_A, &job.id, "turn-1", 128, 64 * 1024)
        .unwrap();
    assert!(validated.snapshot_matches);
    repo.set_message("msg-conv_a-turn-1-assistant", |message| message.status = Some("error".into()));

    let finalized = repo
        .finalize_claimed_job_snapshot(FinalizeMemoryJobSnapshotRow {
            user_id: USER_A.into(),
            job_id: job.id.clone(),
            lease_token: claimed.lease_token.unwrap(),
            expected_global_epoch: claimed.global_epoch,
            expected_conversation_epoch: claimed.conversation_epoch,
            turn_snapshots: vec![MemoryTurnSnapshotExpectationRow {
                turn_id: "turn-1".into(),
                snapshot_hash: validated.snapshot_hash.clone(),
            }],
            reconciliation_snapshot: None,
            require_existing_reconciliation_snapshot: false,
            now: 20,
        })
        .unwrap();
    assert_eq!(finalized, FinalizeMemoryJobSnapshotResult::SnapshotChanged);
    let stored_hash: String =
        repo.read(|store| store.queue.turns.iter().find(|turn| turn.job_id == job.id && turn.turn_id == "turn-1").unwrap().turn_hash.clone());
    assert_eq!(stored_hash, validated.snapshot_hash);
}

#[test]
fn sqlite_memory_finalize_claim_rejects_oversized_mutation_without_blessing() {
    let repo = setup();
    let job = enqueue_turn(&repo, "job-gap-bounds", "conv_a", "turn-1", 10)
        .unwrap();
    let claimed = repo
        .claim_next_job(claim(USER_A, "gap-worker", 1_000))
        .unwrap()
        .unwrap();
    let validated = repo
        .load_job_turn_messages_bounded(USER_A, &job.id, "turn-1", 128, 64 * 1024)
        .unwrap();
    for index in 0..127 {
        repo.add_message(&format!("eligible-gap-{index:03}"), "conv_a", "turn-1", "text", &object(&[("content", &format!("accepted-{index}"))]), "left", "finish", false, 100 + index);
    }

    assert_eq!(
        repo.finalize_claimed_job_snapshot(FinalizeMemoryJobSnapshotRow {
            user_id: USER_A.into(),
            job_id: job.id,
            lease_token: claimed.lease_token.unwrap(),
            expected_global_epoch: claimed.global_epoch,
            expected_conversation_epoch: claimed.conversation_epoch,
            turn_snapshots: vec![MemoryTurnSnapshotExpectationRow {
                turn_id: "turn-1".into(),
                snapshot_hash: validated.snapshot_hash,
            }],
            reconciliation_snapshot: None,
            require_existing_reconciliation_snapshot: false,
            now: 20,
        })
        .unwrap(),
        FinalizeMemoryJobSnapshotResult::SnapshotChanged,
    );
}

#[test]
fn sqlite_memory_finalizes_content_free_entry_snapshot_and_rejects_later_drift() {
    let repo = setup();
    repo.add_entry(stored("snapshot-entry", USER_A, "snapshot key", "snapshot-fingerprint", Some("private memory content"), "active", 1));
    let job = enqueue_turn(&repo, "snapshot-job", "conv_a", "turn-1", 10)
        .unwrap();
    let claimed = repo
        .claim_next_job(claim(USER_A, "snapshot-worker", 20))
        .unwrap()
        .unwrap();
    let turn = repo
        .load_job_turn_messages_bounded(USER_A, &job.id, "turn-1", 128, 64 * 1024)
        .unwrap();
    let entry_snapshot = MemoryReconciliationSnapshotRow {
        id: "snapshot-entry".into(),
        revision: 0,
        state: "active".into(),
        fingerprint: "snapshot-fingerprint".into(),
        project_id: None,
        workspace_key: None,
        pinned: false,
        user_edited: false,
        content_hash: memory_entry_content_hash(Some("private memory content")),
    };
    let finalize = |require_existing_reconciliation_snapshot| FinalizeMemoryJobSnapshotRow {
        user_id: USER_A.into(),
        job_id: job.id.clone(),
        lease_token: claimed.lease_token.clone().unwrap(),
        expected_global_epoch: claimed.global_epoch,
        expected_conversation_epoch: claimed.conversation_epoch,
        turn_snapshots: vec![MemoryTurnSnapshotExpectationRow {
            turn_id: "turn-1".into(),
            snapshot_hash: turn.snapshot_hash.clone(),
        }],
        reconciliation_snapshot: Some(vec![entry_snapshot.clone()]),
        require_existing_reconciliation_snapshot,
        now: 21,
    };

    let finalized = match repo.finalize_claimed_job_snapshot(finalize(false)).unwrap() {
        FinalizeMemoryJobSnapshotResult::Finalized(finalized) => finalized,
        _ => panic!("expected finalized snapshot"),
    };
    let persisted = finalized.reconciliation_snapshot_json.unwrap();
    assert!(!persisted.contains("private memory content"));
    assert_eq!(
        read_snapshot(&persisted),
        vec![entry_snapshot.clone()],
    );

    repo.set_entry("snapshot-entry", |entry| { entry.content = Some("changed after evidence".into()); entry.revision += 1; });
    assert_eq!(
        repo.finalize_claimed_job_snapshot(finalize(true)).unwrap(),
        FinalizeMemoryJobSnapshotResult::ReconciliationChanged,
    );
    let unchanged: String =
        repo.read(|store| store.queue.jobs.iter().find(|job| job.id == "snapshot-job").unwrap().reconciliation_snapshot_json.clone().unwrap());
    assert_eq!(unchanged, persisted);
}

#[test]
fn sqlite_memory_commit_requeues_entry_drift_after_snapshot_finalization() {
    let repo = setup();
    repo.add_entry(stored("snapshot-drift-entry", USER_A, "snapshot key", "snapshot-drift-fingerprint", Some("private memory content"), "active", 1));
    claimed_job(&repo, "snapshot-drift-job", "conv_a", "turn-1");
    let job = repo.get_job(USER_A, "snapshot-drift-job").unwrap().unwrap();
    let turn = repo
        .load_job_turn_messages_bounded(USER_A, &job.id, "turn-1", 128, 64 * 1024)
        .unwrap();
    let finalized = repo
        .finalize_claimed_job_snapshot(FinalizeMemoryJobSnapshotRow {
            user_id: USER_A.into(),
            job_id: job.id.clone(),
            lease_token: job.lease_token.clone().unwrap(),
            expected_global_epoch: job.global_epoch,
            expected_conversation_epoch: job.conversation_epoch,
            turn_snapshots: vec![MemoryTurnSnapshotExpectationRow {
                turn_id: "turn-1".into(),
                snapshot_hash: turn.snapshot_hash,
            }],
            reconciliation_snapshot: Some(vec![MemoryReconciliationSnapshotRow {
                id: "snapshot-drift-entry".into(),
                revision: 0,
                state: "active".into(),
                fingerprint: "snapshot-drift-fingerprint".into(),
                project_id: None,
                workspace_key: None,
                pinned: false,
                user_edited: false,
                content_hash: memory_entry_content_hash(Some("private memory content")),
            }]),
            require_existing_reconciliation_snapshot: false,
            now: 12,
        })
        .unwrap();
    assert!(matches!(finalized, FinalizeMemoryJobSnapshotResult::Finalized(_)));

    repo.set_entry("snapshot-drift-entry", |entry| { entry.content = Some("changed after finalization".into()); entry.revision += 1; });

    assert_eq!(
        repo.commit_update(commit("snapshot-drift-job", "conv_a", "turn-1", 0, Vec::new(), 20,))
            .unwrap(),
        CommitMemoryUpdateResult::StaleReconciliation,
    );
    let job = repo.get_job(USER_A, "snapshot-drift-job").unwrap().unwrap();
    assert_eq!(job.state, "pending");
    assert_eq!(job.last_error_code.as_deref(), Some("stale_reconciliation"));
    assert_eq!(job.reconciliation_snapshot_json, None);
    assert!(repo.get_conversation_memory(USER_A, "conv_a").unwrap().is_none());
}

#[test]
fn sqlite_memory_expired_recovery_merges_running_predecessor_before_successor() {
    let repo = setup();
    let (running, successor) = running_with_successor(&repo);
    assert_eq!(repo.recover_expired_jobs(121).unwrap(), 1);
    assert_merged_successor(&repo, &running.id, &successor.id, "pending", 0);
}

#[test]
fn sqlite_memory_split_append_and_rebase_keep_canonical_hashes_and_exact_turns() {
    let repo = setup();
    let first = enqueue_turn(&repo, "job-batch", "conv_a", "turn-1", 10).unwrap();
    let appended = enqueue_turn(&repo, "ignored-2", "conv_a", "turn-2", 11).unwrap();
    enqueue_turn(&repo, "ignored-3", "conv_a", "turn-3", 12);
    assert_ne!(first.input_hash, appended.input_hash);
    let running = repo.claim_next_job(claim(USER_A, "worker", 20)).unwrap().unwrap();
    assert!(
        repo.split_claimed_job(SplitMemoryJobRow {
            user_id: USER_A.into(),
            job_id: running.id.clone(),
            lease_token: running.lease_token.clone().unwrap(),
            prefix_count: 1,
            pending_job_id: "job-remainder".into(),
            now: 21,
        })
        .unwrap()
    );
    let prefix = repo.get_job(USER_A, &running.id).unwrap().unwrap();
    let remainder = repo.get_job(USER_A, "job-remainder").unwrap().unwrap();
    assert_ne!(prefix.input_hash, running.input_hash);
    let remainder_hash = remainder.input_hash.clone();
    let appended = enqueue_turn(&repo, "ignored-4", "conv_a", "turn-4", 22).unwrap();
    assert_eq!(appended.id, "job-remainder");
    assert_ne!(appended.input_hash, remainder_hash);
    assert!(
        repo.release_lease(ReleaseMemoryLeaseRow {
            user_id: USER_A.into(),
            job_id: running.id.clone(),
            worker_id: "worker".into(),
            lease_token: running.lease_token.unwrap(),
            now: 23,
        })
        .unwrap()
    );
    let merged = repo.get_job(USER_A, "job-remainder").unwrap().unwrap();
    assert_ne!(merged.input_hash, appended.input_hash);
    assert_eq!(
        repo.list_job_turns(USER_A, "job-remainder", 10)
            .unwrap()
            .into_iter()
            .map(|turn| turn.turn_id)
            .collect::<Vec<_>>(),
        ["turn-1", "turn-2", "turn-3", "turn-4"],
    );
}

#[test]
fn sqlite_memory_large_backlog_reads_only_bounded_prefix_with_sentinel() {
    let repo = setup();
    for index in 0..256 {
        let turn_id = format!("turn-{index:03}");
        enqueue_turn(&repo, &format!("job-{index}"), "conv_a", &turn_id, 10 + index);
    }
    let job: MemoryJobRow = repo.read(|store| store.queue.jobs.iter().find(|job| job.user_id == USER_A && job.conversation_id == "conv_a" && job.state == "pending").unwrap().clone());
    assert_eq!(job.turn_count, 256);
    let bounded = repo.list_job_turns(USER_A, &job.id, 33).unwrap();
    assert_eq!(bounded.len(), 33);
    assert_eq!(bounded.first().unwrap().turn_id, "turn-000");
    assert_eq!(bounded.last().unwrap().turn_id, "turn-032");
}

#[test]
fn sqlite_memory_lifecycle_epoch_fences_stale_enqueue_and_running_commit() {
    let repo = setup();
    let old_policy = repo.effective_policy(USER_A, "conv_a").unwrap();
    repo.add_message("crossing-before", "conv_a", "turn-crossing", "text", "{}", "right", "finish", false, 10);
    repo.add_message("crossing-after", "conv_a", "turn-crossing", "text", "{}", "left", "finish", false, 30);
    repo.clear_memory(USER_A, 20).unwrap();
    let mut stale = enqueue("stale-callback", "conv_a", "turn-crossing", 31);
    stale.expected_global_epoch = old_policy.global_epoch;
    stale.expected_conversation_epoch = old_policy.conversation_epoch;
    assert!(repo.enqueue_completed_turn(stale).unwrap().is_none());

    let current = repo.effective_policy(USER_A, "conv_a").unwrap();
    let mut crossing = enqueue("crossing", "conv_a", "turn-crossing", 32);
    crossing.expected_global_epoch = current.global_epoch;
    crossing.expected_conversation_epoch = current.conversation_epoch;
    assert!(
        repo.enqueue_completed_turn(crossing).unwrap().is_none(),
        "the earliest canonical message, not the latest, fences reset-crossing turns",
    );

    enqueue_turn(&repo, "stale-job-old-worker", "conv_a", "turn-new", 40);
    let mut current_enqueue = enqueue("job-old-worker", "conv_a", "turn-new", 40);
    current_enqueue.expected_global_epoch = current.global_epoch;
    current_enqueue.expected_conversation_epoch = current.conversation_epoch;
    repo.enqueue_completed_turn(current_enqueue).unwrap().unwrap();
    let running = repo.claim_next_job(claim(USER_A, "worker", 41)).unwrap().unwrap();
    repo.update_conversation_memory_lifecycle(UpdateConversationMemoryLifecycleRow {
        user_id: USER_A.into(),
        conversation_id: "conv_a".into(),
        capture_enabled: false,
        now: 42,
    })
    .unwrap();
    let mut stale_commit = commit(
        &running.id,
        "conv_a",
        "turn-new",
        0,
        vec![entry("stale-entry", "stale-fp", vec![source("conv_a", "turn-new")])],
        43,
    );
    stale_commit.lease_token = running.lease_token.unwrap();
    assert!(matches!(
        repo.commit_update(stale_commit),
        Err(DbError::Conflict(_))
    ));
    assert!(repo.get_entry(USER_A, "stale-entry").unwrap().is_none());
}

#[test]
fn sqlite_memory_reset_fence_uses_earliest_all_row_even_when_excluded_from_evidence() {
    let repo = setup();
    repo.delete_conversation_memory(USER_A, "conv_a", 30).unwrap();
    let excluded_rows = [
        (
            "hidden",
            "text",
            object(&[("content", "hidden")]),
            "finish",
            true,
        ),
        (
            "tool",
            "tool_call",
            object(&[("content", "raw")]),
            "finish",
            false,
        ),
        (
            "error",
            "text",
            object(&[("content", "failed")]),
            "error",
            false,
        ),
        ("malformed", "text", "not-json".into(), "finish", false),
    ];
    for (index, (label, message_type, content, status, hidden)) in excluded_rows.into_iter().enumerate() {
        let turn_id = format!("turn-excluded-{label}");
        repo.add_message(&format!("pre-reset-{label}"), "conv_a", &turn_id, message_type, &content, "left", status, hidden, 10 + index as i64);
        assert!(
            enqueue_turn(
                &repo,
                &format!("stale-epoch-{label}"),
                "conv_a",
                &turn_id,
                40 + index as i64
            )
            .is_none(),
        );
        let mut current = enqueue(
            &format!("must-stay-blocked-{label}"),
            "conv_a",
            &turn_id,
            50 + index as i64,
        );
        current.expected_conversation_epoch = 1;
        assert!(
            repo.enqueue_completed_turn(current).unwrap().is_none(),
            "pre-reset {label} row must fence the exact turn",
        );
    }
}

#[test]
fn sqlite_memory_atomic_enqueue_rechecks_a_complete_canonical_turn() {
    let repo = setup();
    repo.add_message("partial-user", "conv_a", "turn-partial", "text", "{\"content\":\"work\"}", "right", "finish", false, 10);
    assert!(
        repo.enqueue_completed_turn(enqueue("partial", "conv_a", "turn-partial", 11))
            .unwrap()
            .is_none()
    );
}

#[test]
fn sqlite_memory_lease_expiry_arithmetic_is_checked() {
    let repo = setup();
    enqueue_turn(&repo, "job-overflow", "conv_a", "turn-overflow", 10);
    let mut overflow = claim(USER_A, "worker", i64::MAX);
    overflow.lease_duration_ms = 1;
    assert!(matches!(repo.claim_next_job(overflow), Err(DbError::Conflict(_))));
}

#[test]
fn sqlite_memory_expired_lease_is_claimable_again() {
    let repo = setup();
    enqueue_turn(&repo, "job-lease", "conv_a", "turn-1", 10);
    let first = repo
        .claim_next_job(claim(USER_A, "worker-a", 20))
        .unwrap()
        .unwrap();
    assert_eq!(first.lease_expires_at, Some(30));
    assert_eq!(first.attempt_count, 0, "claiming is not a durable failed attempt");
    let first_token = first.lease_token.clone().expect("server lease token");
    assert!(
        repo.claim_next_job(claim(USER_A, "worker-b", 29))
            .unwrap()
            .is_none()
    );
    let reclaimed = repo
        .claim_next_job(claim(USER_A, "worker-b", 31))
        .unwrap()
        .unwrap();
    assert_eq!(reclaimed.id, "job-lease");
    assert_eq!(reclaimed.lease_owner.as_deref(), Some("worker-b"));
    assert_eq!(reclaimed.attempt_count, 0);
    assert_ne!(reclaimed.lease_token.as_deref(), Some(first_token.as_str()));
    assert!(
        repo.renew_lease(RenewMemoryLeaseRow {
            user_id: USER_A.into(),
            job_id: "job-lease".into(),
            worker_id: "worker-b".into(),
            lease_token: reclaimed.lease_token.expect("reclaimed token"),
            now: 32,
            lease_duration_ms: 10,
        })
        .unwrap()
    );
}

#[test]
fn sqlite_memory_reclaimed_job_rejects_the_expired_workers_commit() {
    let repo = setup();
    repo.add_message("msg-turn-lease", "conv_a", "turn-lease", "text", "{}", "right", "finish", false, 10);
    enqueue_turn(&repo, "job-fenced", "conv_a", "turn-lease", 10);
    repo.claim_next_job(claim(USER_A, "worker-old", 20))
        .unwrap()
        .unwrap();
    let reclaimed = repo
        .claim_next_job(claim(USER_A, "worker-new", 31))
        .unwrap()
        .unwrap();
    assert_eq!(reclaimed.attempt_count, 0);

    let mut old_commit = commit(
        "job-fenced",
        "conv_a",
        "turn-lease",
        0,
        vec![entry(
            "stale-worker-entry",
            "fp-stale-worker",
            vec![source("conv_a", "turn-lease")],
        )],
        32,
    );
    old_commit.lease_owner = "worker-old".into();
    old_commit.lease_token = "lease-worker-old-20".into();
    old_commit.expected_attempt_count = 0;
    assert!(matches!(
        repo.commit_update(old_commit),
        Err(DbError::Conflict(_))
    ));
    assert!(repo.get_entry(USER_A, "stale-worker-entry").unwrap().is_none());

    let mut current_commit = commit(
        "job-fenced",
        "conv_a",
        "turn-lease",
        0,
        vec![entry(
            "current-worker-entry",
            "fp-current-worker",
            vec![source("conv_a", "turn-lease")],
        )],
        32,
    );
    current_commit.lease_owner = "worker-new".into();
    current_commit.lease_token = "lease-worker-new-31".into();
    current_commit.expected_attempt_count = 0;
    assert!(matches!(
        repo.commit_update(current_commit).unwrap(),
        CommitMemoryUpdateResult::Committed { .. }
    ));
}

#[test]
fn sqlite_memory_expected_revision_rejects_stale_transaction_without_partial_writes() {
    let repo = setup();
    claimed_job(&repo, "job-1", "conv_a", "turn-1");
    let result = repo
        .commit_update(commit(
            "job-1",
            "conv_a",
            "turn-1",
            0,
            vec![entry("entry-1", "fp-1", vec![source("conv_a", "turn-1")])],
            20,
        ))
        .unwrap();
    assert!(matches!(
        result,
        CommitMemoryUpdateResult::Committed { revision: 1, .. }
    ));

    claimed_job(&repo, "job-2", "conv_a", "turn-2");
    repo.change(|store| for row in store.memories.iter_mut() { if row.user_id == USER_A && row.conversation_id == "conv_a" { row.revision = 2; } });
    let stale = repo
        .commit_update(commit(
            "job-2",
            "conv_a",
            "turn-2",
            1,
            vec![entry("stale-entry", "fp-stale", vec![source("conv_a", "turn-2")])],
            30,
        ))
        .unwrap();
    assert_eq!(stale, CommitMemoryUpdateResult::StaleRevision { current_revision: 2 });
    assert!(repo.get_entry(USER_A, "stale-entry").unwrap().is_none());
    let retry = repo.get_job(USER_A, "job-2").unwrap().unwrap();
    assert_eq!(retry.state, "pending");
    assert_eq!(retry.last_error_code.as_deref(), Some("stale_revision"));
    assert_eq!(retry.attempt_count, 0);
}

#[test]
fn sqlite_memory_entry_revision_fences_cross_conversation_refine_races() {
    let repo = setup();
    claimed_job(&repo, "job-entry-base", "conv_a", "turn-base");
    repo.commit_update(commit(
        "job-entry-base",
        "conv_a",
        "turn-base",
        0,
        vec![entry(
            "shared-entry",
            "fp-shared-entry",
            vec![source("conv_a", "turn-base")],
        )],
        20,
    ))
    .unwrap();

    let (first, second) = claim_cross_conversation_jobs(&repo, "refine");
    let mut first_entry = entry(
        "first-candidate",
        "fp-shared-entry",
        vec![enqueued_source("conv_a", "turn-first-refine")],
    );
    first_entry.content = "first refine wins".into();
    first_entry.transition = CommitMemoryEntryTransition::Refine {
        target: expected_entry(
            "shared-entry",
            "fp-shared-entry",
            0,
            "active",
            Some("content for shared-entry"),
        ),
    };
    let mut first_commit = commit(
        &first.id,
        "conv_a",
        "turn-first-refine",
        first.expected_revision,
        vec![first_entry],
        40,
    );
    first_commit.lease_owner = "worker-first-refine".into();
    first_commit.lease_token = first.lease_token.unwrap();
    repo.commit_update(first_commit).unwrap();

    let mut stale_entry = entry(
        "stale-candidate",
        "fp-shared-entry",
        vec![enqueued_source("conv_a2", "turn-second-refine")],
    );
    stale_entry.content = "stale refine must not win".into();
    stale_entry.transition = CommitMemoryEntryTransition::Refine {
        target: expected_entry(
            "shared-entry",
            "fp-shared-entry",
            0,
            "active",
            Some("content for shared-entry"),
        ),
    };
    let mut stale_commit = commit(
        &second.id,
        "conv_a2",
        "turn-second-refine",
        second.expected_revision,
        vec![stale_entry],
        41,
    );
    stale_commit.lease_owner = "worker-second-refine".into();
    stale_commit.lease_token = second.lease_token.unwrap();
    let result = repo.commit_update(stale_commit).unwrap();

    assert!(!matches!(result, CommitMemoryUpdateResult::Committed { .. }));
    let stored = repo.get_entry(USER_A, "shared-entry").unwrap().unwrap();
    assert_eq!(stored.content.as_deref(), Some("first refine wins"));
    assert_eq!(stored.sources.len(), 2);
    let retry = repo.get_job(USER_A, &second.id).unwrap().unwrap();
    assert_eq!(retry.state, "pending");
    assert_eq!(retry.attempt_count, 0);
}

#[test]
fn sqlite_memory_entry_revision_fences_supersede_then_stale_refine() {
    let repo = setup();
    claimed_job(&repo, "job-entry-base", "conv_a", "turn-base");
    repo.commit_update(commit(
        "job-entry-base",
        "conv_a",
        "turn-base",
        0,
        vec![entry(
            "shared-entry",
            "fp-shared-entry",
            vec![source("conv_a", "turn-base")],
        )],
        20,
    ))
    .unwrap();

    let (first, second) = claim_cross_conversation_jobs(&repo, "supersede");
    let mut replacement = entry(
        "replacement-entry",
        "fp-replacement-entry",
        vec![enqueued_source("conv_a", "turn-first-supersede")],
    );
    replacement.transition = CommitMemoryEntryTransition::Supersede {
        target: expected_entry(
            "shared-entry",
            "fp-shared-entry",
            0,
            "active",
            Some("content for shared-entry"),
        ),
    };
    let mut first_commit = commit(
        &first.id,
        "conv_a",
        "turn-first-supersede",
        first.expected_revision,
        vec![replacement],
        40,
    );
    first_commit.lease_owner = "worker-first-supersede".into();
    first_commit.lease_token = first.lease_token.unwrap();
    repo.commit_update(first_commit).unwrap();

    let mut stale_entry = entry(
        "stale-candidate",
        "fp-shared-entry",
        vec![enqueued_source("conv_a2", "turn-second-supersede")],
    );
    stale_entry.content = "stale refine must not touch superseded target".into();
    stale_entry.transition = CommitMemoryEntryTransition::Refine {
        target: expected_entry(
            "shared-entry",
            "fp-shared-entry",
            0,
            "active",
            Some("content for shared-entry"),
        ),
    };
    let mut stale_commit = commit(
        &second.id,
        "conv_a2",
        "turn-second-supersede",
        second.expected_revision,
        vec![stale_entry],
        41,
    );
    stale_commit.lease_owner = "worker-second-supersede".into();
    stale_commit.lease_token = second.lease_token.unwrap();
    let result = repo.commit_update(stale_commit).unwrap();

    assert!(!matches!(result, CommitMemoryUpdateResult::Committed { .. }));
    let target = repo.get_entry(USER_A, "shared-entry").unwrap().unwrap();
    assert_eq!(target.state, "superseded");
    assert_ne!(
        target.content.as_deref(),
        Some("stale refine must not touch superseded target")
    );
    assert_eq!(
        repo.get_job(USER_A, &second.id).unwrap().unwrap().state,
        "pending"
    );
}

#[test]
fn sqlite_memory_source_deletion_removes_exclusive_automatic_entries_only() {
    let repo = setup();
    claimed_job(&repo, "job-source", "conv_a", "turn-1");
    repo.add_message("msg-turn-2", "conv_a", "turn-2", "text", "{}", "right", "finish", false, 11);
    repo.add_message("msg-shared-turn", "conv_a2", "shared-turn", "text", "{}", "right", "finish", false, 11);
    repo.commit_update(commit(
        "job-source",
        "conv_a",
        "turn-1",
        0,
        vec![
            entry("exclusive", "fp-exclusive", vec![source("conv_a", "turn-1")]),
            entry(
                "same-conversation-multi-turn",
                "fp-same-conversation",
                vec![source("conv_a", "turn-1"), source("conv_a", "turn-2")],
            ),
            entry(
                "shared",
                "fp-shared",
                vec![source("conv_a", "turn-1"), source("conv_a2", "shared-turn")],
            ),
        ],
        20,
    ))
    .unwrap();

    repo.delete_conversation_memory(USER_A, "conv_a", 30).unwrap();
    assert!(repo.get_entry(USER_A, "exclusive").unwrap().is_none());
    assert!(
        repo.get_entry(USER_A, "same-conversation-multi-turn")
            .unwrap()
            .is_none()
    );
    let shared = repo.get_entry(USER_A, "shared").unwrap().unwrap();
    assert_eq!(shared.sources.len(), 1);
    assert_eq!(shared.sources[0].conversation_id, "conv_a2");
}

#[test]
fn sqlite_memory_conversation_forget_cancels_failed_barriers_before_new_enqueue() {
    let repo = setup();
    let job = enqueue_turn(&repo, "pre-forget", "conv_a", "turn-1", 10).unwrap();
    let claimed = repo
        .claim_next_job(claim(USER_A, "forget-worker", 20))
        .unwrap()
        .unwrap();
    let failed = repo
        .transition_running_job(TransitionMemoryJobRow {
            user_id: USER_A.into(),
            job_id: job.id.clone(),
            worker_id: "forget-worker".into(),
            lease_token: claimed.lease_token.unwrap(),
            state: "failed".into(),
            next_attempt_at: None,
            error_code: Some("invalid_input".into()),
            increment_attempt: true,
            increment_invalid_output: false,
            now: 21,
        })
        .unwrap()
        .unwrap();
    repo.delete_conversation_memory(USER_A, "conv_a", 30).unwrap();
    assert_eq!(
        repo.get_job(USER_A, &failed.id).unwrap().unwrap().state,
        "canceled"
    );
    assert!(repo.retry_failed_job(USER_A, &failed.id, 31).unwrap().is_none());

    assert!(
        enqueue_turn(&repo, "stale-epoch", "conv_a", "turn-2", 40)
            .is_none()
    );
    let mut current_epoch = enqueue("post-forget", "conv_a", "turn-2", 40);
    current_epoch.expected_conversation_epoch = 1;
    let fresh = repo.enqueue_completed_turn(current_epoch).unwrap().unwrap();
    assert_eq!(fresh.id, "post-forget");
    assert_eq!(fresh.turn_count, 1);
    assert_eq!(
        repo.list_job_turns(USER_A, &fresh.id, 10)
            .unwrap()
            .into_iter()
            .map(|turn| turn.turn_id)
            .collect::<Vec<_>>(),
        ["turn-2"],
    );
}

#[test]
fn sqlite_memory_tombstones_are_content_free_and_block_matching_fingerprints() {
    let repo = setup();
    claimed_job(&repo, "job-delete", "conv_a", "turn-1");
    repo.commit_update(commit(
        "job-delete",
        "conv_a",
        "turn-1",
        0,
        vec![entry("entry-delete", "fp-deleted", vec![source("conv_a", "turn-1")])],
        20,
    ))
    .unwrap();
    repo.delete_entry(USER_A, "entry-delete", 25).unwrap();
    let tombstone = repo.get_entry(USER_A, "entry-delete").unwrap().unwrap();
    assert_eq!(tombstone.state, "deleted");
    assert_eq!(tombstone.content, None);
    assert!(tombstone.sources.is_empty());
    assert!(matches!(
        repo.update_entry(UpdateMemoryEntryRow {
            user_id: USER_A.into(),
            id: "entry-delete".into(),
            expected_revision: 1,
            expected_state: "deleted".into(),
            content: Some("must stay deleted".into()),
            pinned: None,
            project_id: None,
            workspace_key: None,
            new_fingerprint: None,
            now: 26,
        })
        ,
        Err(DbError::Conflict(_))
    ));

    claimed_job(&repo, "job-readd", "conv_a", "turn-2");
    let result = repo
        .commit_update(commit(
            "job-readd",
            "conv_a",
            "turn-2",
            1,
            vec![entry("new-id", "fp-deleted", vec![source("conv_a", "turn-2")])],
            30,
        ))
        .unwrap();
    assert!(matches!(result, CommitMemoryUpdateResult::Committed { ref added_ids, .. } if added_ids.is_empty()));
    assert!(repo.get_entry(USER_A, "new-id").unwrap().is_none());
}

#[test]
fn sqlite_memory_keep_separate_tombstones_every_prior_identity_and_blocks_replay() {
    let repo = setup();
    for (id, fingerprint, content) in [
        ("separate-version-a", "fp-separate-a", "Version A"),
        ("separate-version-b", "fp-separate-b", "Version B"),
    ] {
        repo.add_entry(MemoryEntryDbRow { conflict_group_id: Some("separate-group".into()), ..stored(id, USER_A, &format!("key-{id}"), fingerprint, Some(content), "conflict", 10) });
    }

    let resolved = repo
        .resolve_conflict(ResolveMemoryConflictRow {
            user_id: USER_A.into(),
            entry_id: "separate-version-a".into(),
            action: ResolveMemoryConflictActionRow::KeepSeparate {
                tombstone_id_prefix: "separate-tombstone".into(),
            },
            now: 20,
        })
        .unwrap();
    assert!(
        resolved
            .iter()
            .all(|entry| entry.state == "active" && entry.user_edited)
    );
    let tombstoned_fingerprints: Vec<String> = repo.read(|store| {
        let mut found: Vec<String> = store.entries.iter().filter(|row| row.user_id == USER_A && row.state == "deleted" && (row.fingerprint == "fp-separate-a" || row.fingerprint == "fp-separate-b")).map(|row| row.fingerprint.clone()).collect();
        found.sort();
        found
    });
    assert_eq!(tombstoned_fingerprints, ["fp-separate-a", "fp-separate-b"]);

    claimed_job(&repo, "job-replay-separate", "conv_a", "turn-replay-separate");
    let replay = repo
        .commit_update(commit(
            "job-replay-separate",
            "conv_a",
            "turn-replay-separate",
            0,
            vec![
                entry(
                    "replayed-version-a",
                    "fp-separate-a",
                    vec![source("conv_a", "turn-replay-separate")],
                ),
                entry(
                    "replayed-version-b",
                    "fp-separate-b",
                    vec![source("conv_a", "turn-replay-separate")],
                ),
            ],
            30,
        ))
        .unwrap();
    assert!(matches!(replay, CommitMemoryUpdateResult::Committed { ref added_ids, .. } if added_ids.is_empty()));
    assert!(repo.get_entry(USER_A, "replayed-version-a").unwrap().is_none());
    assert!(repo.get_entry(USER_A, "replayed-version-b").unwrap().is_none());
}

#[test]
fn sqlite_memory_update_entry_rejects_zero_row_cas_after_tombstone() {
    let repo = setup();
    claimed_job(&repo, "job-update-race", "conv_a", "turn-1");
    repo.commit_update(commit(
        "job-update-race",
        "conv_a",
        "turn-1",
        0,
        vec![entry(
            "entry-update-race",
            "fp-update-race",
            vec![source("conv_a", "turn-1")],
        )],
        20,
    ))
    .unwrap();
    repo.change(|store| store.sources.retain(|row| row.memory_entry_id != "entry-update-race"));
    repo.set_entry("entry-update-race", |entry| {
        entry.content = None;
        entry.state = "deleted".into();
        entry.supersedes_id = None;
        entry.conflict_group_id = None;
        entry.deleted_at = Some(25);
        entry.updated_at = 25;
    });

    assert!(matches!(
        repo.update_entry(UpdateMemoryEntryRow {
            user_id: USER_A.into(),
            id: "entry-update-race".into(),
            expected_revision: 0,
            expected_state: "active".into(),
            content: Some("must not report success".into()),
            pinned: None,
            project_id: None,
            workspace_key: None,
            new_fingerprint: None,
            now: 26,
        })
        ,
        Err(DbError::Conflict(_))
    ));
}

#[test]
fn sqlite_memory_scope_edit_requires_a_rederived_fingerprint() {
    let repo = setup();
    claimed_job(&repo, "job-scope-edit", "conv_a", "turn-1");
    repo.commit_update(commit(
        "job-scope-edit",
        "conv_a",
        "turn-1",
        0,
        vec![entry(
            "scope-entry",
            "scope-old-fingerprint",
            vec![source("conv_a", "turn-1")],
        )],
        20,
    ))
    .unwrap();

    assert!(matches!(
        repo.update_entry(UpdateMemoryEntryRow {
            user_id: USER_A.into(),
            id: "scope-entry".into(),
            expected_revision: 0,
            expected_state: "active".into(),
            content: None,
            pinned: None,
            project_id: Some(Some("project-moved".into())),
            workspace_key: None,
            new_fingerprint: None,
            now: 25,
        })
        ,
        Err(DbError::Conflict(_))
    ));
    let unchanged = repo.get_entry(USER_A, "scope-entry").unwrap().unwrap();
    assert_eq!(unchanged.project_id, None);
    assert_eq!(unchanged.fingerprint, "scope-old-fingerprint");
}

#[test]
fn sqlite_memory_scope_edit_moves_the_canonical_lookup_under_revision_cas() {
    let repo = setup();
    let old_fingerprint = derive_memory_fingerprint(USER_A, None, None, "decision", "move key");
    repo.add_entry(stored("move-entry", USER_A, "move key", &old_fingerprint, Some("move content"), "active", 1));
    let moved_fingerprint = derive_memory_fingerprint(USER_A, Some("project-moved"), None, "decision", "move key");

    assert!(matches!(
        repo.update_entry(UpdateMemoryEntryRow {
            user_id: USER_A.into(),
            id: "move-entry".into(),
            expected_revision: 1,
            expected_state: "active".into(),
            content: None,
            pinned: None,
            project_id: Some(Some("project-moved".into())),
            workspace_key: None,
            new_fingerprint: Some(moved_fingerprint.clone()),
            now: 2,
        })
        ,
        Err(DbError::Conflict(_))
    ));
    let moved = repo
        .update_entry(UpdateMemoryEntryRow {
            user_id: USER_A.into(),
            id: "move-entry".into(),
            expected_revision: 0,
            expected_state: "active".into(),
            content: None,
            pinned: None,
            project_id: Some(Some("project-moved".into())),
            workspace_key: None,
            new_fingerprint: Some(moved_fingerprint.clone()),
            now: 3,
        })
        .unwrap();
    assert_eq!(moved.revision, 1);
    assert_eq!(moved.project_id.as_deref(), Some("project-moved"));
    assert_eq!(moved.fingerprint, moved_fingerprint);
    assert!(
        repo.reconciliation_entries(USER_A, &[old_fingerprint.clone()], &[])
            .unwrap()
            .is_empty()
    );
    assert_eq!(
        repo.reconciliation_entries(USER_A, &[moved.fingerprint.clone()], &[])
            .unwrap()
            .into_iter()
            .map(|entry| entry.id.clone())
            .collect::<Vec<_>>(),
        ["move-entry"],
    );
}

#[test]
fn sqlite_memory_scope_edit_rejects_active_and_tombstoned_destination_identities() {
    let repo = setup();
    let source_fingerprint = derive_memory_fingerprint(USER_A, None, None, "decision", "source key");
    repo.add_entry(stored("scope-source", USER_A, "source key", &source_fingerprint, Some("source"), "active", 1));
    for (scope, id, state, content, deleted_at) in [
        ("active-destination", "scope-active", "active", Some("active"), None),
        ("deleted-destination", "scope-deleted", "deleted", None, Some(2_i64)),
    ] {
        let fingerprint = derive_memory_fingerprint(USER_A, Some(scope), None, "decision", "source key");
        repo.add_entry(MemoryEntryDbRow { project_id: Some(scope.into()), deleted_at, ..stored(id, USER_A, "source key", &fingerprint, content, state, 2) });
        assert!(matches!(
            repo.update_entry(UpdateMemoryEntryRow {
                user_id: USER_A.into(),
                id: "scope-source".into(),
                expected_revision: 0,
                expected_state: "active".into(),
                content: None,
                pinned: None,
                project_id: Some(Some(scope.into())),
                workspace_key: None,
                new_fingerprint: Some(fingerprint),
                now: 3,
            })
            ,
            Err(DbError::Conflict(_))
        ));
    }
    let source = repo.get_entry(USER_A, "scope-source").unwrap().unwrap();
    assert_eq!(source.revision, 0);
    assert_eq!(source.project_id, None);
    assert_eq!(source.fingerprint, source_fingerprint);
}

#[test]
fn sqlite_memory_global_clear_removes_content_and_advances_reset_atomically() {
    let repo = setup();
    claimed_job(&repo, "job-clear", "conv_a", "turn-1");
    repo.commit_update(commit(
        "job-clear",
        "conv_a",
        "turn-1",
        0,
        vec![entry("entry-clear", "fp-clear", vec![source("conv_a", "turn-1")])],
        20,
    ))
    .unwrap();
    repo.delete_entry(USER_A, "entry-clear", 21).unwrap();
    enqueue_turn(&repo, "job-pending", "conv_a", "turn-2", 22);
    let stale_worker = repo
        .claim_next_job(ClaimMemoryJobRow {
            user_id: USER_A.into(),
            worker_id: "worker-before-clear".into(),
            lease_token: "lease-before-clear".into(),
            now: 23,
            lease_duration_ms: 100,
        })
        .unwrap()
        .unwrap();
    assert_eq!(stale_worker.id, "job-pending");
    repo.update_conversation_policy(UpdateConversationMemoryPolicyRow {
        user_id: USER_A.into(),
        conversation_id: "conv_a2".into(),
        capture_enabled: Some(false),
        recall_enabled: Some(false),
        now: 21,
    })
    .unwrap();
    repo.upsert_import_state(MemoryImportStateRow {
        user_id: USER_A.into(),
        cursor: Some("legacy-cursor-7".into()),
        completed: false,
        started_at: Some(15),
        completed_at: None,
        updated_at: 22,
    })
    .unwrap();

    repo.clear_memory(USER_A, 50).unwrap();
    assert_eq!(repo.get_settings(USER_A).unwrap().reset_at, Some(50));
    assert!(repo.list_entries(USER_A).unwrap().is_empty());
    assert!(repo.get_conversation_memory(USER_A, "conv_a").unwrap().is_none());
    assert!(repo.get_job(USER_A, "job-clear").unwrap().is_none());
    assert!(repo.get_job(USER_A, "job-pending").unwrap().is_none());
    assert!(
        !repo
            .renew_lease(RenewMemoryLeaseRow {
                user_id: USER_A.into(),
                job_id: "job-pending".into(),
                worker_id: "worker-before-clear".into(),
                lease_token: "lease-before-clear".into(),
                now: 51,
                lease_duration_ms: 100,
            })
            .unwrap()
    );
    let policy = repo.effective_policy(USER_A, "conv_a2").unwrap();
    assert_eq!(policy.capture_override, Some(false));
    assert_eq!(policy.recall_override, Some(false));
    assert!(!policy.capture_enabled && !policy.recall_enabled);
    assert_eq!(policy.reset_at, Some(50));
    let import_state = repo.get_import_state(USER_A).unwrap().unwrap();
    assert_eq!(import_state.cursor.as_deref(), Some("legacy-cursor-7"));
    assert!(import_state.completed);
    assert_eq!(import_state.started_at, Some(15));
    assert_eq!(import_state.completed_at, Some(50));
    let stale_import_write = repo
        .upsert_import_state(MemoryImportStateRow {
            user_id: USER_A.into(),
            cursor: Some("stale-page-after-clear".into()),
            completed: false,
            started_at: Some(15),
            completed_at: None,
            updated_at: 55,
        })
        .unwrap();
    assert_eq!(stale_import_write.cursor.as_deref(), Some("legacy-cursor-7"));
    assert!(stale_import_write.completed);
    assert_eq!(stale_import_write.completed_at, Some(50));

    assert!(repo.get_import_state(USER_B).unwrap().is_none());
    repo.clear_memory(USER_B, 60).unwrap();
    let preimport_clear = repo.get_import_state(USER_B).unwrap().unwrap();
    assert_eq!(preimport_clear.cursor, None);
    assert!(preimport_clear.completed);
    assert_eq!(preimport_clear.started_at, Some(60));
    assert_eq!(preimport_clear.completed_at, Some(60));
}

#[test]
fn sqlite_memory_applies_explicit_supersede_and_conflict_transitions_to_change_set() {
    let repo = setup();
    claimed_job(&repo, "job-base", "conv_a", "turn-1");
    repo.commit_update(commit(
        "job-base",
        "conv_a",
        "turn-1",
        0,
        vec![
            entry("old-decision", "fp-old-decision", vec![source("conv_a", "turn-1")]),
            entry("old-issue", "fp-old-issue", vec![source("conv_a", "turn-1")]),
        ],
        20,
    ))
    .unwrap();

    claimed_job(&repo, "job-transition", "conv_a", "turn-2");
    let mut replacement = entry("new-decision", "fp-new-decision", vec![source("conv_a", "turn-2")]);
    replacement.transition = CommitMemoryEntryTransition::Supersede {
        target: expected_entry(
            "old-decision",
            "fp-old-decision",
            0,
            "active",
            Some("content for old-decision"),
        ),
    };
    let mut contradiction = entry("new-issue", "fp-new-issue", vec![source("conv_a", "turn-2")]);
    contradiction.transition = CommitMemoryEntryTransition::Conflict {
        target: expected_entry("old-issue", "fp-old-issue", 0, "active", Some("content for old-issue")),
        conflict_group_id: "conflict-1".into(),
    };
    repo.commit_update(commit(
        "job-transition",
        "conv_a",
        "turn-2",
        1,
        vec![replacement, contradiction],
        30,
    ))
    .unwrap();

    let old_decision = repo.get_entry(USER_A, "old-decision").unwrap().unwrap();
    let new_decision = repo.get_entry(USER_A, "new-decision").unwrap().unwrap();
    assert_eq!(old_decision.state, "superseded");
    assert_eq!(new_decision.supersedes_id.as_deref(), Some("old-decision"));
    let old_issue = repo.get_entry(USER_A, "old-issue").unwrap().unwrap();
    let new_issue = repo.get_entry(USER_A, "new-issue").unwrap().unwrap();
    assert_eq!(old_issue.state, "conflict");
    assert_eq!(new_issue.state, "conflict");
    assert_eq!(new_issue.conflict_group_id.as_deref(), Some("conflict-1"));

    let changes = repo.list_change_sets(USER_A, 10).unwrap();
    let changes = changes.iter().find(|row| row.id == "changes-job-transition").unwrap();
    assert_eq!(
        serde_json::from_str::<Vec<String>>(&changes.superseded_ids_json).unwrap(),
        ["old-decision"]
    );
    assert_eq!(
        serde_json::from_str::<Vec<String>>(&changes.conflict_ids_json).unwrap(),
        ["old-issue", "new-issue"]
    );
}

#[test]
fn sqlite_memory_protected_targets_reject_mutation_and_keep_conflicts_active() {
    for (protection, pinned, edited_content) in [
        ("pinned", Some(true), None),
        ("user-edited", None, Some("protected user content")),
    ] {
        for transition in ["refine", "supersede", "conflict"] {
            let repo = setup();
            let target_id = format!("{protection}-{transition}-target");
            let target_fingerprint = format!("fp-{target_id}");
            claimed_job(&repo, "job-protected-base", "conv_a", "turn-1");
            repo.commit_update(commit(
                "job-protected-base",
                "conv_a",
                "turn-1",
                0,
                vec![entry(&target_id, &target_fingerprint, vec![source("conv_a", "turn-1")])],
                20,
            ))
            .unwrap();
            let protected = repo
                .update_entry(UpdateMemoryEntryRow {
                    user_id: USER_A.into(),
                    id: target_id.clone(),
                    expected_revision: 0,
                    expected_state: "active".into(),
                    content: edited_content.map(str::to_owned),
                    pinned,
                    project_id: None,
                    workspace_key: None,
                    new_fingerprint: None,
                    now: 21,
                })
                .unwrap();
            let protected_content = protected.content.clone();

            let job_id = format!("job-{protection}-{transition}");
            claimed_job(&repo, &job_id, "conv_a", "turn-2");
            let candidate_id = format!("{protection}-{transition}-candidate");
            let mut candidate = entry(
                &candidate_id,
                &format!("fp-{candidate_id}"),
                vec![source("conv_a", "turn-2")],
            );
            candidate.content = format!("automatic {transition} content");
            let expected = ExpectedMemoryEntryRow {
                id: target_id.clone(),
                revision: protected.revision,
                state: protected.state.clone(),
                fingerprint: protected.fingerprint.clone(),
                project_id: protected.project_id.clone(),
                workspace_key: protected.workspace_key.clone(),
                content: protected.content.clone(),
            };
            candidate.transition = match transition {
                "refine" => CommitMemoryEntryTransition::Refine {
                    target: expected.clone(),
                },
                "supersede" => CommitMemoryEntryTransition::Supersede {
                    target: expected.clone(),
                },
                "conflict" => CommitMemoryEntryTransition::Conflict {
                    target: expected,
                    conflict_group_id: format!("group-{protection}"),
                },
                _ => unreachable!(),
            };
            let result = repo
                .commit_update(commit(&job_id, "conv_a", "turn-2", 1, vec![candidate], 30))
                ;

            let target = repo.get_entry(USER_A, &target_id).unwrap().unwrap();
            assert_eq!(target.state, "active", "{protection} {transition}");
            assert_eq!(target.content, protected_content, "{protection} {transition}");
            assert_eq!(target.pinned, pinned == Some(true), "{protection} {transition}");
            assert_eq!(
                target.user_edited,
                edited_content.is_some(),
                "{protection} {transition}"
            );
            assert_eq!(target.conflict_group_id, None, "{protection} {transition}");

            if transition == "conflict" {
                let committed = result.unwrap();
                assert!(matches!(
                    committed,
                    CommitMemoryUpdateResult::Committed {
                        ref conflict_ids,
                        ..
                    } if conflict_ids == std::slice::from_ref(&candidate_id)
                ));
                let candidate = repo.get_entry(USER_A, &candidate_id).unwrap().unwrap();
                assert_eq!(candidate.state, "conflict");
                assert_eq!(
                    candidate.conflict_group_id.as_deref(),
                    Some(format!("group-{protection}").as_str())
                );
                assert_eq!(
                    repo.get_conversation_memory(USER_A, "conv_a")
                        .unwrap()
                        .unwrap()
                        .revision,
                    2
                );
            } else {
                assert_eq!(result.unwrap(), CommitMemoryUpdateResult::StaleReconciliation);
                assert!(repo.get_entry(USER_A, &candidate_id).unwrap().is_none());
                assert_eq!(
                    repo.get_conversation_memory(USER_A, "conv_a")
                        .unwrap()
                        .unwrap()
                        .revision,
                    1
                );
                assert_eq!(repo.get_job(USER_A, &job_id).unwrap().unwrap().state, "pending");
                assert_eq!(repo.list_change_sets(USER_A, 10).unwrap().len(), 1);
            }
        }
    }
}

#[test]
fn sqlite_memory_protected_identical_content_only_attaches_a_source() {
    let repo = setup();
    claimed_job(&repo, "job-protected-source-base", "conv_a", "turn-1");
    repo.commit_update(commit(
        "job-protected-source-base",
        "conv_a",
        "turn-1",
        0,
        vec![entry(
            "protected-source-target",
            "fp-protected-source",
            vec![source("conv_a", "turn-1")],
        )],
        20,
    ))
    .unwrap();
    let protected = repo
        .update_entry(UpdateMemoryEntryRow {
            user_id: USER_A.into(),
            id: "protected-source-target".into(),
            expected_revision: 0,
            expected_state: "active".into(),
            content: None,
            pinned: Some(true),
            project_id: None,
            workspace_key: None,
            new_fingerprint: None,
            now: 21,
        })
        .unwrap();

    claimed_job(&repo, "job-protected-source", "conv_a", "turn-2");
    let mut candidate = entry(
        "unused-protected-candidate",
        "fp-protected-source",
        vec![source("conv_a", "turn-2")],
    );
    candidate.content = protected.content.clone().unwrap();
    candidate.transition = CommitMemoryEntryTransition::AttachSource {
        target: ExpectedMemoryEntryRow {
            id: protected.id.clone(),
            revision: protected.revision,
            state: protected.state.clone(),
            fingerprint: protected.fingerprint.clone(),
            project_id: protected.project_id.clone(),
            workspace_key: protected.workspace_key.clone(),
            content: protected.content.clone(),
        },
    };
    let result = repo
        .commit_update(commit(
            "job-protected-source",
            "conv_a",
            "turn-2",
            1,
            vec![candidate],
            30,
        ))
        .unwrap();
    assert!(matches!(
        result,
        CommitMemoryUpdateResult::Committed {
            ref refined_ids,
            ..
        } if refined_ids == &["protected-source-target"]
    ));
    let attached = repo
        .get_entry(USER_A, "protected-source-target")
        .unwrap()
        .unwrap();
    assert_eq!(attached.content, protected.content);
    assert_eq!(attached.state, "active");
    assert_eq!(attached.revision, protected.revision);
    assert_eq!(attached.sources.len(), 2);
    assert!(
        repo.get_entry(USER_A, "unused-protected-candidate")
            .unwrap()
            .is_none()
    );
}

#[test]
fn sqlite_memory_reconciliation_lookup_finds_rows_beyond_the_evidence_window() {
    let repo = setup();
    for index in 0..65 {
        repo.add_entry(stored(&format!("lookup-entry-{index:02}"), USER_A, &format!("lookup key {index:02}"), &format!("lookup-fingerprint-{index:02}"), Some(&format!("lookup content {index:02}")), "active", index));
    }
    repo.add_entry(MemoryEntryDbRow { deleted_at: Some(70), ..stored("lookup-tombstone", USER_A, "deleted key", "lookup-deleted-fingerprint", None, "deleted", 70) });

    let rows = repo
        .reconciliation_entries(
            USER_A,
            &["lookup-fingerprint-00".into(), "lookup-deleted-fingerprint".into()],
            &["lookup-entry-64".into()],
        )
        .unwrap();
    let ids = rows
        .into_iter()
        .map(|row| row.id.clone())
        .collect::<std::collections::HashSet<_>>();
    assert_eq!(
        ids,
        ["lookup-entry-00", "lookup-entry-64", "lookup-tombstone"]
            .into_iter()
            .map(str::to_owned)
            .collect(),
    );
}

#[test]
fn sqlite_memory_reconciliation_lookup_bounds_conflicts_and_omits_sources() {
    let repo = setup();
    for (id, state, deleted_at, updated_at) in [
        ("bounded-active", "active", None, 1_i64),
        ("bounded-deleted-old", "deleted", Some(2_i64), 2),
        ("bounded-deleted-new", "deleted", Some(3_i64), 3),
    ] {
        repo.add_entry(MemoryEntryDbRow { deleted_at, ..stored(id, USER_A, id, "bounded-fingerprint", (state != "deleted").then_some(id), state, updated_at) });
    }
    for index in 0..80 {
        let id = format!("bounded-conflict-{index:03}");
        repo.add_entry(stored(&id, USER_A, &id, "bounded-fingerprint", Some(&id), "conflict", 10 + index));
        repo.change(|store| store.sources.push(MemorySourceRow {
            memory_entry_id: id.clone(),
            conversation_id: "conv_a".into(),
            turn_id: format!("source-turn-{index:03}"),
            message_ids_json: "[]".into(),
            first_observed_at: 1,
            last_observed_at: 1,
        }));
    }

    let rows = repo
        .reconciliation_entries(
            USER_A,
            &["bounded-fingerprint".into()],
            &["bounded-conflict-079".into()],
        )
        .unwrap();
    assert_eq!(
        rows.iter().map(|row| row.id.as_str()).collect::<Vec<_>>(),
        ["bounded-active", "bounded-deleted-new", "bounded-conflict-079"],
    );
    assert!(rows.iter().all(|row| row.sources.is_empty()));
}

#[test]
fn sqlite_memory_rejects_foreign_transition_targets_and_noncanonical_sources_atomically() {
    let repo = setup();
    repo.add_entry(stored("foreign-entry", USER_B, "foreign", "fp-foreign", Some("foreign"), "active", 1));

    claimed_job(&repo, "job-foreign-target", "conv_a", "turn-1");
    let mut foreign_target = entry("candidate", "fp-candidate", vec![source("conv_a", "turn-1")]);
    foreign_target.transition = CommitMemoryEntryTransition::Supersede {
        target: expected_entry("foreign-entry", "fp-foreign", 0, "active", Some("foreign")),
    };
    assert!(matches!(
        repo.commit_update(commit(
            "job-foreign-target",
            "conv_a",
            "turn-1",
            0,
            vec![foreign_target],
            20,
        ))
        ,
        Err(DbError::NotFound(_))
    ));
    assert!(repo.get_conversation_memory(USER_A, "conv_a").unwrap().is_none());

    let mut bad_source = entry("bad-source", "fp-bad-source", vec![source("conv_b", "turn-1")]);
    bad_source.sources[0].message_ids_json = r#"["missing-message"]"#.into();
    assert!(matches!(
        repo.commit_update(commit(
            "job-foreign-target",
            "conv_a",
            "turn-1",
            0,
            vec![bad_source],
            21,
        ))
        ,
        Err(DbError::NotFound(_))
    ));
    assert!(repo.get_entry(USER_A, "bad-source").unwrap().is_none());

    let missing_turn = entry(
        "missing-turn-source",
        "fp-missing-turn",
        vec![source("conv_a", "missing-turn")],
    );
    assert!(matches!(
        repo.commit_update(commit(
            "job-foreign-target",
            "conv_a",
            "turn-1",
            0,
            vec![missing_turn],
            22,
        ))
        ,
        Err(DbError::NotFound(_))
    ));

    repo.add_message("foreign-message", "conv_b", "foreign-turn", "text", "{}", "right", "finish", false, 10);
    let mut foreign_message = entry(
        "foreign-message-source",
        "fp-foreign-message",
        vec![source("conv_a", "turn-1")],
    );
    foreign_message.sources[0].message_ids_json = r#"["foreign-message"]"#.into();
    assert!(matches!(
        repo.commit_update(commit(
            "job-foreign-target",
            "conv_a",
            "turn-1",
            0,
            vec![foreign_message],
            23,
        ))
        ,
        Err(DbError::NotFound(_))
    ));
}

#[test]
fn sqlite_memory_candidate_query_returns_sql_ordered_bounded_window() {
    let repo = setup();
    claimed_job(&repo, "job-candidates", "conv_a", "turn-1");
    let mut exact_project = entry("exact-project", "fp-project", vec![source("conv_a", "turn-1")]);
    exact_project.project_id = Some("project-1".into());
    exact_project.content = "no shared prompt tokens".into();
    let mut exact_workspace = entry("exact-workspace", "fp-workspace", vec![source("conv_a", "turn-1")]);
    exact_workspace.workspace_key = Some("workspace-1".into());
    exact_workspace.content = "needle needle needle".into();
    let mut global = entry("global", "fp-global", vec![source("conv_a", "turn-1")]);
    global.content = "needle".into();
    repo.commit_update(commit(
        "job-candidates",
        "conv_a",
        "turn-1",
        0,
        vec![global, exact_workspace, exact_project],
        20,
    ))
    .unwrap();

    let candidates = repo
        .retrieval_candidates(MemoryCandidateQueryRow {
            user_id: USER_A.into(),
            project_id: Some("project-1".into()),
            workspace_key: Some("workspace-1".into()),
            limit: 2,
        })
        .unwrap();
    assert_eq!(
        candidates.iter().map(|row| row.id.as_str()).collect::<Vec<_>>(),
        ["exact-project", "exact-workspace"]
    );
}

#[test]
fn sqlite_memory_retrieval_create_replaces_same_key_and_lazily_cleans_expired_rows() {
    let repo = setup();
    let retrieval = |id: &str, prompt_hash: &str, created_at: i64, expires_at: i64| MemoryRetrievalRow {
        id: id.into(),
        user_id: USER_A.into(),
        conversation_id: "conv_a".into(),
        prompt_hash: prompt_hash.into(),
        selected_ids_json: "[]".into(),
        estimated_tokens: 0,
        budget_tokens: 2_000,
        retrieval_version: "memory-retrieval-v1".into(),
        created_at,
        expires_at,
    };
    repo.create_retrieval(retrieval("first", "same", 10, 100))
        .unwrap();
    repo.create_retrieval(retrieval("replacement", "same", 20, 200))
        .unwrap();
    assert!(repo.get_retrieval(USER_A, "first").unwrap().is_none());
    assert!(repo.get_retrieval(USER_A, "replacement").unwrap().is_some());
    assert_eq!(repo.read(|store| store.retrievals.len() as i64), 1);

    repo.create_retrieval(retrieval("expired", "other", 30, 31))
        .unwrap();
    assert_eq!(repo.delete_expired_retrievals(31).unwrap(), 1);
    assert!(repo.get_retrieval(USER_A, "expired").unwrap().is_none());
    assert!(matches!(
        repo.get_retrieval(USER_B, "replacement"),
        Err(DbError::NotFound(_))
    ));
}

#[test]
fn sqlite_memory_rejects_cross_user_resource_ids() {
    let repo = setup();
    assert!(matches!(
        repo.effective_policy(USER_A, "conv_b"),
        Err(DbError::NotFound(_))
    ));
    let mut other_enqueue = enqueue("foreign-job", "conv_b", "turn-1", 10);
    other_enqueue.user_id = USER_A.into();
    assert!(matches!(
        repo.enqueue_completed_turn(other_enqueue),
        Err(DbError::NotFound(_))
    ));

    claimed_job(&repo, "owned-job", "conv_a", "turn-1");
    repo.commit_update(commit(
        "owned-job",
        "conv_a",
        "turn-1",
        0,
        vec![entry("owned-entry", "fp-owned", vec![source("conv_a", "turn-1")])],
        20,
    ))
    .unwrap();
    assert!(matches!(
        repo.get_entry(USER_B, "owned-entry"),
        Err(DbError::NotFound(_))
    ));
    assert!(matches!(
        repo.delete_entry(USER_B, "owned-entry", 30),
        Err(DbError::NotFound(_))
    ));
    assert!(matches!(
        repo.get_job(USER_B, "owned-job"),
        Err(DbError::NotFound(_))
    ));
    assert!(matches!(
        repo.delete_conversation_memory(USER_B, "conv_a", 30),
        Err(DbError::NotFound(_))
    ));
}

fn query() -> MemoryEntryQueryRow {
    MemoryEntryQueryRow {
        search: None,
        kind: None,
        state: None,
        project_id: None,
        workspace_key: None,
        source_conversation_id: None,
        created_after: None,
        created_before: None,
        limit: 10,
        offset: 0,
    }
}

fn ids_of(repo: &Repo, query: &MemoryEntryQueryRow) -> Vec<String> {
    let rows = repo.read(|store| store.query_entries(USER_A, query)).unwrap();
    rows.into_iter().map(|row| row.entry.id).collect()
}

#[test]
fn entries_are_queried_by_what_they_hold_and_where_they_come_from() {
    let repo = setup();
    repo.add_entry(stored("e1", USER_A, "key one", "f1", Some("Ship 100% today"), "active", 10));
    repo.add_entry(MemoryEntryDbRow {
        pinned: true,
        project_id: Some("p1".into()),
        ..stored("e2", USER_A, "key two", "f2", Some("other"), "active", 20)
    });
    repo.add_entry(MemoryEntryDbRow {
        kind: "fact".into(),
        ..stored("e3", USER_A, "key three", "f3", Some("shipped"), "superseded", 30)
    });
    repo.add_entry(stored("e4", USER_B, "key one", "f4", Some("Ship"), "active", 40));
    repo.change(|store| {
        store.sources.push(MemorySourceRow {
            memory_entry_id: "e1".into(),
            conversation_id: "conv_a".into(),
            turn_id: "turn".into(),
            message_ids_json: "[]".into(),
            first_observed_at: 1,
            last_observed_at: 1,
        })
    });

    assert_eq!(ids_of(&repo, &query()), ["e2", "e3", "e1"], "pinned first, then the newest");
    assert_eq!(ids_of(&repo, &MemoryEntryQueryRow { limit: 1, offset: 1, ..query() }), ["e3"]);
    let by_search = |text: &str| MemoryEntryQueryRow { search: Some(text.into()), ..query() };
    assert_eq!(ids_of(&repo, &by_search("SHIP")), ["e3", "e1"]);
    assert_eq!(ids_of(&repo, &by_search("ship%today")), ["e1"]);
    assert_eq!(ids_of(&repo, &MemoryEntryQueryRow { kind: Some("fact".into()), ..query() }), ["e3"]);
    assert_eq!(
        ids_of(&repo, &MemoryEntryQueryRow { state: Some("active".into()), ..query() }),
        ["e2", "e1"],
    );
    assert_eq!(
        ids_of(&repo, &MemoryEntryQueryRow { project_id: Some("p1".into()), ..query() }),
        ["e2"],
    );
    assert_eq!(
        ids_of(&repo, &MemoryEntryQueryRow { source_conversation_id: Some("conv_a".into()), ..query() }),
        ["e1"],
    );
    let between = MemoryEntryQueryRow { created_after: Some(20), created_before: Some(29), ..query() };
    assert_eq!(ids_of(&repo, &between), ["e2"]);
    assert_eq!(
        repo.read(|store| store.count_entries(USER_A, &MemoryEntryQueryRow { limit: 1, ..query() })),
        Ok(3),
        "a count has no limit",
    );
    assert!(matches!(
        repo.read(|store| store.count_entries("nobody", &query())),
        Err(DbError::NotFound(_)),
    ));
}

#[test]
fn change_sets_are_queried_by_conversation() {
    let repo = setup();
    for (turn, job) in [("turn-1", "job-1"), ("turn-2", "job-2")] {
        claimed_job(&repo, job, "conv_a", turn);
        let revision = if job == "job-1" { 0 } else { 1 };
        repo.commit_update(commit(job, "conv_a", turn, revision, vec![], 12)).unwrap();
    }
    let all = |conversation: Option<&str>, limit: u32, offset: u32| {
        let query = MemoryChangeSetQueryRow {
            conversation_id: conversation.map(str::to_owned),
            limit,
            offset,
        };
        let (rows, total) = repo.read(|store| store.query_change_sets(USER_A, &query)).unwrap();
        (rows.into_iter().map(|row| row.id).collect::<Vec<_>>(), total)
    };
    let (ids, total) = all(Some("conv_a"), 10, 0);
    assert_eq!((ids.len(), total), (2, 2));
    let (page, total) = all(None, 1, 1);
    assert_eq!((page, total), (vec![ids[1].clone()], 2));
    assert_eq!(all(Some("conv_a2"), 10, 0), (vec![], 0));
}

#[test]
fn jobs_are_counted_by_state() {
    let repo = setup();
    for (id, state) in [("j1", "pending"), ("j2", "succeeded"), ("j3", "pending"), ("j4", "failed")] {
        insert_job_in_state(&repo, id, state);
    }
    repo.set_job("j2", |job| job.updated_at = 77);
    repo.set_job("j4", |job| job.user_id = USER_B.into());
    let (last, rows) = repo.read(|store| store.memory_job_health(USER_A)).unwrap();
    assert_eq!(last, Some(77));
    let counts: Vec<(String, i64)> = rows.into_iter().map(|row| (row.state, row.count)).collect();
    assert_eq!(counts, [("pending".to_owned(), 2), ("succeeded".to_owned(), 1)]);
    assert_eq!(repo.read(|store| store.memory_job_health(USER_B)).unwrap().0, None);
}

#[test]
fn jobs_are_blocked_unblocked_and_canceled_by_user() {
    let repo = setup();
    for (id, state) in
        [("j1", "pending"), ("j2", "retry_wait"), ("j3", "running"), ("j4", "succeeded")]
    {
        insert_job_in_state(&repo, id, state);
    }
    let states = |repo: &Repo| {
        repo.read(|store| store.queue.jobs.iter().map(|job| job.state.clone()).collect::<Vec<_>>())
    };
    assert_eq!(repo.change(|store| store.queue.block_jobs(USER_B, 20)), 0);
    assert_eq!(repo.change(|store| store.queue.block_jobs(USER_A, 20)), 2);
    assert_eq!(states(&repo), ["blocked", "blocked", "running", "succeeded"]);
    assert_eq!(repo.change(|store| store.queue.unblock_jobs(USER_A, 21)), 2);
    assert_eq!(states(&repo), ["pending", "pending", "running", "succeeded"]);
    assert_eq!(repo.change(|store| store.queue.cancel_jobs(USER_A, Some("conv_a2"), 22)), 0);
    assert_eq!(repo.change(|store| store.queue.cancel_jobs(USER_A, Some("conv_a"), 22)), 3);
    assert_eq!(states(&repo), ["canceled", "canceled", "canceled", "succeeded"]);
    assert_eq!(repo.get_job(USER_A, "j3").unwrap().unwrap().last_error_code.as_deref(), Some("canceled"));
}

#[test]
fn a_lease_is_valid_for_its_holder_until_it_runs_out() {
    let repo = setup();
    claimed_job(&repo, "job-1", "conv_a", "turn-1");
    let valid = |user: &str, token: &str, now: i64| {
        repo.read(|store| store.queue.validate_lease(user, "job-1", token, now))
    };
    assert!(valid(USER_A, "lease-worker-11", 110));
    assert!(!valid(USER_A, "lease-worker-11", 111));
    assert!(!valid(USER_A, "another", 50));
    assert!(!valid(USER_B, "lease-worker-11", 50));
}

#[test]
fn a_lifecycle_change_starts_an_epoch_only_where_something_changes() {
    let repo = setup();
    let epoch = |repo: &Repo| repo.get_settings(USER_A).unwrap().lifecycle_epoch;
    let update = |enabled: Option<bool>, capture: Option<bool>| UpdateMemoryLifecycleRow {
        user_id: USER_A.into(),
        enabled,
        default_capture: capture,
        now: 50,
    };
    repo.change(|store| store.update_memory_lifecycle(&update(Some(true), None)));
    assert_eq!(epoch(&repo), 0);
    repo.change(|store| store.update_memory_lifecycle(&update(Some(false), Some(true))));
    assert_eq!(epoch(&repo), 1);
    assert!(!repo.get_settings(USER_A).unwrap().enabled);
    assert!(repo.get_settings(USER_A).unwrap().default_capture);
}

#[test]
fn a_conversation_without_a_policy_has_an_empty_one() {
    let repo = setup();
    let policy = repo.read(|store| store.get_conversation_policy(USER_A, "conv_a")).unwrap();
    assert_eq!(policy.conversation_id, "conv_a");
    assert_eq!((policy.capture_enabled, policy.recall_enabled), (None, None));
    repo.update_conversation_policy(UpdateConversationMemoryPolicyRow {
        user_id: USER_A.into(),
        conversation_id: "conv_a".into(),
        capture_enabled: Some(false),
        recall_enabled: None,
        now: 60,
    })
    .unwrap();
    let policy = repo.read(|store| store.get_conversation_policy(USER_A, "conv_a")).unwrap();
    assert_eq!((policy.capture_enabled, policy.recall_enabled), (Some(false), None));
    assert!(repo.read(|store| store.get_conversation_policy(USER_B, "conv_a")).is_err());
}

fn disputed(id: &str, fingerprint: &str, content: &str, at: i64) -> MemoryEntryDbRow {
    MemoryEntryDbRow {
        conflict_group_id: Some("group".into()),
        ..stored(id, USER_A, id, fingerprint, Some(content), "conflict", at)
    }
}

fn dispute(repo: &Repo) {
    repo.add_entry(disputed("e1", "f1", "one", 10));
    repo.add_entry(disputed("e2", "f1", "two", 20));
    repo.add_entry(stored("e3", USER_A, "e3", "f3", Some("three"), "active", 30));
}

fn resolve(entry_id: &str, action: ResolveMemoryConflictActionRow) -> ResolveMemoryConflictRow {
    ResolveMemoryConflictRow {
        user_id: USER_A.into(),
        entry_id: entry_id.into(),
        action,
        now: 50,
    }
}

#[test]
fn a_selected_version_wins_a_conflict() {
    let repo = setup();
    dispute(&repo);
    let action = ResolveMemoryConflictActionRow::Select { selected_entry_id: "e2".into() };
    let rows = repo.resolve_conflict(resolve("e1", action)).unwrap();
    let states: Vec<(&str, &str, bool, i64)> = rows
        .iter()
        .map(|row| (row.id.as_str(), row.state.as_str(), row.user_edited, row.revision))
        .collect();
    assert_eq!(states, [("e1", "superseded", false, 1), ("e2", "active", true, 2)]);
    assert!(rows.iter().all(|row| row.conflict_group_id.is_none()));
    let action = ResolveMemoryConflictActionRow::Select { selected_entry_id: "e2".into() };
    assert_eq!(
        repo.change(|store| store.resolve_conflict(&resolve("e1", action))),
        Err(DbError::Conflict("Memory entry is not in an unresolved conflict".into())),
    );
}

#[test]
fn a_merged_version_takes_the_place_of_a_conflict() {
    let repo = setup();
    dispute(&repo);
    let action = ResolveMemoryConflictActionRow::Merge { content: "both".into() };
    let rows = repo.resolve_conflict(resolve("e1", action)).unwrap();
    assert_eq!(rows[0].content.as_deref(), Some("both"));
    assert_eq!((rows[0].state.as_str(), rows[1].state.as_str()), ("active", "superseded"));
    assert_eq!(rows[1].content.as_deref(), Some("two"));
}

#[test]
fn conflicts_that_cannot_be_settled_are_left_alone() {
    let repo = setup();
    dispute(&repo);
    let before = repo.read(|store| store.clone());
    let select = |id: &str| ResolveMemoryConflictActionRow::Select { selected_entry_id: id.into() };
    for (entry, action, error) in [
        ("e9", select("e1"), DbError::NotFound("Memory entry 'e9' not found".into())),
        ("e1", select("e3"), DbError::NotFound("Memory entry 'e3' not found".into())),
        (
            "e3",
            select("e1"),
            DbError::Conflict("Memory entry is not in an unresolved conflict".into()),
        ),
    ] {
        let result = repo.change(|store| store.resolve_conflict(&resolve(entry, action)));
        assert_eq!(result, Err(error));
        assert!(repo.read(|store| *store == before));
    }
    repo.set_entry("e2", |row| row.state = "superseded".into());
    assert_eq!(
        repo.change(|store| store.resolve_conflict(&resolve("e1", select("e1")))),
        Err(DbError::Conflict("Memory conflict no longer has multiple versions".into())),
    );
    repo.set_entry("e1", |row| row.conflict_group_id = None);
    assert_eq!(
        repo.change(|store| store.resolve_conflict(&resolve("e1", select("e1")))),
        Err(DbError::Conflict("Memory conflict is missing its group".into())),
    );
}

fn edit(id: &str, revision: i64, content: Option<&str>) -> UpdateMemoryEntryRow {
    UpdateMemoryEntryRow {
        user_id: USER_A.into(),
        id: id.into(),
        expected_revision: revision,
        expected_state: "active".into(),
        content: content.map(str::to_owned),
        pinned: None,
        project_id: None,
        workspace_key: None,
        new_fingerprint: None,
        now: 60,
    }
}

#[test]
fn an_edit_counts_once_and_a_deleted_entry_is_gone() {
    let repo = setup();
    dispute(&repo);
    let edited = repo.update_entry(edit("e3", 0, Some("edited"))).unwrap();
    assert_eq!((edited.content.as_deref(), edited.revision), (Some("edited"), 1));
    assert!(edited.user_edited && !edited.pinned);
    assert_eq!(
        repo.change(|store| store.update_entry(&edit("e3", 0, Some("again")))),
        Err(DbError::Conflict("Memory entry 'e3' revision or state changed".into())),
    );
    let pinned = UpdateMemoryEntryRow { pinned: Some(true), ..edit("e3", 1, None) };
    let row = repo.update_entry(pinned).unwrap();
    assert_eq!((row.content.as_deref(), row.pinned, row.revision), (Some("edited"), true, 2));
    let other = UpdateMemoryEntryRow { new_fingerprint: Some("f9".into()), ..edit("e3", 2, None) };
    assert_eq!(
        repo.change(|store| store.update_entry(&other)),
        Err(DbError::Conflict("Memory fingerprint cannot change without a scope edit".into())),
    );
    repo.delete_entry(USER_A, "e3", 70).unwrap();
    assert_eq!(
        repo.change(|store| store.update_entry(&edit("e3", 3, Some("back")))),
        Err(DbError::Conflict("Deleted Memory entry 'e3' cannot be updated".into())),
    );
    assert_eq!(
        repo.change(|store| store.update_entry(&edit("e9", 0, None))),
        Err(DbError::NotFound("Memory entry 'e9' not found".into())),
    );
}

#[test]
fn a_committed_update_counts_once_and_spares_other_users() {
    let repo = setup();
    repo.add_entry(stored("b1", USER_B, "key", "f1", Some("theirs"), "active", 5));
    claimed_job(&repo, "job-1", "conv_a", "turn-1");
    let update = || {
        let written = entry("a1", "f1", vec![enqueued_source("conv_a", "turn-1")]);
        commit("job-1", "conv_a", "turn-1", 0, vec![written], 12)
    };
    assert!(matches!(repo.commit_update(update()), Ok(CommitMemoryUpdateResult::Committed { .. })));
    let after = repo.read(|store| store.clone());
    assert_eq!(after.memories[0].revision, 1);
    assert_eq!(after.entries[0].content.as_deref(), Some("theirs"));
    assert_eq!(after.entries[1].user_id, USER_A);
    assert!(repo.commit_update(update()).is_err());
    assert!(repo.read(|store| *store == after));
}

fn queued(repo: &Repo, conversation_id: &str) -> usize {
    repo.read(|store| {
        let jobs = store.queue.jobs.iter().filter(|job| job.conversation_id == conversation_id);
        let waits = ["pending", "retry_wait", "blocked"];
        jobs.filter(|job| waits.contains(&job.state.as_str())).count()
    })
}

#[test]
fn a_turn_is_queued_once_and_in_the_one_queued_job() {
    let repo = setup();
    enqueue_turn(&repo, "job-1", "conv_a", "turn-1", 10).unwrap();
    let running = repo.claim_next_job(claim(USER_A, "worker", 13)).unwrap().unwrap();
    let first = enqueue_turn(&repo, "job-2", "conv_a", "turn-2", 14).unwrap();
    let second = enqueue_turn(&repo, "job-3", "conv_a", "turn-3", 15).unwrap();
    assert_eq!((first.id.as_str(), second.id.as_str()), ("job-2", "job-2"));
    assert_eq!((second.state.as_str(), second.turn_count), ("pending", 2));
    assert_eq!(second.through_turn_id, "turn-3");
    let after = repo.read(|store| store.clone());
    for turn in ["turn-1", "turn-2", "turn-3"] {
        let again = repo.enqueue_completed_turn(enqueue("job-4", "conv_a", turn, 16)).unwrap();
        assert_eq!(again, None);
        assert!(repo.read(|store| *store == after));
    }
    assert_eq!(repo.get_job(USER_A, "job-1").unwrap(), Some(running));
    assert_eq!(queued(&repo, "conv_a"), 1);
    enqueue_turn(&repo, "job-5", "conv_a2", "turn-1", 17).unwrap();
    assert_eq!((queued(&repo, "conv_a"), queued(&repo, "conv_a2")), (1, 1));
}

#[test]
fn an_update_that_is_out_of_date_only_gives_its_job_back() {
    let repo = setup();
    claimed_job(&repo, "job-1", "conv_a", "turn-1");
    enqueue_turn(&repo, "job-2", "conv_a", "turn-2", 12).unwrap();
    repo.change(|store| {
        store.memories.push(ConversationMemoryRow {
            user_id: USER_A.into(),
            conversation_id: "conv_a".into(),
            project_id: None,
            workspace_key: None,
            summary_json: "{}".into(),
            through_turn_id: "turn-0".into(),
            revision: 4,
            source: "memory_update".into(),
            schema_version: 1,
            prompt_version: None,
            writer_provider_id: None,
            writer_model_id: None,
            created_at: 1,
            updated_at: 1,
        });
    });
    let before = repo.read(|store| store.clone());
    let written = || vec![entry("a1", "f1", vec![enqueued_source("conv_a", "turn-1")])];
    let foreign = CommitMemoryUpdateRow {
        lease_token: "another".into(),
        ..commit("job-1", "conv_a", "turn-1", 0, written(), 13)
    };
    assert!(repo.commit_update(foreign).is_err());
    assert!(repo.read(|store| *store == before));

    let stale = repo.commit_update(commit("job-1", "conv_a", "turn-1", 0, written(), 13)).unwrap();
    assert_eq!(stale, CommitMemoryUpdateResult::StaleRevision { current_revision: 4 });
    let after = repo.read(|store| store.clone());
    assert_eq!((&after.memories, &after.entries), (&before.memories, &before.entries));
    assert_eq!((&after.sources, &after.change_sets), (&before.sources, &before.change_sets));
    assert!(repo.get_job(USER_A, "job-1").unwrap().is_none());
    let job = repo.get_job(USER_A, "job-2").unwrap().unwrap();
    assert_eq!((job.state.as_str(), job.attempt_count), ("pending", 0));
    assert_eq!(job.last_error_code.as_deref(), Some("stale_revision"));
    assert_eq!((&job.lease_owner, &job.lease_token, job.lease_expires_at), (&None, &None, None));
    let turns = repo.list_job_turns(USER_A, "job-2", 10).unwrap();
    let turns: Vec<&str> = turns.iter().map(|turn| turn.turn_id.as_str()).collect();
    assert_eq!(turns, ["turn-1", "turn-2"]);
}

#[test]
fn rows_that_a_call_leaves_alone_may_be_full() {
    let repo = setup();
    claimed_job(&repo, "job-1", "conv_a", "turn-1");
    enqueue_turn(&repo, "job-2", "conv_a2", "turn-2", 12).unwrap();
    repo.set_job("job-2", |job| job.attempt_count = i64::MAX);
    let settled = repo
        .transition_running_job(TransitionMemoryJobRow {
            job_id: "job-1".into(),
            user_id: USER_A.into(),
            worker_id: "worker".into(),
            lease_token: "lease-worker-11".into(),
            state: "retry_wait".into(),
            next_attempt_at: Some(50),
            error_code: Some("timeout".into()),
            increment_attempt: true,
            increment_invalid_output: false,
            now: 13,
        })
        .unwrap()
        .unwrap();
    assert_eq!((settled.state.as_str(), settled.attempt_count), ("retry_wait", 1));

    dispute(&repo);
    let full = stored("full", USER_A, "key-full", "f-full", Some("full"), "active", 10);
    repo.add_entry(MemoryEntryDbRow { revision: i64::MAX, ..full });
    repo.resolve_conflict(ResolveMemoryConflictRow {
        user_id: USER_A.into(),
        entry_id: "e1".into(),
        action: ResolveMemoryConflictActionRow::Select { selected_entry_id: "e1".into() },
        now: 20,
    })
    .unwrap();
    assert_eq!(repo.get_entry(USER_A, "full").unwrap().unwrap().revision, i64::MAX);
}

#[test]
fn a_search_that_is_too_long_is_refused_where_there_is_an_entry_to_look_through() {
    let repo = setup();
    let longest = || MemoryEntryQueryRow { search: Some("x".repeat(49_998)), ..query() };
    let wide = || MemoryEntryQueryRow { search: Some("\u{e9}".repeat(25_000)), ..query() };
    let refused = || DbError::Query("LIKE or GLOB pattern too complex".into());
    assert_eq!(repo.read(|store| store.query_entries(USER_A, &wide())), Ok(vec![]));
    assert_eq!(repo.read(|store| store.count_entries(USER_A, &wide())), Ok(0));
    repo.add_entry(stored("e1", USER_A, "key", "f1", None, "active", 10));
    assert_eq!(repo.read(|store| store.query_entries(USER_A, &longest())), Ok(vec![]));
    assert_eq!(repo.read(|store| store.query_entries(USER_A, &wide())), Err(refused()));
    assert_eq!(repo.read(|store| store.count_entries(USER_A, &wide())), Err(refused()));
    let elsewhere = MemoryEntryQueryRow { source_conversation_id: Some("none".into()), ..wide() };
    assert_eq!(repo.read(|store| store.query_entries(USER_A, &elsewhere)), Err(refused()));
    let other_kind = MemoryEntryQueryRow { kind: Some("no such kind".into()), ..wide() };
    assert_eq!(repo.read(|store| store.query_entries(USER_A, &other_kind)), Ok(vec![]));
    assert_eq!(repo.read(|store| store.count_entries(USER_B, &wide())), Ok(0));
}

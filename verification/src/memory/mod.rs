//! Memories of conversations: completed turns are queued in order, a worker turns
//! them into a summary and entries, and the user edits and forgets these.
pub mod capture_laws;
pub mod commands;
pub mod commit;
pub mod commit_effects;
pub mod commit_laws;
pub mod consent_laws;
pub mod digest;
pub mod edit_effects;
pub mod edit_laws;
pub mod edits;
pub mod enqueue;
pub mod entries;
pub mod entry_laws;
pub mod evidence;
pub mod finalize;
pub mod forget;
pub mod forget_laws;
pub mod job_laws;
pub mod leases;
pub mod ledger;
pub mod ledger_laws;
pub mod outcome_laws;
pub mod policy;
pub mod policy_laws;
pub mod queue;
pub mod queue_laws;
pub mod queued_laws;
pub mod record_laws;
pub mod retrievals;
pub mod rows;
pub mod snapshot_laws;
pub mod split;
pub mod store;
pub mod write_laws;

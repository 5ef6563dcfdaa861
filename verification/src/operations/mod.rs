//! Running development: policies, what is used and what it costs, alerts,
//! recovery, held resources and secrets.
pub mod effects;
pub mod leases;
pub mod recovery;
pub mod rows;
pub mod store;
pub mod usage;

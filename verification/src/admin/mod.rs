//! Accounts as administrators manage them.
pub mod accounts;
pub mod effects;
pub mod laws;
pub mod rows;

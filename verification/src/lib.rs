//! The data rules behind a chat application: every operation works on tables held
//! as vectors of rows, and its contract says what becomes of them.
pub mod admin;
pub mod approval;
pub mod channel;
pub mod development;
pub mod error;
pub mod hash;
pub mod json;
pub mod like;
pub mod memory;
pub mod operations;
pub mod order;
pub mod project;
pub mod settings;
pub mod share;
pub mod skill;
pub mod table;
pub mod team;
pub mod text;
pub mod workspace_lease;
pub mod write;

//! Projects: their profiles, what is known of their code, and what belongs to them.
pub mod effects;
pub mod laws;
pub mod rows;
pub mod store;

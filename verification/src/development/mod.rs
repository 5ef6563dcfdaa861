//! Development runs: their tasks, what they produce, how it is checked and
//! delivered.
pub mod effects;
pub mod rows;
pub mod store;

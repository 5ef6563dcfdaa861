//! Messaging channels: connections, the people on them, the conversations that
//! their chats go to, and requests to be let in.
pub mod effects;
pub mod laws;
pub mod owners;
pub mod rows;
pub mod store;

//! Weave: agents that share a session, and the chat that talks to them.

pub mod agent_mentions;
pub mod approvals;
pub mod chat;
pub mod client;
pub mod connection;
pub mod envelope;
pub mod exchange;
pub mod incoming;
pub mod json;
pub mod limits;
pub mod mentions;
pub mod menus;
pub mod outside;
pub mod paths;
pub mod pickers;
pub mod popup;
pub mod prompts;
pub mod relay;
pub mod sender;
pub mod table;
pub mod text;
pub mod transcript;
pub mod updates;

//! The chat: what the user says, what the model answers, and what other agents
//! want.
//!
//! A [`state::ChatWidget`] holds what the chat remembers. Each event changes it
//! and puts into the outbox what is to be done outside. Its mathematical value
//! is a [`state::ChatView`], whose methods say what each event does.

pub mod answers;
pub mod controls;
pub mod events;
pub mod frames;
pub mod inbound;
pub mod keys;
pub mod laws;
pub mod outcomes;
pub mod plan;
pub mod progress;
pub mod relay;
pub mod replies;
pub mod results;
pub mod rules;
pub mod sending;
pub mod session;
pub mod state;
pub mod status;
pub mod steps;
pub mod stream;
pub mod submit;
pub mod targets;
pub mod tools;
pub mod turns;
pub mod types;

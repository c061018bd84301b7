//! Orchestration core of an interactive XMPP client.
//!
//! The crate owns the session state of the client, hands every event to a set of
//! plugins, dispatches user commands by name and brings direct, group and log
//! messages into one model. The behaviour of every function is stated in its
//! contract and proved by Verus.

pub mod command;
pub mod contact;
pub mod event;
pub mod jid;
pub mod message;
pub mod orchestrator;
pub mod plugin;
pub mod plugins;
pub mod registry;
pub mod wire;

//! A small facade over a key-value cache server: one lazily opened,
//! shared connection, and the rules that decide when it is opened.
//!
//! - `settings`: the fallback settings file that can supply the store's URL;
//! - `connector`: the client built once from that URL;
//! - `slot`: the slot that holds at most one live connection;
//! - `command`: the store command that each operation becomes.
pub mod command;
pub mod connector;
pub mod settings;
pub mod slot;

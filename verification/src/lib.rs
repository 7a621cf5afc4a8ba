//! Watches local directory trees and mirrors changed files into a remote
//! object store.
//!
//! This crate holds the verified core of the tool: reconciling the watch
//! settings of several agents that share a root, deriving the destination
//! object key for a changed file, filtering events through each agent's
//! pattern, and deciding — per agent and independently of every other agent —
//! whether to upload and whether to remove the local copy afterwards.
//! The unverified shell around it performs the actual filesystem watching,
//! the transfers, and the deletions, following the decisions made here.

pub mod agent;
pub mod errors;
pub mod laws;
pub mod manager;
pub mod path_model;
pub mod pattern;
pub mod settings;

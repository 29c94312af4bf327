//! The decisions of a node of a CURP cluster.
//!
//! A node answers requests from clients and from other nodes, keeps its followers up to date
//! while it leads, and asks for votes when it does not hear from a leader. This crate holds
//! what it decides while it does so. The network, the disk, the clock and the consensus
//! state machine are outside: what is to be done with them is an action, and how that went
//! is an event or an argument.

pub mod boot;
mod cast;
pub mod conf_change;
pub mod error;
pub mod followers;
pub mod handlers;
pub mod install_snapshot;
pub mod laws;
pub mod log_entry;
pub mod machine;
pub mod rpc;
pub mod send_ae;
pub mod sync_follower;
pub mod tasks;
pub mod vote_handler;
pub mod vote_round;
pub mod wait_synced;

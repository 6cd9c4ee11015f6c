//! Membership bookkeeping and message logic of a gossip protocol node.
//!
//! The crate holds what a node decides: the list of known cluster members,
//! which member a message goes to and at which address, the messages
//! themselves, the state of a TLS client connection, the client session
//! cache with its on-disk encoding, and the choices made when a TLS client
//! configuration is assembled. Reading and writing files and sockets is left
//! to the caller.

pub mod storage;
pub mod filter;
pub mod msg;
pub mod discovery;
pub mod cache;
pub mod client;
pub mod config;
pub mod comm;
pub mod schedule;

//! A replicated message queue driven by the Raft consensus protocol.
//!
//! The crate holds the protocol's decisions (elections, log replication,
//! commitment) and the queue state machine that the replicated log drives.
//! Transport, timers and persistence files are handled by the program around it.
pub mod election;
pub mod message;
pub mod queue;
pub mod address;
pub mod config;
pub mod peer_table;
pub mod state;
pub mod node;
pub mod server;
pub mod replication;
pub mod campaign;
pub mod membership;
pub mod timer;
pub mod status;

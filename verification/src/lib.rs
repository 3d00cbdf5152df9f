//! Decision core of a Raft server: what the driver loop of one node does with
//! every event, and with every outcome of the storage, engine and transport
//! calls it asks for.
pub mod actions;
pub mod admin;
pub mod answered;
pub mod applied;
pub mod apply;
pub mod captured;
pub mod config;
pub mod dialogue;
pub mod driver;
pub mod error;
pub mod fetch;
pub mod guarantees;
pub mod handle;
pub mod host;
pub mod inbound;
pub mod journey;
pub mod lifecycle;
pub mod message;
pub mod metrics;
pub mod model;
pub mod queue;
pub mod reads;
pub mod reload;
pub mod roles;
pub mod router;
pub mod safety;
pub mod served;
pub mod snapshot;
pub mod state;
pub mod status;
pub mod stored;
pub mod text;
pub mod types;
pub mod waiters;

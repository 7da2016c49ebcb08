//! Bidirectional streams between peers of a libp2p network.

pub mod base58;
pub mod behaviour;
pub mod bench;
pub mod cli;
pub mod laws;
pub mod manager;
pub mod peer;
pub mod peer_map;
pub mod peer_queues;
pub mod queue;
pub mod reporter;
pub mod stream;
pub mod swarm;
pub mod text;

//! Application-protocol multiplexing layer for a peer-to-peer node.
//!
//! Several independent logical applications (consensus, transaction relay,
//! state synchronization, peer health monitoring) share a small number of
//! physical network links. Inbound traffic is demultiplexed by protocol into
//! per-application bounded queues; outbound traffic from each application is
//! multiplexed back onto the correct logical network and peer connection.
//!
//! The queueing, fan-in/fan-out, and identity-resolution rules are stated as
//! contracts and verified: no cross-talk between applications, FIFO delivery
//! within each protocol's queue, and the configuration invariants that must
//! hold before any network is started.
//!
//! The node also handles externally supplied credential-like records (JSON
//! Web Keys) whose conversion is pure data transformation: the `codec` and
//! `jwk` modules carry those conversions, with the encoding and decoding
//! proved to be inverses.

pub mod ids;
pub mod protocol;
pub mod error;
pub mod queue;
pub mod collector;
pub mod source;
pub mod registry;
pub mod outbound;
pub mod config;
pub mod client;
pub mod wiring;
pub mod orchestrator;
pub mod codec;
pub mod jwk;

//! Local TCP port forwarding over one authenticated SSH session.
//!
//! The library holds the decisions of the tunnel: configuration checks, the
//! startup sequence, the listener's admission of connections, the opening of
//! one channel per connection, and the relay state machine of each pair.
//! The program around it performs the network work and reports outcomes.

pub mod broker;
pub mod config;
pub mod host_key;
pub mod listener;
pub mod relay;
pub mod startup;

//! Core logic of a wallet-installer wizard: building and checking an
//! inheritance descriptor from user-supplied keys and a timelock, tracking
//! hardware signing devices and their registration status, validating a node
//! connection, rendering the persisted configuration artifact, and the state
//! machine that orchestrates the whole install flow.
//!
//! Everything here is pure: device probing, file access and network I/O live
//! in the surrounding application, which feeds their outcomes back into the
//! state machine as completion events.

pub mod bitcoind;
pub mod bytes;
pub mod config;
pub mod descriptor;
pub mod devices;
pub mod installer;
pub mod keys;
pub mod network;

//! Core of a user-space networking library OS: a queue table, a per-queue
//! state machine, completion tokens, the socket facade and the IPv4
//! receive-path demultiplexer, all with machine-checked contracts.

pub mod fail;
pub mod types;
pub mod queue;
pub mod qtable;
pub mod libos;
pub mod ipv4;

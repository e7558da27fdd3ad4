//! The core of a real-time chat relay.
//!
//! Clients connect over a persistent channel, register a display name and
//! exchange short text messages, optionally as replies, with everybody else
//! who is connected. This crate holds what the relay decides:
//!
//! - [`protocol`]: the three kinds of frame and their payloads, read from and
//!   written to JSON documents ([`json`]);
//! - [`registry`]: the table of connected peers, in registration order and
//!   without duplicates;
//! - [`broadcast`]: one frame for every registered peer;
//! - [`session`]: what each event on a connection does;
//! - [`sweeper`]: the periodic eviction of peers that went silent;
//! - [`laws`]: what holds of all of it together.
//!
//! Nothing here touches a socket, a clock or a lock. A broadcast is a list of
//! deliveries, the time is an argument, and the registry is handed in by
//! exclusive reference; the program around the crate owns the transport, the
//! delivery queues and the timer.

pub mod broadcast;
pub mod json;
pub mod laws;
pub mod protocol;
pub mod registry;
pub mod session;
pub mod sweeper;
pub mod text;

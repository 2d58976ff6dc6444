//! A single-room broadcast hub: every message a connected peer sends is
//! fanned out to all the other peers that are registered at that moment.
//!
//! The crate holds the decisions of the hub and their proofs: who is
//! registered, who receives a broadcast, and how one connection moves from
//! its handshake to its cleanup. Sockets, tasks and the lock around the
//! shared registry belong to the program that embeds the hub.

pub mod peer;
pub mod channel;
pub mod message;
pub mod registry;
pub mod broadcast;
pub mod connection;
pub mod acceptor;
pub mod hub;

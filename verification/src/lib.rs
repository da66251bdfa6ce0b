//! Verified core of a UDP network-condition emulator.
//!
//! The emulator sits between a sender and a destination. It receives
//! datagrams, drops those that are too large, drops others at random, holds
//! the rest back by a fixed delay plus a random jitter, and sends them on
//! in the order of their release times.
//!
//! This crate holds the decisions of that pipeline and their proofs. The
//! sockets, the threads and the queues between them belong to the caller,
//! who reads the clock, performs each action and reports what came of it:
//!
//! - [`listener`] turns the outcome of a receive into a packet,
//! - [`engine`] applies the [`policy`] to it and keeps it in the release
//!   [`queue`] until it is due,
//! - [`forwarder`] holds a released packet until it has been sent,
//! - [`controller`] judges a start that failed and a run that ended,
//! - [`laws`] states what holds of whole runs.

pub mod config;
pub mod controller;
pub mod engine;
pub mod forwarder;
pub mod laws;
pub mod listener;
pub mod packet;
pub mod policy;
pub mod queue;
pub mod random;
pub mod worker;

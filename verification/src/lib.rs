//! Verified core of a connection acceptor and session-dispatch front-end.
//!
//! A single acceptor thread owns a listening socket, performs TCP accept,
//! drives asynchronous TLS handshakes, and hands completed sessions to a
//! pool of workers through bounded queues, steering either by uniform
//! random placement or by NIC-receive-queue (NAPI id) affinity.
//!
//! This crate holds the decision logic of that front-end as verified code:
//! configuration snapshots, the session data model, the bounded queue pool,
//! the handshake slab, and the acceptor's event-dispatch state machine.
//! The raw I/O (epoll, accept, socket options, TLS records) lives outside
//! the crate; its outcomes enter the state machine as plain values.

pub mod config;
pub mod listener;
pub mod poller;
pub mod queue;
pub mod session;
pub mod stream;

//! Certificate lifecycle engine of an ACME client.
//!
//! The engine decides; it does not act. It holds the rules by which
//! certificates are obtained, renewed and delivered, and leaves every
//! exchange with a server, a resolver or the file system to the program that
//! embeds it. That program reports what happened, and is told what to do
//! next.
//!
//! - [`config`] checks a configuration and makes its outputs into entries.
//! - [`threshold`] reads durations and renewal thresholds and computes the
//!   instant from which a certificate is renewed.
//! - [`lifecycle`] is the machine of one entry, [`trace`] what holds of its
//!   steps and runs, and [`backoff`] the delays between attempts.
//! - [`scheduler`] steps the machines of all entries, each by itself.
//! - [`client`] classifies failures, repeats a request after a stale nonce,
//!   paces the polling of authorizations and surveys them.
//! - [`solver`] says what is provisioned for a challenge and keeps the book
//!   of what is provisioned.
//! - [`store`] selects the issued material for a file, [`encode`] encodes
//!   it, and [`delivery`] plans how the file reaches its place.
//! - [`notify`] plans the notification that follows a delivery.
//! - [`events`] is the bounded record of control events, [`control`] the
//!   requests of the control channel, and [`daemon`] the state of a running
//!   daemon, which serves the requests and records every step.
//! - [`cli`] is the grammar of the command line and the choice of the
//!   command to run.

pub mod backoff;
pub mod cli;
pub mod client;
pub mod config;
pub mod control;
pub mod daemon;
pub mod delivery;
pub mod encode;
pub mod events;
pub mod lifecycle;
pub mod notify;
pub mod scheduler;
pub mod solver;
pub mod store;
pub mod text;
pub mod threshold;
pub mod trace;

//! Verified core of a device dashboard.
//!
//! The dashboard shows and steers remote devices from a browser. This crate
//! holds what it decides, as functions from plain values to plain values with
//! contracts that Verus proves:
//!
//! - [`terminal`]: the session that hosts a login shell on a pseudo-terminal
//!   and restarts it whenever it ends;
//! - [`exchange`] and [`connection`]: the table that pairs each request sent
//!   to a device with its reply, and the connection built on it, which
//!   resolves every caller exactly once;
//! - [`registry`]: the directory of connected devices, and which of them
//!   serves a call;
//! - [`message`]: the vocabulary spoken with a device;
//! - [`http`] and [`pages`]: what the HTTP layer and each page work out
//!   before anything is drawn;
//! - [`text`], [`format`] and [`ordered`]: cutting and writing text, and
//!   searching a list kept in order.
//!
//! Sockets, pseudo-terminals, channels and markup live with the caller, which
//! carries out the commands that these functions hand back and reports what
//! happened.

pub mod connection;
pub mod error;
pub mod exchange;
pub mod format;
pub mod http;
pub mod message;
pub mod ordered;
pub mod pages;
pub mod registry;
pub mod terminal;
pub mod text;

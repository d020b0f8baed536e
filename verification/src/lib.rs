//! Verified core of a line-oriented TCP chat room, together with the small
//! binary price-tracking service that shares its process.
//!
//! The chat core admits clients under a name-uniqueness rule, keeps a registry
//! of present names, and turns client lines and bus events into the exact
//! protocol lines the server sends.  All I/O and task scheduling live outside
//! this crate; the functions here are pure decisions over plain values.

pub mod means;
pub mod messages;
pub mod registry;
pub mod session;
pub mod text;
pub mod transport;

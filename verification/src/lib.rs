//! Mirror of a Debian package repository index.
//!
//! The library covers the parts of the mirror that carry real logic: the
//! gzip codec boundary, the line-oriented record parser, the
//! bounded-concurrency fetch scheduler, and the sync orchestrator's state
//! machine. Network transfers, progress rendering and the SQLite store are
//! left to the surrounding binary, which feeds their outcomes back in as
//! plain values.

pub mod codec;
pub mod command;
pub mod fetch;
pub mod handler;
pub mod package;
pub mod parse;
pub mod sync;

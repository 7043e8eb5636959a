//! Expiry-driven file sweeping.
//!
//! A process that sets the attribute `user.expire_at` on a file asks for the
//! file to be deleted once that time has passed. This library holds what the
//! daemon that grants the wish has to get right:
//!
//! - `wire`: the layout of the records that the capture program emits;
//! - `timestamp`: the timestamps in decimal that the attribute carries;
//! - `decode`: which records ask for a deletion, and for which;
//! - `store`: the schedule of pending deletions, in an SQLite database;
//! - `capture`, `persist`, `cleanup`: what each of the three loops of the
//!   daemon does next, given what has just happened;
//! - `retry`: how many failures in a row a loop puts up with.
//!
//! The library neither reads the clock nor touches a file, a thread or a
//! signal: the program around it does, and reports what came of it.

pub mod capture;
pub mod cleanup;
pub mod decode;
pub mod persist;
pub mod retry;
pub mod store;
pub mod timestamp;
pub mod wire;

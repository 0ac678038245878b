//! Resolving a process identifier from an executable name.
//!
//! The operating system's process table is read through a snapshot that is
//! opened, walked entry by entry, and released. The walk itself is done by the
//! caller; this library decides, event by event, what happens next
//! ([`lookup::Lookup`]), and compares executable names ([`name`]).
pub mod lookup;
pub mod name;
pub mod table;

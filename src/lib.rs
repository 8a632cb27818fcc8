//! A dispenser of per-(project, tag) sequence numbers kept as decimal files.
//!
//! `decimal` reads and writes the on-disk number format, `store` decides what
//! Peek and Consume return and write given what was found on disk, `history`
//! states what holds over runs of those operations, and `config` reads the
//! port setting. The filesystem, the lock that serializes requests and the
//! HTTP transport live outside the library.

pub mod config;
pub mod decimal;
pub mod history;
pub mod store;

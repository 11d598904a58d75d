//! An in-memory filesystem engine.
//!
//! The engine keeps a table of nodes keyed by inode number and a store of
//! file contents, and answers the requests of a kernel bridge: attribute
//! queries, directory listings, name lookups, entry creation, writes and
//! reads. Every operation is stated over a mathematical model of the
//! engine's state and proved against it.

pub mod attr;
pub mod error;
pub mod fs;
pub mod laws;
pub mod node_table;
pub mod state;

//! A convenience layer that maps plain records onto the tables of an embedded
//! SQL engine.
//!
//! The crate holds the part of that layer that computes: deriving a table
//! schema from a record's fields, reconciling it with the table that already
//! exists, compiling filter chains and records into SQL text, decoding rows,
//! and deciding when a failed write is tried again. Every function states what
//! it returns in its contract, over sequences of characters and other
//! mathematical values. Talking to the engine is left to the caller.
pub mod db;

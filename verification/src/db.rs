//! The database layer: the handle, the query builder, the data model and the
//! machinery underneath them.
use vstd::prelude::*;

pub mod aio_database;
pub mod aio_query;
pub mod internal;
pub mod models;

verus! {

/// The two write-ahead journal modes of the engine.
#[derive(Debug, Clone, Copy, PartialEq, Eq, Structural)]
pub enum WalMode {
    WAL,
    WAL2,
}

/// The engine's word for a journal mode.
pub open spec fn wal_mode_name(mode: WalMode) -> Seq<char> {
    match mode {
        WalMode::WAL => "WAL"@,
        WalMode::WAL2 => "WAL2"@,
    }
}

impl WalMode {
    /// The engine's word for this journal mode.
    pub fn name(&self) -> (word: &'static str)
        ensures
            word@ == wal_mode_name(*self),
    {
        match self {
            WalMode::WAL => "WAL",
            WalMode::WAL2 => "WAL2",
        }
    }
}

} // verus!

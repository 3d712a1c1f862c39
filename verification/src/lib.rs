//! An incremental code index: which files of a workspace are stale, what
//! symbols they hold, and how the stored records stay consistent.

use vstd::prelude::*;

pub mod db;
pub mod method;
pub mod syntax;
pub mod utils;

verus! {

/// Why an operation of this crate failed.
#[derive(Debug, Clone, Copy, PartialEq, Eq, Structural)]
pub enum Error {
    /// Tags were offered for a path that the store holds no file record for.
    UnknownFile,
    /// A cross-reference names a tag that is not part of the offered set.
    DanglingXref,
    /// The store has no tag ids left to assign.
    TagIdsExhausted,
    /// The database refused or failed a statement.
    Storage,
    /// The rows read from the database do not form a consistent index.
    CorruptStore,
    /// The parser gave no syntax tree.
    Parse,
}

/// How the server is started.
#[derive(Debug, Default, Clone)]
pub struct LspConfig {
    /// Talk to the client over standard input and output.
    pub stdio: bool,
    /// Connect to the client on this local port instead.
    pub port: Option<u16>,
    /// The database file to keep the index in; in memory if none.
    pub dbfile: Option<String>,
    /// The directory to write the log to; standard error if none.
    pub logdir: Option<String>,
    /// The least severe level to log.
    pub loglevel: Option<String>,
}

} // verus!

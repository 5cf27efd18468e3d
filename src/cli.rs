//! The command line: its commands and the choices they imply.
use vstd::prelude::*;
use crate::span::opt_view;
use crate::text::owned;

verus! {

/// A parsed command line.
#[derive(Debug, Clone, PartialEq, Eq)]
pub struct Cli {
    pub command: Commands,
}

/// What the program is asked to do.
#[derive(Debug, Clone, PartialEq, Eq)]
pub enum Commands {
    /// Start the collectors and the query API.
    Serve { port: u16, grpc_port: u16, db_path: Option<String> },
    /// List stored traces.
    Traces { slow: bool, db_path: Option<String> },
    /// List stored logs.
    Logs { service: Option<String>, db_path: Option<String> },
    /// Delete the database.
    Clean { db_path: Option<String>, all: bool },
    /// Describe the database.
    Info,
    /// Open the terminal interface.
    Tui,
}

/// The default port of the query API.
pub const DEFAULT_API_PORT: u16 = 7070;

/// The default port of the binary RPC collector.
pub const DEFAULT_GRPC_PORT: u16 = 4317;

/// The default port of the HTTP collector.
pub const DEFAULT_HTTP_PORT: u16 = 4318;

/// A trace is slow when it lasts more than 100 ms.
pub const SLOW_TRACE_NANOS: i128 = 100_000_000;

pub open spec fn opt_ref_view(o: Option<&String>) -> Option<Seq<char>> {
    match o {
        Some(s) => Some(s@),
        None => None,
    }
}

impl Commands {
    /// The database file given on the command line, if any.
    pub fn db_path(&self) -> (r: Option<&String>)
        ensures
            match self {
                Commands::Serve { db_path, .. } => opt_view(*db_path) == opt_ref_view(r),
                Commands::Traces { db_path, .. } => opt_view(*db_path) == opt_ref_view(r),
                Commands::Logs { db_path, .. } => opt_view(*db_path) == opt_ref_view(r),
                Commands::Clean { db_path, .. } => opt_view(*db_path) == opt_ref_view(r),
                _ => r is None,
            },
    {
        match self {
            Commands::Serve { db_path, .. } => match db_path {
                Some(p) => Some(p),
                None => None,
            },
            Commands::Traces { db_path, .. } => match db_path {
                Some(p) => Some(p),
                None => None,
            },
            Commands::Logs { db_path, .. } => match db_path {
                Some(p) => Some(p),
                None => None,
            },
            Commands::Clean { db_path, .. } => match db_path {
                Some(p) => Some(p),
                None => None,
            },
            _ => None,
        }
    }
}

/// The database to open: the one given on the command line takes
/// precedence over the project's own.
pub fn choose_db_path(given: Option<&str>, project_db: &str) -> (r: String)
    ensures
        r@ == match given {
            Some(g) => g@,
            None => project_db@,
        },
{
    match given {
        Some(g) => owned(g),
        None => owned(project_db),
    }
}

/// Whether a trace of this duration is listed: every trace, or only those
/// over 100 ms when slow ones are asked for.
pub fn listed_in_traces(slow: bool, duration_nanos: i128) -> (r: bool)
    ensures
        r == (!slow || duration_nanos > 100_000_000),
{
    !slow || duration_nanos > SLOW_TRACE_NANOS
}

} // verus!

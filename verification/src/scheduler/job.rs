//! What a captured job offers to the processor and to the sinks.

use crate::strmap::StringMap;
use std::time::Instant;
use vstd::prelude::*;

verus! {

/// The moment of a monotonic clock, carried through as an opaque value.
#[verifier::external_type_specification]
#[verifier::external_body]
pub struct ExInstant(std::time::Instant);

/// Environment variables, or other details of a job, by name.
pub type EnvMap = StringMap<String>;

/// How many sleeps a file that every job has is waited for before giving up.
pub const DEFAULT_POLLS: u32 = 100;

/// How many sleeps a file that only some jobs have is waited for.
pub const OPTIONAL_POLLS: u32 = 10;

/// Why a file of a job could not be read.
#[derive(Clone, Copy, Debug, PartialEq, Eq, Structural)]
pub enum ReadError {
    /// The file did not appear within the allowed number of polls.
    Timeout,
    /// The directory that should hold the file is gone.
    ParentGone,
    /// The file was there but reading it failed.
    Io,
}

/// What has to be read next to complete a job's record.
#[derive(Debug, PartialEq, Eq)]
pub enum ReadRequest {
    /// The file `name` in the directory `dir`, waited for through at most
    /// `polls` sleeps.
    File { dir: String, name: String, polls: u32 },
    /// Every file that the glob `pattern` matches, each waited for through
    /// at most `polls` sleeps.
    Matching { pattern: String, polls: u32 },
    /// Nothing: the record is complete.
    Complete,
}

impl ReadRequest {
    /// Whether this asks for the file `name` in `dir`, with at most `polls`
    /// sleeps.
    pub open spec fn asks_file(&self, dir: Seq<char>, name: Seq<char>, polls: u32) -> bool {
        match *self {
            ReadRequest::File { dir: d, name: n, polls: p } => d@ == dir && n@ == name && p
                == polls,
            _ => false,
        }
    }

    /// Whether this asks for the files that `pattern` matches, each with at
    /// most `polls` sleeps.
    pub open spec fn asks_matching(&self, pattern: Seq<char>, polls: u32) -> bool {
        match *self {
            ReadRequest::Matching { pattern: t, polls: p } => t@ == pattern && p == polls,
            _ => false,
        }
    }
}

/// The names and contents of a list of files.
pub open spec fn files_view(files: Seq<(String, Vec<u8>)>) -> Seq<(Seq<char>, Seq<u8>)> {
    Seq::new(files.len(), |i: int| (files[i].0@, files[i].1@))
}

/// A copy of `bytes`.
pub fn copy_bytes(bytes: &Vec<u8>) -> (r: Vec<u8>)
    ensures
        r@ == bytes@,
{
    let r = bytes.clone();
    assert(r@ =~= bytes@);
    r
}

/// The current moment of the monotonic clock.
///
/// Calls `Instant::now`. Nothing is claimed of the result: it depends on when
/// the call is made.
#[verifier::external_body]
pub(crate) fn current_moment() -> Instant {
    Instant::now()
}

/// A captured job.
///
/// The files of a job are read outside the library: `next_read` says what to
/// read, `supply_file` and `supply_matches` take what was found.
pub trait JobInfo {
    /// The scheduler's identifier of the job.
    fn jobid(&self) -> String;

    /// When the job's event was observed.
    fn moment(&self) -> Instant;

    /// The cluster to which the job was submitted.
    fn cluster(&self) -> String;

    /// What has to be read next.
    fn next_read(&self) -> ReadRequest;

    /// Takes the outcome of reading the file that `next_read` asked for.
    fn supply_file(&mut self, outcome: Result<Vec<u8>, ReadError>) -> Result<(), ReadError>;

    /// Takes the files that matched the pattern that `next_read` asked for,
    /// each with its name and contents.
    fn supply_matches(&mut self, found: Vec<(String, Vec<u8>)>);

    /// The files to archive, each with its name and contents.
    fn files(&self) -> Vec<(String, Vec<u8>)>;

    /// The job script as text; empty while no script has been read.
    fn script(&self) -> String;

    /// Further details of the job by name, if there are any.
    fn extra_info(&self) -> Option<EnvMap>;
}

} // verus!

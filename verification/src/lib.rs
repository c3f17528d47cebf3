//! Archiving the job scripts and environments of a batch scheduler.
//!
//! A scheduler keeps the script and the environment of each job in its spool
//! directory, and removes them soon after the job has started. This library
//! holds what it takes to keep a copy: which events in the spool announce a
//! job, which files belong to it and how long to wait for them, how the
//! environment is read, when a job is handed on, and what is written or sent
//! for it. Watching the spool, reading and writing files, and talking to a
//! message bus or a search index are left to the program that uses the
//! library; the library tells it what to do next and takes what it found.
//!
//! * [`scheduler`]: the schedulers and the jobs that are captured from them;
//! * [`monitor`]: what becomes of a raw event of the notifier;
//! * [`utils`]: the wait for a file that is written after its directory;
//! * [`processor`]: the consumer of the work queue, as a state machine;
//! * [`archive`]: the sinks, and what they write or send for a job;
//! * [`path`], [`text`], [`strmap`]: paths, texts and maps keyed by strings.

pub mod archive;
pub mod monitor;
pub mod path;
pub mod processor;
pub mod scheduler;
pub mod strmap;
pub mod text;
pub mod utils;

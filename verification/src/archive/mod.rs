//! The sinks that take the records of the jobs.
//!
//! A sink says what has to be done outside to hand a job over: which files to
//! write, or which text to send where. Whoever has done that tells the sink
//! how it went, and the sink says whether this counts as a failure.

pub mod elastic;
pub mod file;
pub mod kafka;
pub mod message;

use crate::processor::SinkError;
use crate::scheduler::job::JobInfo;
use elastic::{ElasticArchive, ElasticArgs};
use file::{FileArchive, FileArgs};
use kafka::{KafkaArchive, KafkaArgs};
use vstd::prelude::*;

verus! {

/// The sink that the command line asks for, with its options.
pub enum Archiver {
    File(FileArgs),
    Kafka(KafkaArgs),
    Elastic(ElasticArgs),
}

/// What has to be done outside to hand a job over to a sink.
pub enum Submission {
    /// Make the directory `dir` where it is missing, and write each of the
    /// files, which are given by path and contents.
    Files { dir: String, files: Vec<(String, Vec<u8>)> },
    /// Send `payload` to the topic `topic` of the message bus.
    Message { topic: String, payload: String },
    /// Put `payload` as a document into the index `index` of the search
    /// index.
    Document { index: String, payload: String },
}

/// How it went outside.
#[derive(Clone, Copy, Debug, PartialEq, Eq, Structural)]
pub enum Delivery {
    /// Everything was written or sent.
    Done,
    /// Something could not be written or sent.
    Failed,
}

/// The Archive trait should be implemented by every backend.
pub trait Archive {
    /// What has to be done outside to hand `job_entry` over, or `InvalidData`
    /// where the job cannot be put into the form that the sink sends. The
    /// sinks of this library can put every job into their form.
    fn archive<J: JobInfo>(&self, job_entry: &J) -> Result<Submission, SinkError>;

    /// Whether `delivery` counts as a failure of the sink.
    fn settle(&self, delivery: Delivery) -> Result<(), SinkError>;
}

/// The sink that was chosen for this run.
pub enum Sink {
    File(FileArchive),
    Kafka(KafkaArchive),
    Elastic(ElasticArchive),
}

/// What `delivery` counts as for `sink`: what cannot be written to the file
/// system or put into the search index is a failure of the transport; what
/// cannot be sent to the message bus is not a failure at all, since the bus
/// gets its messages in the background.
pub open spec fn settled(sink: &Sink, delivery: Delivery) -> Result<(), SinkError> {
    match (*sink, delivery) {
        (_, Delivery::Done) => Ok(()),
        (Sink::Kafka(_), Delivery::Failed) => Ok(()),
        (_, Delivery::Failed) => Err(SinkError::Transport),
    }
}

impl Sink {
    /// Whether `r` is what archiving `job` comes to for the sink that was
    /// chosen.
    pub open spec fn archives<J: JobInfo>(
        &self,
        job: &J,
        r: Result<Submission, SinkError>,
    ) -> bool {
        match *self {
            Sink::File(a) => a.archives(job, r),
            Sink::Kafka(a) => a.archives(job, r),
            Sink::Elastic(a) => a.archives(job, r),
        }
    }
}

impl Archive for Sink {
    /// What the sink that was chosen asks for: files to write, a message to
    /// send, or a document to put into the index.
    fn archive<J: JobInfo>(&self, job_entry: &J) -> (r: Result<Submission, SinkError>)
        ensures
            r is Ok,
            self.archives(job_entry, r),
    {
        match self {
            Sink::File(a) => a.archive(job_entry),
            Sink::Kafka(a) => a.archive(job_entry),
            Sink::Elastic(a) => a.archive(job_entry),
        }
    }

    fn settle(&self, delivery: Delivery) -> (r: Result<(), SinkError>)
        ensures
            r == settled(self, delivery),
    {
        match self {
            Sink::File(a) => a.settle(delivery),
            Sink::Kafka(a) => a.settle(delivery),
            Sink::Elastic(a) => a.settle(delivery),
        }
    }
}

/// The sink for the options `archiver`.
pub fn archive_builder(archiver: &Archiver) -> (r: Sink)
    ensures
        match *archiver {
            Archiver::File(args) => r matches Sink::File(a) && a.root() == args.archive@
                && a.periods() == args.period,
            Archiver::Kafka(args) => r matches Sink::Kafka(a) && a.topic_name() == args.topic@
                && a.settings() == kafka::args_properties(&args),
            Archiver::Elastic(args) => r matches Sink::Elastic(a) && a.index_name()
                == args.index@ && a.node() == elastic::node_url(args.host@, args.port)
                && a.host_and_port() == elastic::node_authority(args.host@, args.port),
        },
{
    match archiver {
        Archiver::File(args) => Sink::File(FileArchive::build(args)),
        Archiver::Kafka(args) => Sink::Kafka(KafkaArchive::build(args)),
        Archiver::Elastic(args) => Sink::Elastic(ElasticArchive::build(args)),
    }
}

} // verus!

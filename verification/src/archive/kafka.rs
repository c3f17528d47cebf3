//! The sink that sends a message for each job to a topic of the message bus.

use crate::archive::message::{utc_stamped, utc_timestamp, JobMessage};
use crate::archive::{Archive, Delivery, Submission};
use crate::processor::SinkError;
use crate::scheduler::job::JobInfo;
use crate::text::{chars_of, split_either, split_ranges_either, string_of};
use vstd::prelude::*;
use vstd::string::*;

verus! {

/// Command line options for the message bus.
pub struct KafkaArgs {
    /// Comma-separated list of brokers
    pub brokers: String,
    /// Topic under which to send messages
    pub topic: String,
    /// Message timeout in ms
    pub message_timeout: String,
    /// Protocol used to communicate with the brokers
    pub security_protocol: SecurityProtocol,
    /// SSL options for the underlying library, as `key=value,key=value`
    pub ssl: Option<String>,
    /// SASL options for the underlying library, as `key=value,key=value`
    pub sasl: Option<String>,
}

#[allow(non_camel_case_types)]
#[derive(Clone, Copy, Debug, PartialEq, Eq, Structural)]
pub enum SecurityProtocol {
    Plaintext,
    Ssl,
    Sasl_plaintext,
    Sasl_ssl,
}

/// What the producer of the message bus is configured with, and the topic of
/// the messages.
pub struct KafkaArchive {
    properties: Vec<(String, String)>,
    topic: String,
}

/// The keys and values of a list of properties.
pub open spec fn pairs_view(pairs: Seq<(String, String)>) -> Seq<(Seq<char>, Seq<char>)> {
    Seq::new(pairs.len(), |i: int| (pairs[i].0@, pairs[i].1@))
}

/// The name of a protocol as the producer knows it.
pub open spec fn protocol_name(p: SecurityProtocol) -> Seq<char> {
    match p {
        SecurityProtocol::Plaintext => "PLAINTEXT"@,
        SecurityProtocol::Ssl => "SSL"@,
        SecurityProtocol::Sasl_plaintext => "SASL_PLAINTEXT"@,
        SecurityProtocol::Sasl_ssl => "SASL_SSL"@,
    }
}

/// The pieces of an option string: what stands between its `,` and `=`, a
/// `=` separating no otherwise than a `,` does.
pub open spec fn option_pieces(options: Seq<char>) -> Seq<Seq<char>> {
    split_either(options, ',', '=')
}

/// The pieces two by two: the first with the second, the third with the
/// fourth, and so on. A piece that is left over at the end is dropped.
pub open spec fn paired(pieces: Seq<Seq<char>>) -> Seq<(Seq<char>, Seq<char>)> {
    Seq::new((pieces.len() / 2) as nat, |i: int| (pieces[2 * i], pieces[2 * i + 1]))
}

/// The keys and values that an option string of the form
/// `key=value,key=value` holds.
pub open spec fn options_of(options: Seq<char>) -> Seq<(Seq<char>, Seq<char>)> {
    paired(option_pieces(options))
}

/// The keys and values of an optional list of properties.
pub open spec fn optional_pairs(pairs: Option<Vec<(String, String)>>) -> Seq<
    (Seq<char>, Seq<char>),
> {
    match pairs {
        Some(p) => pairs_view(p@),
        None => Seq::empty(),
    }
}

/// The properties of the producer: the brokers, the message timeout and the
/// protocol, then the SSL options, then the SASL options.
pub open spec fn properties(
    brokers: Seq<char>,
    message_timeout: Seq<char>,
    security_protocol: SecurityProtocol,
    ssl: Seq<(Seq<char>, Seq<char>)>,
    sasl: Seq<(Seq<char>, Seq<char>)>,
) -> Seq<(Seq<char>, Seq<char>)> {
    seq![
        ("bootstrap.servers"@, brokers),
        ("message.timeout.ms"@, message_timeout),
        ("security.protocol"@, protocol_name(security_protocol)),
    ] + ssl + sasl
}

/// The keys and values of an optional option string.
pub open spec fn optional_options(options: Option<String>) -> Seq<(Seq<char>, Seq<char>)> {
    match options {
        Some(s) => options_of(s@),
        None => Seq::empty(),
    }
}

/// The properties of the producer that the command line options ask for.
pub open spec fn args_properties(args: &KafkaArgs) -> Seq<(Seq<char>, Seq<char>)> {
    properties(
        args.brokers@,
        args.message_timeout@,
        args.security_protocol,
        optional_options(args.ssl),
        optional_options(args.sasl),
    )
}

/// The name of a protocol as the producer knows it.
pub fn protocol_text(p: &SecurityProtocol) -> (r: String)
    ensures
        r@ == protocol_name(*p),
{
    match p {
        SecurityProtocol::Plaintext => String::from_str("PLAINTEXT"),
        SecurityProtocol::Ssl => String::from_str("SSL"),
        SecurityProtocol::Sasl_plaintext => String::from_str("SASL_PLAINTEXT"),
        SecurityProtocol::Sasl_ssl => String::from_str("SASL_SSL"),
    }
}

/// The keys and values that an option string of the form
/// `key=value,key=value` holds.
pub fn parse_options(options: &str) -> (r: Vec<(String, String)>)
    ensures
        pairs_view(r@) == options_of(options@),
{
    let v = chars_of(options);
    let pieces = split_ranges_either(&v, 0, v.len(), ',', '=');
    assert(v@.subrange(0, v@.len() as int) == v@);
    let mut r: Vec<(String, String)> = Vec::new();
    let n = pieces.len() / 2;
    let mut i: usize = 0;
    while i < n
        invariant
            i <= n == pieces@.len() / 2,
            pieces@.len() <= usize::MAX,
            pieces@.len() == option_pieces(v@).len(),
            forall|k: int|
                0 <= k < pieces@.len() ==> (#[trigger] pieces@[k]).0 <= pieces@[k].1 <= v@.len(),
            forall|k: int|
                0 <= k < pieces@.len() ==> v@.subrange(
                    (#[trigger] pieces@[k]).0 as int,
                    pieces@[k].1 as int,
                ) == option_pieces(v@)[k],
            r@.len() == i,
            forall|k: int|
                0 <= k < i ==> (#[trigger] r@[k]).0@ == option_pieces(v@)[2 * k] && r@[k].1@
                    == option_pieces(v@)[2 * k + 1],
        decreases n - i,
    {
        assert(2 * i + 1 < pieces@.len());
        let (ka, kb) = pieces[2 * i];
        let (va, vb) = pieces[2 * i + 1];
        r.push((string_of(&v, ka, kb), string_of(&v, va, vb)));
        i += 1;
    }
    assert(pairs_view(r@) =~= options_of(options@));
    r
}

/// A copy of a list of properties.
fn copy_pairs(pairs: &Vec<(String, String)>, out: &mut Vec<(String, String)>)
    ensures
        pairs_view(final(out)@) == pairs_view(old(out)@) + pairs_view(pairs@),
{
    let ghost start = out@;
    let mut i: usize = 0;
    while i < pairs.len()
        invariant
            i <= pairs@.len(),
            pairs_view(out@) == pairs_view(start) + pairs_view(pairs@.take(i as int)),
        decreases pairs@.len() - i,
    {
        let ghost so_far = out@;
        out.push((pairs[i].0.clone(), pairs[i].1.clone()));
        proof {
            let item = (pairs@[i as int].0@, pairs@[i as int].1@);
            assert(pairs_view(out@) =~= pairs_view(so_far).push(item));
            assert(pairs_view(pairs@.take(i as int + 1)) =~= pairs_view(
                pairs@.take(i as int),
            ).push(item));
        }
        i += 1;
    }
    proof {
        assert(pairs@.take(pairs@.len() as int) == pairs@);
        assert(pairs_view(start) + pairs_view(pairs@.take(0)) =~= pairs_view(start));
    }
}

impl KafkaArchive {
    /// The topic of the messages.
    pub closed spec fn topic_name(&self) -> Seq<char> {
        self.topic@
    }

    /// The properties of the producer, in the order in which they are set.
    pub closed spec fn settings(&self) -> Seq<(Seq<char>, Seq<char>)> {
        pairs_view(self.properties@)
    }

    /// The sink for the topic `topic` of the brokers `brokers`.
    ///
    /// The producer is to be made with the properties `bootstrap.servers`,
    /// `message.timeout.ms` and `security.protocol`, then with the SSL
    /// options, then with the SASL options.
    pub fn new(
        brokers: &String,
        topic: &String,
        message_timeout: &String,
        security_protocol: &SecurityProtocol,
        ssl: &Option<Vec<(String, String)>>,
        sasl: &Option<Vec<(String, String)>>,
    ) -> (a: Self)
        ensures
            a.topic_name() == topic@,
            a.settings() == properties(
                brokers@,
                message_timeout@,
                *security_protocol,
                optional_pairs(*ssl),
                optional_pairs(*sasl),
            ),
    {
        let mut p: Vec<(String, String)> = Vec::new();
        p.push((String::from_str("bootstrap.servers"), brokers.clone()));
        p.push((String::from_str("message.timeout.ms"), message_timeout.clone()));
        p.push((String::from_str("security.protocol"), protocol_text(security_protocol)));
        let ghost head = pairs_view(p@);
        assert(head =~= seq![
            ("bootstrap.servers"@, brokers@),
            ("message.timeout.ms"@, message_timeout@),
            ("security.protocol"@, protocol_name(*security_protocol)),
        ]);
        match ssl {
            Some(ssl) => {
                copy_pairs(ssl, &mut p);
            },
            None => {
                assert(pairs_view(p@) =~= head + optional_pairs(*ssl));
            },
        }
        let ghost with_ssl = pairs_view(p@);
        match sasl {
            Some(sasl) => {
                copy_pairs(sasl, &mut p);
            },
            None => {
                assert(pairs_view(p@) =~= with_ssl + optional_pairs(*sasl));
            },
        }
        KafkaArchive { properties: p, topic: topic.clone() }
    }

    /// The sink that the command line options ask for.
    pub fn build(args: &KafkaArgs) -> (a: Self)
        ensures
            a.topic_name() == args.topic@,
            a.settings() == args_properties(args),
    {
        let ssl = match &args.ssl {
            Some(s) => Some(parse_options(s.as_str())),
            None => None,
        };
        let sasl = match &args.sasl {
            Some(s) => Some(parse_options(s.as_str())),
            None => None,
        };
        KafkaArchive::new(
            &args.brokers,
            &args.topic,
            &args.message_timeout,
            &args.security_protocol,
            &ssl,
            &sasl,
        )
    }

    /// The topic of the messages.
    pub fn topic(&self) -> (r: &str)
        ensures
            r@ == self.topic_name(),
    {
        self.topic.as_str()
    }

    /// The properties of the producer, in the order in which they are set.
    pub fn properties(&self) -> (r: &Vec<(String, String)>)
        ensures
            pairs_view(r@) == self.settings(),
    {
        &self.properties
    }

    /// Whether `r` is what to send for `message`: its JSON text, to the topic
    /// of this sink.
    pub open spec fn plans(
        &self,
        message: &JobMessage,
        r: Result<Submission, SinkError>,
    ) -> bool {
        r matches Ok(s) && s matches Submission::Message { topic, payload } && topic@
            == self.topic_name() && payload@ == message.json()
    }

    /// Whether `r` is what archiving `job` comes to: what is to be sent for
    /// a message that holds what the job gave and the time that the clock
    /// gave.
    pub open spec fn archives<J: JobInfo>(
        &self,
        job: &J,
        r: Result<Submission, SinkError>,
    ) -> bool {
        exists|message: JobMessage|
            message.made_of(job) && utc_stamped(message.timestamp@) && #[trigger] self.plans(
                &message,
                r,
            )
    }

    /// What to send for `message`: its JSON text, to the topic of this sink.
    pub fn plan(&self, message: &JobMessage) -> (r: Result<Submission, SinkError>)
        ensures
            self.plans(message, r),
    {
        match message.to_json() {
            Ok(payload) => Ok(Submission::Message { topic: self.topic.clone(), payload }),
            Err(e) => Err(e),
        }
    }
}

impl Archive for KafkaArchive {
    /// The message for the job, made now, is to be sent to the topic.
    fn archive<J: JobInfo>(&self, job_entry: &J) -> (r: Result<Submission, SinkError>)
        ensures
            r matches Ok(s) && s is Message,
            self.archives(job_entry, r),
    {
        let doc = JobMessage::of(job_entry, utc_timestamp());
        let r = self.plan(&doc);
        assert(doc.made_of(job_entry) && utc_stamped(doc.timestamp@) && self.plans(&doc, r));
        r
    }

    /// A message that could not be handed to the producer is no failure: the
    /// producer sends in the background in any case.
    fn settle(&self, delivery: Delivery) -> (r: Result<(), SinkError>)
        ensures
            r == Ok::<(), SinkError>(()),
    {
        Ok(())
    }
}

} // verus!

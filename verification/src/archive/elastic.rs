//! The sink that puts a document for each job into an index of the search
//! index.

use crate::archive::message::{utc_stamped, utc_timestamp, JobMessage};
use crate::archive::{Archive, Delivery, Submission};
use crate::processor::SinkError;
use crate::scheduler::job::JobInfo;
use crate::text::{chars_of, decimal, decimal_string, find, find_char};
use vstd::prelude::*;
use vstd::string::*;

verus! {

/// Command line options for the search index.
pub struct ElasticArgs {
    /// Hostname of the server
    pub host: String,
    /// Port on which the server listens
    pub port: u16,
    /// Index to which the documents are written
    pub index: String,
}

/// Where the search index is, and the index that takes the documents.
pub struct ElasticArchive {
    url: String,
    authority: String,
    index: String,
}

/// What to do at startup about the index.
#[derive(Clone, Copy, Debug, PartialEq, Eq, Structural)]
pub enum IndexSetup {
    /// The index is there: nothing to do.
    Ready,
    /// The index is missing: create it with the mapping.
    Create,
    /// It could not be found out whether the index is there: give up.
    Abort,
}

/// The host and the port of the server: `<host>:<port>`.
pub open spec fn node_authority(host: Seq<char>, port: u16) -> Seq<char> {
    host + ":"@ + decimal(port as nat)
}

/// The address of the server: `http://<host>:<port>`.
pub open spec fn node_url(host: Seq<char>, port: u16) -> Seq<char> {
    "http://"@ + node_authority(host, port)
}

/// The path of the index `index` on the server.
pub open spec fn index_path(index: Seq<char>) -> Seq<char> {
    "/"@ + index
}

/// The path to which the documents of the index `index` are posted.
pub open spec fn document_path(index: Seq<char>) -> Seq<char> {
    "/"@ + index + "/_doc"@
}

/// The text of a request with a JSON body of `body_len` bytes, up to the
/// body: the request line, the headers and the empty line after them.
pub open spec fn request_head(
    method: Seq<char>,
    path: Seq<char>,
    authority: Seq<char>,
    body_len: nat,
) -> Seq<char> {
    method + " "@ + path + " HTTP/1.1\r\nHost: "@ + authority
        + "\r\nContent-Type: application/json\r\nContent-Length: "@ + decimal(body_len)
        + "\r\nConnection: close\r\n\r\n"@
}

/// The value of a decimal digit, or nothing for any other character.
pub open spec fn digit_value(c: char) -> Option<int> {
    if 0x30 <= c as u32 <= 0x39 {
        Some(c as u32 - 0x30)
    } else {
        None
    }
}

/// The status of an answer: the three digits that follow the first space of
/// its text, as a number. An answer without three digits there has none.
pub open spec fn status_code(answer: Seq<char>) -> Option<u16> {
    let i = find(answer, ' ');
    if i + 3 < answer.len() {
        match (digit_value(answer[i + 1]), digit_value(answer[i + 2]), digit_value(answer[i + 3])) {
            (Some(a), Some(b), Some(c)) => Some((100 * a + 10 * b + c) as u16),
            (_, _, _) => None,
        }
    } else {
        None
    }
}

/// The value of a decimal digit, or nothing for any other character.
fn digit_of(c: char) -> (r: Option<u16>)
    ensures
        match r {
            Some(d) => digit_value(c) == Some(d as int) && d <= 9,
            None => digit_value(c) is None,
        },
{
    let u: u32 = c as u32;
    if 0x30 <= u && u <= 0x39 {
        Some((u - 0x30) as u16)
    } else {
        None
    }
}

/// The text of a request with the JSON body `body`.
pub fn request_text(method: &str, path: &str, authority: &str, body: &str) -> (r: String)
    ensures
        r@ == request_head(method@, path@, authority@, body.len() as nat) + body@,
{
    let mut r = String::from_str(method);
    r.append(" ");
    r.append(path);
    r.append(" HTTP/1.1\r\nHost: ");
    r.append(authority);
    r.append("\r\nContent-Type: application/json\r\nContent-Length: ");
    let n = decimal_string(body.len() as u64);
    r.append(n.as_str());
    r.append("\r\nConnection: close\r\n\r\n");
    r.append(body);
    assert(r@ =~= request_head(method@, path@, authority@, body.len() as nat) + body@);
    r
}

/// The status of an answer, if it begins with a status line.
pub fn response_status(answer: &str) -> (r: Option<u16>)
    ensures
        r == status_code(answer@),
{
    let v = chars_of(answer);
    let i = find_char(&v, 0, v.len(), ' ');
    proof {
        crate::text::lemma_find_is(v@, ' ', i as int);
    }
    if v.len() - i > 3 {
        match (digit_of(v[i + 1]), digit_of(v[i + 2]), digit_of(v[i + 3])) {
            (Some(a), Some(b), Some(c)) => Some(100 * a + 10 * b + c),
            (_, _, _) => None,
        }
    } else {
        None
    }
}

/// The mapping of the index, for the members of the documents that are put
/// into it: `id`, `cluster` and `script` are text with a keyword beside it,
/// `timestamp` is a date, and `environment` is an object that takes whatever
/// members come.
pub const INDEX_MAPPING: &'static str =
    "{\"mappings\":{\"dynamic\":true,\"properties\":{\"id\":{\"type\":\"text\",\"fields\":{\"keyword\":{\"type\":\"keyword\",\"ignore_above\":256}}},\"timestamp\":{\"type\":\"date\"},\"cluster\":{\"type\":\"text\",\"fields\":{\"keyword\":{\"type\":\"keyword\",\"ignore_above\":256}}},\"script\":{\"type\":\"text\",\"fields\":{\"keyword\":{\"type\":\"keyword\",\"ignore_above\":256}}},\"environment\":{\"type\":\"object\",\"dynamic\":true}}}}";

/// What the answer to the question whether the index is there says: the
/// status 200 that it is, the status 404 that it is not, and anything else
/// nothing.
pub fn index_answer(status: Option<u16>) -> (r: Option<bool>)
    ensures
        r == match status {
            Some(200) => Some(true),
            Some(404) => Some(false),
            _ => None,
        },
{
    match status {
        Some(200) => Some(true),
        Some(404) => Some(false),
        _ => None,
    }
}

/// Whether a document was taken: it was where the answer has a status from
/// 200 to 299.
pub fn delivery_of(status: Option<u16>) -> (d: Delivery)
    ensures
        d == match status {
            Some(s) => if 200 <= s < 300 {
                Delivery::Done
            } else {
                Delivery::Failed
            },
            None => Delivery::Failed,
        },
{
    match status {
        Some(s) => if 200 <= s && s < 300 {
            Delivery::Done
        } else {
            Delivery::Failed
        },
        None => Delivery::Failed,
    }
}

/// What to do at startup, given what the search index answered when it was
/// asked whether the index is there; `None` stands for no answer.
pub fn index_setup(answer: Option<bool>) -> (r: IndexSetup)
    ensures
        r == match answer {
            Some(true) => IndexSetup::Ready,
            Some(false) => IndexSetup::Create,
            None => IndexSetup::Abort,
        },
{
    match answer {
        Some(true) => IndexSetup::Ready,
        Some(false) => IndexSetup::Create,
        None => IndexSetup::Abort,
    }
}

impl ElasticArchive {
    /// The address of the server.
    pub closed spec fn node(&self) -> Seq<char> {
        self.url@
    }

    /// The host and the port of the server.
    pub closed spec fn host_and_port(&self) -> Seq<char> {
        self.authority@
    }

    /// The index that takes the documents.
    pub closed spec fn index_name(&self) -> Seq<char> {
        self.index@
    }

    /// The sink for the index `index` of the server at `host` and `port`.
    pub fn new(host: &str, port: u16, index: &str) -> (a: Self)
        ensures
            a.node() == node_url(host@, port),
            a.host_and_port() == node_authority(host@, port),
            a.index_name() == index@,
    {
        let mut authority = String::from_str(host);
        authority.append(":");
        let p = decimal_string(port as u64);
        authority.append(p.as_str());
        let mut url = String::from_str("http://");
        url.append(authority.as_str());
        ElasticArchive { url, authority, index: String::from_str(index) }
    }

    /// The sink that the command line options ask for.
    pub fn build(args: &ElasticArgs) -> (a: Self)
        ensures
            a.node() == node_url(args.host@, args.port),
            a.host_and_port() == node_authority(args.host@, args.port),
            a.index_name() == args.index@,
    {
        ElasticArchive::new(args.host.as_str(), args.port, args.index.as_str())
    }

    /// The address of the server.
    pub fn url(&self) -> (r: &str)
        ensures
            r@ == self.node(),
    {
        self.url.as_str()
    }

    /// The host and the port of the server.
    pub fn authority(&self) -> (r: &str)
        ensures
            r@ == self.host_and_port(),
    {
        self.authority.as_str()
    }

    /// The index that takes the documents.
    pub fn index(&self) -> (r: &str)
        ensures
            r@ == self.index_name(),
    {
        self.index.as_str()
    }

    /// The request that asks whether the index is there.
    pub fn exists_request(&self) -> (r: String)
        ensures
            r@ == request_head("HEAD"@, index_path(self.index_name()), self.host_and_port(), 0),
    {
        let mut path = String::from_str("/");
        path.append(self.index.as_str());
        proof {
            reveal_strlit("");
            assert(""@ =~= Seq::<char>::empty());
            assert(vstd::utf8::encode_utf8(""@).len() == 0);
        }
        let r = request_text("HEAD", path.as_str(), self.authority.as_str(), "");
        assert(r@ =~= request_head(
            "HEAD"@,
            index_path(self.index_name()),
            self.host_and_port(),
            0,
        ));
        r
    }

    /// The request that creates the index with its mapping.
    pub fn create_request(&self) -> (r: String)
        ensures
            r@ == request_head(
                "PUT"@,
                index_path(self.index_name()),
                self.host_and_port(),
                INDEX_MAPPING.len() as nat,
            ) + INDEX_MAPPING@,
    {
        let mut path = String::from_str("/");
        path.append(self.index.as_str());
        request_text("PUT", path.as_str(), self.authority.as_str(), INDEX_MAPPING)
    }

    /// The request that puts the document `payload` into the index `index`.
    pub fn document_request(&self, index: &str, payload: &str) -> (r: String)
        ensures
            r@ == request_head(
                "POST"@,
                document_path(index@),
                self.host_and_port(),
                payload.len() as nat,
            ) + payload@,
    {
        let mut path = String::from_str("/");
        path.append(index);
        path.append("/_doc");
        request_text("POST", path.as_str(), self.authority.as_str(), payload)
    }

    /// Whether `r` is what to put into the index for `message`: its JSON
    /// text.
    pub open spec fn plans(
        &self,
        message: &JobMessage,
        r: Result<Submission, SinkError>,
    ) -> bool {
        r matches Ok(s) && s matches Submission::Document { index, payload } && index@
            == self.index_name() && payload@ == message.json()
    }

    /// Whether `r` is what archiving `job` comes to: what is to be put into
    /// the index for a message that holds what the job gave and the time that
    /// the clock gave.
    pub open spec fn archives<J: JobInfo>(
        &self,
        job: &J,
        r: Result<Submission, SinkError>,
    ) -> bool {
        exists|message: JobMessage|
            message.made_of(job) && utc_stamped(message.timestamp@) && #[trigger] self.plans(
                &message,
                r,
            )
    }

    /// What to put into the index for `message`: its JSON text.
    pub fn plan(&self, message: &JobMessage) -> (r: Result<Submission, SinkError>)
        ensures
            self.plans(message, r),
    {
        match message.to_json() {
            Ok(payload) => Ok(Submission::Document { index: self.index.clone(), payload }),
            Err(e) => Err(e),
        }
    }
}

impl Archive for ElasticArchive {
    /// The document for the job, made now, is to be put into the index.
    fn archive<J: JobInfo>(&self, job_entry: &J) -> (r: Result<Submission, SinkError>)
        ensures
            r matches Ok(s) && s is Document,
            self.archives(job_entry, r),
    {
        let doc = JobMessage::of(job_entry, utc_timestamp());
        let r = self.plan(&doc);
        assert(doc.made_of(job_entry) && utc_stamped(doc.timestamp@) && self.plans(&doc, r));
        r
    }

    /// A document that could not be put into the index is a failure of the
    /// transport.
    fn settle(&self, delivery: Delivery) -> (r: Result<(), SinkError>)
        ensures
            r == match delivery {
                Delivery::Done => Ok::<(), SinkError>(()),
                Delivery::Failed => Err::<(), SinkError>(SinkError::Transport),
            },
    {
        match delivery {
            Delivery::Done => Ok(()),
            Delivery::Failed => Err(SinkError::Transport),
        }
    }
}

} // verus!

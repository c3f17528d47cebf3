//! The document that the message bus and the search index receive for a job.

use crate::processor::SinkError;
use crate::scheduler::job::{EnvMap, JobInfo};
use vstd::prelude::*;
use vstd::string::*;

verus! {

/// Why a value could not be written as JSON, carried through as an opaque
/// value.
#[verifier::external_type_specification]
#[verifier::external_body]
pub struct ExJsonError(serde_json::Error);

/// The JSON string literal for `text`, with its quotes and escapes.
pub uninterp spec fn json_string(text: Seq<char>) -> Seq<char>;

/// Whether the characters of `text` from `from` up to `to` are decimal
/// digits.
pub open spec fn all_digits(text: Seq<char>, from: int, to: int) -> bool {
    forall|i: int| from <= i < to ==> 0x30 <= #[trigger] text[i] as u32 <= 0x39
}

/// Whether `text` is a date and a time of day in UTC as RFC 3339 writes
/// them, with a year of `y` characters and a fraction of a second of `f`
/// characters, its point counted: the year, `-`, the month, `-`, the day,
/// `T`, the hour, `:`, the minute, `:`, the second, the fraction and `Z`. The
/// year has four digits, or a sign and at least four digits where it lies
/// outside 0 to 9999; the fraction is missing or has three, six or nine
/// digits.
pub open spec fn stamped_with(text: Seq<char>, y: int, f: int) -> bool {
    &&& (y == 4 && all_digits(text, 0, 4)) || (y >= 5 && (text[0] == '+' || text[0] == '-')
        && all_digits(text, 1, y))
    &&& f == 0 || f == 4 || f == 7 || f == 10
    &&& text.len() == y + 16 + f
    &&& text[y] == '-' && all_digits(text, y + 1, y + 3)
    &&& text[y + 3] == '-' && all_digits(text, y + 4, y + 6)
    &&& text[y + 6] == 'T' && all_digits(text, y + 7, y + 9)
    &&& text[y + 9] == ':' && all_digits(text, y + 10, y + 12)
    &&& text[y + 12] == ':' && all_digits(text, y + 13, y + 15)
    &&& f > 0 ==> text[y + 15] == '.' && all_digits(text, y + 16, y + 15 + f)
    &&& text[y + 15 + f] == 'Z'
}

/// Whether `text` can be the time of a message: a date and a time of day in
/// UTC as RFC 3339 writes them.
pub open spec fn utc_stamped(text: Seq<char>) -> bool {
    exists|y: int, f: int| #[trigger] stamped_with(text, y, f)
}

/// Writes `text` as a JSON string literal.
///
/// Calls `serde_json::to_string`. Trusted: a string can always be written,
/// and what is written depends on the text alone.
#[verifier::external_body]
fn quote(text: &str) -> (r: Result<String, serde_json::Error>)
    ensures
        r is Ok,
        match r {
            Ok(q) => q@ == json_string(text@),
            Err(_) => false,
        },
{
    serde_json::to_string(text)
}

/// The current time in UTC as RFC 3339 text, with `Z` for the offset.
///
/// Calls `chrono::Utc::now` and `DateTime::to_rfc3339_opts`. Trusted: the
/// text has the form that RFC 3339 gives a date and a time of day in UTC,
/// with `Z` for the offset. Which time it is depends on when the call is
/// made. The call panics where the system clock stands before 1970.
#[verifier::external_body]
pub(crate) fn utc_timestamp() -> (s: String)
    ensures
        utc_stamped(s@),
{
    chrono::Utc::now().to_rfc3339_opts(chrono::SecondsFormat::AutoSi, true)
}

/// What is sent for a job.
pub struct JobMessage {
    pub id: String,
    /// When the message was made, as RFC 3339 text in UTC.
    pub timestamp: String,
    pub cluster: String,
    /// The job script as text.
    pub script: String,
    /// The further details of the job by name, if there are any.
    pub environment: Option<EnvMap>,
}

/// The members of a JSON object that holds each entry's value as a string
/// under the entry's key, in the order of the entries and without the
/// brackets.
pub open spec fn members_json(entries: Seq<(String, String)>) -> Seq<char>
    decreases entries.len(),
{
    if entries.len() == 0 {
        Seq::empty()
    } else {
        members_json(entries.drop_last()) + (if entries.len() > 1 {
            ","@
        } else {
            ""@
        }) + json_string(entries.last().0@) + ":"@ + json_string(entries.last().1@)
    }
}

/// The JSON text for the details of a job: an object with the entries, or
/// `null` where there are no details.
pub open spec fn environment_json(entries: Option<Seq<(String, String)>>) -> Seq<char> {
    match entries {
        Some(e) => "{"@ + members_json(e) + "}"@,
        None => "null"@,
    }
}

/// The JSON text of a message: an object with the members `id`, `timestamp`,
/// `cluster`, `script` and `environment`, in this order.
pub open spec fn message_json(
    id: Seq<char>,
    timestamp: Seq<char>,
    cluster: Seq<char>,
    script: Seq<char>,
    environment: Option<Seq<(String, String)>>,
) -> Seq<char> {
    "{\"id\":"@ + json_string(id) + ",\"timestamp\":"@ + json_string(timestamp)
        + ",\"cluster\":"@ + json_string(cluster) + ",\"script\":"@ + json_string(script)
        + ",\"environment\":"@ + environment_json(environment) + "}"@
}

impl JobMessage {
    /// The entries of the details, if there are any.
    pub open spec fn entries(&self) -> Option<Seq<(String, String)>> {
        match self.environment {
            Some(m) => Some(m.entries_view()),
            None => None,
        }
    }

    /// The message for a job with the given identity, script and details,
    /// made at the time `timestamp`.
    pub fn new(
        id: String,
        timestamp: String,
        cluster: String,
        script: String,
        environment: Option<EnvMap>,
    ) -> (m: JobMessage)
        ensures
            m.id == id,
            m.timestamp == timestamp,
            m.cluster == cluster,
            m.script == script,
            m.environment == environment,
    {
        JobMessage { id, timestamp, cluster, script, environment }
    }

    /// Whether the message holds what `job` gave: its id, its cluster, its
    /// script as text and its further details.
    pub open spec fn made_of<J: JobInfo>(&self, job: &J) -> bool {
        &&& call_ensures(J::jobid, (job,), self.id)
        &&& call_ensures(J::cluster, (job,), self.cluster)
        &&& call_ensures(J::script, (job,), self.script)
        &&& call_ensures(J::extra_info, (job,), self.environment)
    }

    /// The JSON text of the message.
    pub open spec fn json(&self) -> Seq<char> {
        message_json(self.id@, self.timestamp@, self.cluster@, self.script@, self.entries())
    }

    /// The message for `job`, made at the time `timestamp`.
    pub fn of<J: JobInfo>(job: &J, timestamp: String) -> (m: JobMessage)
        ensures
            m.timestamp == timestamp,
            m.made_of(job),
    {
        JobMessage {
            id: job.jobid(),
            timestamp,
            cluster: job.cluster(),
            script: job.script(),
            environment: job.extra_info(),
        }
    }

    /// The JSON text of the message. Every message has one: `InvalidData`
    /// is for a part that cannot be written, and a string always can.
    pub fn to_json(&self) -> (r: Result<String, SinkError>)
        ensures
            r matches Ok(text) && text@ == self.json(),
    {
        let id = match quote(self.id.as_str()) {
            Ok(q) => q,
            Err(_) => {
                return Err(SinkError::InvalidData);
            },
        };
        let timestamp = match quote(self.timestamp.as_str()) {
            Ok(q) => q,
            Err(_) => {
                return Err(SinkError::InvalidData);
            },
        };
        let cluster = match quote(self.cluster.as_str()) {
            Ok(q) => q,
            Err(_) => {
                return Err(SinkError::InvalidData);
            },
        };
        let script = match quote(self.script.as_str()) {
            Ok(q) => q,
            Err(_) => {
                return Err(SinkError::InvalidData);
            },
        };
        let environment = match &self.environment {
            Some(m) => match object_json(m) {
                Some(e) => e,
                None => {
                    return Err(SinkError::InvalidData);
                },
            },
            None => String::from_str("null"),
        };
        let mut text = String::from_str("{\"id\":");
        text.append(id.as_str());
        text.append(",\"timestamp\":");
        text.append(timestamp.as_str());
        text.append(",\"cluster\":");
        text.append(cluster.as_str());
        text.append(",\"script\":");
        text.append(script.as_str());
        text.append(",\"environment\":");
        text.append(environment.as_str());
        text.append("}");
        Ok(text)
    }
}

/// The JSON object that holds each value of `m` as a string under its key.
/// Every map has one: a string can always be written.
pub fn object_json(m: &EnvMap) -> (r: Option<String>)
    ensures
        r matches Some(text) && text@ == environment_json(Some(m.entries_view())),
{
    let n = m.len();
    let mut text = String::from_str("{");
    let ghost open = text@;
    let mut i: usize = 0;
    proof {
        assert(m.entries_view().take(0) == Seq::<(String, String)>::empty());
        assert(open + Seq::<char>::empty() == open);
    }
    while i < n
        invariant
            i <= n == m.entries_view().len(),
            open == "{"@,
            text@ == open + members_json(m.entries_view().take(i as int)),
        decreases n - i,
    {
        let ghost entries = m.entries_view();
        proof {
            assert(entries.take(i as int + 1).drop_last() == entries.take(i as int));
            assert(entries.take(i as int + 1).last() == entries[i as int]);
        }
        let (key, value) = m.entry(i);
        let k = match quote(key.as_str()) {
            Ok(q) => q,
            Err(_) => {
                return None;
            },
        };
        let v = match quote(value.as_str()) {
            Ok(q) => q,
            Err(_) => {
                return None;
            },
        };
        if i > 0 {
            text.append(",");
        } else {
            proof {
                reveal_strlit("");
                assert(text@ + ""@ =~= text@);
            }
        }
        text.append(k.as_str());
        text.append(":");
        text.append(v.as_str());
        proof {
            let head = members_json(entries.take(i as int));
            let sep = if i > 0 {
                ","@
            } else {
                ""@
            };
            assert(text@ =~= open + (head + sep + k@ + ":"@ + v@));
        }
        i += 1;
    }
    proof {
        assert(m.entries_view().take(n as int) == m.entries_view());
    }
    text.append("}");
    Some(text)
}

} // verus!

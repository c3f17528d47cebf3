//! The hash-spooled scheduler: every job has a directory `job.<id>` under one
//! of ten hash directories, with the files `script` and `environment` in it.

use crate::path::{
    extension, extension_dot, file_name, is_file_name_range, join, join_paths, last_component,
    last_component_range,
};
use crate::scheduler::environment::{clone_filter, parse_bytes, parse_stored};
use crate::scheduler::job::{
    copy_bytes, current_moment, files_view, EnvMap, JobInfo, ReadError, ReadRequest,
    DEFAULT_POLLS,
};
use crate::scheduler::{texts_of, CreateKind, Event, EventKind, PathKind, Scheduler};
use crate::strmap::texts;
use crate::text::{chars_of, decode_lossy, decoded, digit, digit_char, starts_with, string_of};
use regex::Regex;
use std::time::Instant;
use vstd::prelude::*;
use vstd::string::*;

verus! {

/// Representation of an entry in the job spool hash directories.
pub struct SlurmJobEntry {
    /// The full path to the job information directory
    pub path_: String,
    /// The job ID
    jobid_: String,
    /// The name of the cluster
    cluster_: String,
    /// Time of event notification and instance creation
    moment_: Instant,
    /// The actual job script
    script_: Option<Vec<u8>>,
    /// The job's environment as the scheduler stored it
    env_: Option<Vec<u8>>,
    /// Filter for the environment
    filter_regex: Option<Regex>,
}

/// The bytes of a file without the NUL byte at their end, if there is one.
pub open spec fn without_final_nul(bytes: Seq<u8>) -> Seq<u8> {
    if bytes.len() > 0 && bytes.last() == 0 {
        bytes.drop_last()
    } else {
        bytes
    }
}

/// The name under which a file of a job goes to the archive:
/// `job.<id>_<file>`.
pub open spec fn archive_name(id: Seq<char>, file: Seq<char>) -> Seq<char> {
    "job."@ + id + "_"@ + file
}

/// The job id and the directory name of a job directory's path: the path ends
/// in a file name that begins with `job.`, and the id is what follows the last
/// `.` of that name, if anything does.
pub open spec fn job_dir_parts(path: Seq<char>) -> Option<(Seq<char>, Seq<char>)> {
    match file_name(path) {
        Some(name) => if starts_with(name, "job."@) {
            match extension(name) {
                Some(id) => if id.len() > 0 {
                    Some((id, name))
                } else {
                    None
                },
                None => None,
            }
        } else {
            None
        },
        None => None,
    }
}

/// The job id that the name of a job directory holds: what follows its last
/// `.`.
pub open spec fn job_dir_id(path: Seq<char>) -> Seq<char> {
    last_component(path).skip(crate::path::rfind(last_component(path), '.') + 1)
}

/// Whether the path of an event has the name of a job directory.
pub open spec fn names_job_dir(path: Seq<char>) -> bool {
    match file_name(path) {
        Some(name) => starts_with(name, "job."@),
        None => false,
    }
}

/// The name of the hash directory number `i`.
pub open spec fn hash_dir_name(i: int) -> Seq<char> {
    "hash."@.push(digit(i))
}

impl SlurmJobEntry {
    /// The path to the job directory.
    pub closed spec fn dir(&self) -> Seq<char> {
        self.path_@
    }

    /// The job ID.
    pub closed spec fn id(&self) -> Seq<char> {
        self.jobid_@
    }

    /// The name of the cluster.
    pub closed spec fn cluster_name(&self) -> Seq<char> {
        self.cluster_@
    }

    /// When the entry was made.
    pub closed spec fn made_at(&self) -> Instant {
        self.moment_
    }

    /// The job script, once it has been read.
    pub closed spec fn script_bytes(&self) -> Option<Seq<u8>> {
        match self.script_ {
            Some(s) => Some(s@),
            None => None,
        }
    }

    /// The stored environment, once it has been read.
    pub closed spec fn environment_bytes(&self) -> Option<Seq<u8>> {
        match self.env_ {
            Some(e) => Some(e@),
            None => None,
        }
    }

    /// The filter for the keys of the environment.
    pub closed spec fn filter(&self) -> Option<Regex> {
        self.filter_regex
    }

    /// Whether both files of the job have been read.
    pub open spec fn complete(&self) -> bool {
        self.script_bytes() is Some && self.environment_bytes() is Some
    }

    /// The files that go to the archive: the script and the environment, as
    /// far as they have been read.
    pub open spec fn archive_files(&self) -> Seq<(Seq<char>, Seq<u8>)> {
        let script = match self.script_bytes() {
            Some(s) => seq![(archive_name(self.id(), "script"@), s)],
            None => Seq::empty(),
        };
        let environment = match self.environment_bytes() {
            Some(e) => seq![(archive_name(self.id(), "environment"@), e)],
            None => Seq::empty(),
        };
        script + environment
    }

    /// The job script as text; empty while no script has been read.
    pub open spec fn script_text(&self) -> Seq<char> {
        match self.script_bytes() {
            Some(s) => decoded(s),
            None => Seq::empty(),
        }
    }

    /// Whether `r` asks for what this entry lacks: first the file `script` of
    /// the job directory, then the file `environment`; after both, nothing.
    pub open spec fn requests(&self, r: ReadRequest) -> bool {
        if self.script_bytes() is None {
            r.asks_file(self.dir(), "script"@, DEFAULT_POLLS)
        } else if self.environment_bytes() is None {
            r.asks_file(self.dir(), "environment"@, DEFAULT_POLLS)
        } else {
            r is Complete
        }
    }

    /// Whether `after` is this entry once it has taken `outcome`, with `r` as
    /// the answer: a file that was read becomes the script, or after the
    /// script the environment, without a NUL byte at its end; a failure is
    /// handed back and changes nothing.
    pub open spec fn takes_file(
        &self,
        outcome: Result<Vec<u8>, ReadError>,
        after: &SlurmJobEntry,
        r: Result<(), ReadError>,
    ) -> bool {
        &&& after.same_job(self)
        &&& match outcome {
            Ok(bytes) => {
                &&& r is Ok
                &&& if self.script_bytes() is None {
                    &&& after.script_bytes() == Some(bytes@)
                    &&& after.environment_bytes() == self.environment_bytes()
                } else if self.environment_bytes() is None {
                    &&& after.script_bytes() == self.script_bytes()
                    &&& after.environment_bytes() == Some(without_final_nul(bytes@))
                } else {
                    *after == *self
                }
            },
            Err(e) => r == Err::<(), ReadError>(e) && *after == *self,
        }
    }

    /// Whether `r` holds the variables of the environment: none before the
    /// environment has been read, then those that the stored form holds and
    /// the filter lets through.
    pub open spec fn gives_extra_info(&self, r: Option<EnvMap>) -> bool {
        match r {
            Some(m) => m.wf() && self.environment_bytes() is Some && texts(m@) == parse_bytes(
                self.environment_bytes()->0,
                self.filter(),
            ),
            None => self.environment_bytes() is None,
        }
    }

    /// Whether `other` is the same job with possibly other files.
    pub open spec fn same_job(&self, other: &SlurmJobEntry) -> bool {
        &&& self.dir() == other.dir()
        &&& self.id() == other.id()
        &&& self.cluster_name() == other.cluster_name()
        &&& self.made_at() == other.made_at()
        &&& self.filter() == other.filter()
    }

    /// Returns a new entry with the given path to the job directory and the
    /// given job ID; none of its files has been read.
    pub fn new(path: &str, id: &str, cluster: &str, filter_regex: &Option<Regex>) -> (e:
        SlurmJobEntry)
        requires
            id@.len() > 0,
        ensures
            e.dir() == path@,
            e.id() == id@,
            e.cluster_name() == cluster@,
            e.filter() == *filter_regex,
            e.script_bytes() is None,
            e.environment_bytes() is None,
    {
        SlurmJobEntry {
            path_: String::from_str(path),
            jobid_: String::from_str(id),
            cluster_: String::from_str(cluster),
            moment_: current_moment(),
            script_: None,
            env_: None,
            filter_regex: clone_filter(filter_regex),
        }
    }

    /// Takes the bytes of the job script as they were read.
    pub fn set_script(&mut self, script: Vec<u8>)
        ensures
            final(self).same_job(old(self)),
            final(self).script_bytes() == Some(script@),
            final(self).environment_bytes() == old(self).environment_bytes(),
    {
        self.script_ = Some(script);
    }

    /// Takes the bytes of the stored environment; a NUL byte at their end is
    /// dropped.
    pub fn set_environment(&mut self, environment: Vec<u8>)
        ensures
            final(self).same_job(old(self)),
            final(self).script_bytes() == old(self).script_bytes(),
            final(self).environment_bytes() == Some(without_final_nul(environment@)),
    {
        let mut environment = environment;
        let n = environment.len();
        if n > 0 && environment[n - 1] == 0 {
            environment.pop();
        }
        self.env_ = Some(environment);
    }

    /// The name `job.<id>_<file>`.
    fn archive_name_of(&self, file: &str) -> (r: String)
        ensures
            r@ == archive_name(self.id(), file@),
    {
        let mut r = String::from_str("job.");
        r.append(self.jobid_.as_str());
        r.append("_");
        r.append(file);
        r
    }
}

impl JobInfo for SlurmJobEntry {
    /// Returns the job ID.
    fn jobid(&self) -> (r: String)
        ensures
            r@ == self.id(),
    {
        self.jobid_.clone()
    }

    /// Returns the time the entry was made.
    fn moment(&self) -> (r: Instant)
        ensures
            r == self.made_at(),
    {
        self.moment_
    }

    /// Returns the cluster to which the job was submitted.
    fn cluster(&self) -> (r: String)
        ensures
            r@ == self.cluster_name(),
    {
        self.cluster_.clone()
    }

    /// First the file `script` of the job directory, then the file
    /// `environment`; after both, nothing.
    fn next_read(&self) -> (r: ReadRequest)
        ensures
            self.requests(r),
            r is Complete <==> self.complete(),
    {
        if self.script_.is_none() {
            ReadRequest::File {
                dir: self.path_.clone(),
                name: String::from_str("script"),
                polls: DEFAULT_POLLS,
            }
        } else if self.env_.is_none() {
            ReadRequest::File {
                dir: self.path_.clone(),
                name: String::from_str("environment"),
                polls: DEFAULT_POLLS,
            }
        } else {
            ReadRequest::Complete
        }
    }

    /// A file that was read becomes the script, or after the script the
    /// environment; a failure is handed back and changes nothing.
    fn supply_file(&mut self, outcome: Result<Vec<u8>, ReadError>) -> (r: Result<(), ReadError>)
        ensures
            old(self).takes_file(outcome, final(self), r),
    {
        match outcome {
            Ok(bytes) => {
                if self.script_.is_none() {
                    self.set_script(bytes);
                } else if self.env_.is_none() {
                    self.set_environment(bytes);
                }
                Ok(())
            },
            Err(e) => Err(e),
        }
    }

    /// The scheduler never asks for files by pattern: nothing changes.
    fn supply_matches(&mut self, found: Vec<(String, Vec<u8>)>)
        ensures
            *final(self) == *old(self),
    {
    }

    /// Returns the names and contents of the script and environment files, as
    /// far as they have been read.
    fn files(&self) -> (r: Vec<(String, Vec<u8>)>)
        ensures
            files_view(r@) == self.archive_files(),
    {
        let mut r: Vec<(String, Vec<u8>)> = Vec::new();
        match &self.script_ {
            Some(s) => {
                r.push((self.archive_name_of("script"), copy_bytes(s)));
            },
            None => {},
        }
        match &self.env_ {
            Some(e) => {
                r.push((self.archive_name_of("environment"), copy_bytes(e)));
            },
            None => {},
        }
        assert(files_view(r@) =~= self.archive_files());
        r
    }

    /// Returns the job script as text; empty while no script has been read.
    fn script(&self) -> (r: String)
        ensures
            r@ == self.script_text(),
    {
        match &self.script_ {
            Some(s) => decode_lossy(s.as_slice()),
            None => String::new(),
        }
    }

    /// Returns the variables of the environment, once it has been read.
    fn extra_info(&self) -> (r: Option<EnvMap>)
        ensures
            self.gives_extra_info(r),
    {
        match &self.env_ {
            Some(e) => Some(parse_stored(e, &self.filter_regex)),
            None => None,
        }
    }
}

/// Representation of the hash-spooled scheduler.
pub struct Slurm {
    /// The absolute path to the spool directory
    pub base: String,
    pub cluster: String,
    pub filter_regex: Option<Regex>,
}

impl Slurm {
    /// The directories to watch: the ten hash directories `hash.0` to
    /// `hash.9` under the base path.
    pub open spec fn locations(&self) -> Seq<Seq<char>> {
        Seq::new(10, |i: int| join(self.base@, hash_dir_name(i)))
    }

    /// Whether `event` announces a new job: it is the creation of a directory
    /// whose name, in the first path, begins with `job.`.
    pub open spec fn qualifies(&self, event: &Event) -> bool {
        &&& event.kind == EventKind::Create(CreateKind::Folder)
        &&& event.paths@.len() > 0
        &&& names_job_dir(event.paths@[0]@)
    }

    /// Whether `r` is the job that `event_path` stands for: none unless the
    /// path led to a directory and names a job directory with an id, else an
    /// entry for that directory of which nothing has been read.
    pub open spec fn captures(
        &self,
        event_path: Seq<char>,
        found: PathKind,
        r: Option<SlurmJobEntry>,
    ) -> bool {
        match r {
            Some(e) => {
                &&& found is Directory
                &&& job_dir_parts(event_path) is Some
                &&& e.id() == job_dir_id(event_path)
                &&& e.dir() == event_path
                &&& e.cluster_name() == self.cluster@
                &&& e.filter() == self.filter_regex
                &&& e.script_bytes() is None
                &&& e.environment_bytes() is None
            },
            None => !(found is Directory) || job_dir_parts(event_path) is None,
        }
    }

    /// Returns a new `Slurm` with the specified base path, cluster and filter.
    pub fn new(base: &str, cluster: &str, filter_regex: &Option<Regex>) -> (s: Slurm)
        ensures
            s.base@ == base@,
            s.cluster@ == cluster@,
            s.filter_regex == *filter_regex,
    {
        Slurm {
            base: String::from_str(base),
            cluster: String::from_str(cluster),
            filter_regex: clone_filter(filter_regex),
        }
    }
}

impl Scheduler for Slurm {
    type Job = SlurmJobEntry;

    /// The ten hash directories `hash.0` to `hash.9` under the base path.
    fn watch_locations(&self) -> (r: Vec<String>)
        ensures
            texts_of(r@) == self.locations(),
    {
        let mut r: Vec<String> = Vec::new();
        let mut i: u8 = 0;
        while i < 10
            invariant
                i <= 10,
                r@.len() == i,
                forall|k: int|
                    0 <= k < i ==> (#[trigger] r@[k])@ == join(self.base@, hash_dir_name(k)),
            decreases 10 - i,
        {
            let mut name = String::from_str("hash.");
            let d = vec![digit_char(i)];
            let ds = string_of(&d, 0, 1);
            assert(ds@ =~= seq![digit(i as int)]);
            name.append(ds.as_str());
            assert(name@ =~= hash_dir_name(i as int));
            r.push(join_paths(self.base.as_str(), name.as_str()));
            i += 1;
        }
        assert(texts_of(r@) =~= self.locations());
        r
    }

    /// A job entry for the directory `event_path`, if it still is a directory
    /// and has the name of a job directory with an id.
    fn create_job_info(&self, event_path: &str, found: PathKind) -> (r: Option<SlurmJobEntry>)
        ensures
            self.captures(event_path@, found, r),
    {
        match is_job_path(event_path, found) {
            Some((jobid, _dirname)) => Some(
                SlurmJobEntry::new(
                    event_path,
                    jobid.as_str(),
                    self.cluster.as_str(),
                    &self.filter_regex,
                ),
            ),
            None => None,
        }
    }

    /// The paths of the event, if it is the creation of a directory whose
    /// name, in the first path, begins with `job.`.
    fn verify_event_kind(&self, event: &Event) -> (r: Option<Vec<String>>)
        ensures
            crate::scheduler::passes(self.qualifies(event), event, r),
    {
        match event.kind {
            EventKind::Create(CreateKind::Folder) => {
                if event.paths.len() > 0 && has_job_dir_name(event.paths[0].as_str()) {
                    Some(crate::scheduler::copy_paths(&event.paths))
                } else {
                    None
                }
            },
            _ => None,
        }
    }
}

/// Whether the last component of `path` begins with `job.`.
pub fn has_job_dir_name(path: &str) -> (b: bool)
    ensures
        b == names_job_dir(path@),
{
    let v = chars_of(path);
    let (a, b) = last_component_range(&v);
    is_file_name_range(&v, a, b) && begins_with_job(&v, a, b)
}

/// Whether `v[from..to]` begins with `job.`.
fn begins_with_job(v: &Vec<char>, from: usize, to: usize) -> (b: bool)
    requires
        from <= to <= v@.len(),
    ensures
        b == starts_with(v@.subrange(from as int, to as int), "job."@),
{
    proof {
        reveal_strlit("job.");
    }
    let ghost name = v@.subrange(from as int, to as int);
    if to - from >= 4 && v[from] == 'j' && v[from + 1] == 'o' && v[from + 2] == 'b' && v[from + 3]
        == '.' {
        assert(name.take(4) =~= "job."@);
        true
    } else {
        proof {
            if starts_with(name, "job."@) {
                let t = name.take(4);
                assert(t[0] == name[0] && t[1] == name[1] && t[2] == name[2] && t[3] == name[3]);
            }
        }
        false
    }
}

/// Verifies that `path` is that of a job directory that needs archival.
///
/// The path prefix is ignored. `found` is what the path led to when it was
/// looked up; it must be a directory, and the last component of the path must
/// begin with `job.` and hold an id after its last `.`.
///
/// Returns the job ID and the name of the directory.
pub fn is_job_path(path: &str, found: PathKind) -> (r: Option<(String, String)>)
    ensures
        match r {
            Some((id, name)) => found is Directory && job_dir_parts(path@) == Some((id@, name@)),
            None => !(found is Directory) || job_dir_parts(path@) is None,
        },
{
    match found {
        PathKind::Directory => {
            let v = chars_of(path);
            let (a, b) = last_component_range(&v);
            if is_file_name_range(&v, a, b) && begins_with_job(&v, a, b) {
                let d = extension_dot(&v, a, b);
                if d < b && d + 1 < b {
                    Some((string_of(&v, d + 1, b), string_of(&v, a, b)))
                } else {
                    None
                }
            } else {
                None
            }
        },
        _ => None,
    }
}

} // verus!

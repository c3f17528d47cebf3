//! The scheduler that keeps one script file `<name>.SC` per job, with the
//! job's details beside it: `<name>.JB` for a single job, or `<name>.TA` and
//! one `<first>-<n>.<rest>.JB` per element for an array job.

use crate::path::{
    extension, extension_dot, file_name, file_stem, first_part, first_part_of,
    is_file_name_range, join, join_paths, last_component, last_component_range, parent,
    parent_of,
};
use crate::scheduler::job::{
    copy_bytes, current_moment, files_view, EnvMap, JobInfo, ReadError, ReadRequest,
    DEFAULT_POLLS, OPTIONAL_POLLS,
};
use crate::scheduler::{texts_of, CreateKind, Event, EventKind, PathKind, Scheduler};
use crate::strmap::{keys_distinct, lemma_texts_insert, map_of, texts, StringMap};
use crate::text::{chars_of, decode_lossy, decoded, digit, digit_char, string_of};
use std::time::Instant;
use vstd::prelude::*;
use vstd::string::*;

verus! {

/// Command line options of this scheduler.
pub struct TorqueArgs {
    /// Whether the spool directory has the subdirectories `0` to `9`.
    pub subdirs: bool,
}

/// How far the files of a job have been read.
#[derive(Clone, Copy, Debug, PartialEq, Eq, Structural)]
pub enum ReadStage {
    /// Nothing has been read; the script comes first.
    Script,
    /// The script has been read; next comes the array index, which only an
    /// array job has.
    ArrayIndex,
    /// The job is an array job; next come the details of its elements.
    ArrayBlobs,
    /// The job is a single job; next come its details.
    JobBlob,
    /// Every file has been read.
    Complete,
}

pub struct TorqueJobEntry {
    /// The full path to the file that needs to be archived
    /// This should be the `.SC` (script) file
    path_: String,
    /// The filename of the job script
    jobname_: Option<String>,
    /// The job ID
    jobid_: String,
    /// The name of the cluster
    cluster_: String,
    /// Time of event notification and instance creation
    moment_: Instant,
    /// The actual job script
    script_: Option<Vec<u8>>,
    /// Additional info for the job
    env_: StringMap<Vec<u8>>,
    /// What has been read so far
    stage_: ReadStage,
}

/// The name of the file with the array index of the job whose script is at
/// `path`.
pub open spec fn array_index_name(path: Seq<char>) -> Seq<char> {
    file_stem(last_component(path)) + ".TA"@
}

/// The name of the file with the details of the single job whose script is at
/// `path`.
pub open spec fn job_blob_name(path: Seq<char>) -> Seq<char> {
    file_stem(last_component(path)) + ".JB"@
}

/// The glob pattern for the files with the details of the elements of the
/// array job whose script is at `path`: in the directory of the script, the
/// names that begin with the first part of the script's name and a `-` and
/// end in `.JB`.
pub open spec fn array_blob_pattern(path: Seq<char>) -> Seq<char> {
    join(parent(path), first_part(last_component(path)) + "-*.JB"@)
}

/// The job id and the path of a script file: the path ends in a file name
/// with the extension `SC`, and the id is that name without the extension.
pub open spec fn script_parts(path: Seq<char>) -> Option<(Seq<char>, Seq<char>)> {
    match file_name(path) {
        Some(name) => if extension(name) == Some("SC"@) {
            Some((file_stem(name), path))
        } else {
            None
        },
        None => None,
    }
}

/// The job id of the script file at `path`: its name without the extension.
pub open spec fn script_job_id(path: Seq<char>) -> Seq<char> {
    file_stem(last_component(path))
}

/// Whether the path of an event has the name of a script file.
pub open spec fn names_script(path: Seq<char>) -> bool {
    match file_name(path) {
        Some(name) => extension(name) == Some("SC"@),
        None => false,
    }
}

/// The map with `found` added, a later file replacing an earlier one with
/// the same name.
pub open spec fn with_files(m: Map<Seq<char>, Vec<u8>>, found: Seq<(String, Vec<u8>)>) -> Map<
    Seq<char>,
    Vec<u8>,
>
    decreases found.len(),
{
    if found.len() == 0 {
        m
    } else {
        with_files(m, found.drop_last()).insert(found.last().0@, found.last().1)
    }
}

/// The map with each value as the text that its bytes hold.
pub open spec fn decoded_values(m: Map<Seq<char>, Vec<u8>>) -> Map<Seq<char>, Seq<char>> {
    Map::new(|k: Seq<char>| m.contains_key(k), |k: Seq<char>| decoded(m[k]@))
}

proof fn lemma_decoded_values_insert(m: Map<Seq<char>, Vec<u8>>, key: Seq<char>, value: Vec<u8>)
    ensures
        decoded_values(m.insert(key, value)) == decoded_values(m).insert(key, decoded(value@)),
{
    assert(decoded_values(m.insert(key, value)) =~= decoded_values(m).insert(
        key,
        decoded(value@),
    ));
}

impl TorqueJobEntry {
    /// The path to the script file.
    pub closed spec fn path(&self) -> Seq<char> {
        self.path_@
    }

    /// The job ID.
    pub closed spec fn id(&self) -> Seq<char> {
        self.jobid_@
    }

    /// The name of the cluster.
    pub closed spec fn cluster_name(&self) -> Seq<char> {
        self.cluster_@
    }

    /// When the entry was made.
    pub closed spec fn made_at(&self) -> Instant {
        self.moment_
    }

    /// How far the files have been read.
    pub closed spec fn stage(&self) -> ReadStage {
        self.stage_
    }

    /// The name of the script file, once the script has been read.
    pub closed spec fn script_name(&self) -> Option<Seq<char>> {
        match self.jobname_ {
            Some(n) => Some(n@),
            None => None,
        }
    }

    /// The job script, once it has been read.
    pub closed spec fn script_bytes(&self) -> Option<Seq<u8>> {
        match self.script_ {
            Some(s) => Some(s@),
            None => None,
        }
    }

    /// The files with the job's details that have been read, by name.
    pub closed spec fn details(&self) -> Map<Seq<char>, Vec<u8>> {
        self.env_@
    }

    /// The files with the job's details in the order in which their names
    /// first came.
    pub closed spec fn detail_entries(&self) -> Seq<(String, Vec<u8>)> {
        self.env_.entries_view()
    }

    /// The job script as text; empty while no script has been read.
    pub open spec fn script_text(&self) -> Seq<char> {
        match self.script_bytes() {
            Some(s) => decoded(s),
            None => Seq::empty(),
        }
    }

    /// Whether every file of the job has been read.
    pub open spec fn complete(&self) -> bool {
        self.stage() == ReadStage::Complete
    }

    /// Whether `r` asks for what comes next: the script; then the array
    /// index, looked for only briefly; then the details of the array's
    /// elements, or of the single job; then nothing.
    pub open spec fn requests(&self, r: ReadRequest) -> bool {
        match self.stage() {
            ReadStage::Script => r.asks_file(
                parent(self.path()),
                last_component(self.path()),
                DEFAULT_POLLS,
            ),
            ReadStage::ArrayIndex => r.asks_file(
                parent(self.path()),
                array_index_name(self.path()),
                OPTIONAL_POLLS,
            ),
            ReadStage::ArrayBlobs => r.asks_matching(
                array_blob_pattern(self.path()),
                OPTIONAL_POLLS,
            ),
            ReadStage::JobBlob => r.asks_file(
                parent(self.path()),
                job_blob_name(self.path()),
                DEFAULT_POLLS,
            ),
            ReadStage::Complete => r is Complete,
        }
    }

    /// Whether `after` is this entry once it has taken `outcome`, with `r` as
    /// the answer. The script, the array index and the details of a single
    /// job are kept when they were asked for. A missing array index is
    /// normal: the job is then a single one. Any other failure is handed back
    /// and changes nothing, and so does a file that was not asked for.
    pub open spec fn takes_file(
        &self,
        outcome: Result<Vec<u8>, ReadError>,
        after: &TorqueJobEntry,
        r: Result<(), ReadError>,
    ) -> bool {
        &&& after.same_job(self)
        &&& self.wf() ==> after.wf()
        &&& match (self.stage(), outcome) {
            (ReadStage::Script, Ok(bytes)) => {
                &&& r is Ok
                &&& after.stage() == ReadStage::ArrayIndex
                &&& after.script_name() == Some(last_component(self.path()))
                &&& after.script_bytes() == Some(bytes@)
                &&& after.details() == self.details()
                &&& after.detail_entries() == self.detail_entries()
            },
            (ReadStage::ArrayIndex, Ok(bytes)) => {
                &&& r is Ok
                &&& after.stage() == ReadStage::ArrayBlobs
                &&& after.script_name() == self.script_name()
                &&& after.script_bytes() == self.script_bytes()
                &&& after.details() == self.details().insert(
                    array_index_name(self.path()),
                    bytes,
                )
            },
            (ReadStage::ArrayIndex, Err(_)) => {
                &&& r is Ok
                &&& after.stage() == ReadStage::JobBlob
                &&& after.script_name() == self.script_name()
                &&& after.script_bytes() == self.script_bytes()
                &&& after.details() == self.details()
                &&& after.detail_entries() == self.detail_entries()
            },
            (ReadStage::JobBlob, Ok(bytes)) => {
                &&& r is Ok
                &&& after.stage() == ReadStage::Complete
                &&& after.script_name() == self.script_name()
                &&& after.script_bytes() == self.script_bytes()
                &&& after.details() == self.details().insert(job_blob_name(self.path()), bytes)
            },
            (ReadStage::Script, Err(e)) | (ReadStage::JobBlob, Err(e)) => r == Err::<
                (),
                ReadError,
            >(e) && *after == *self,
            (_, _) => r is Ok && *after == *self,
        }
    }

    /// Whether `after` is this entry once it has taken the files `found`:
    /// where the details of an array's elements were asked for, each file is
    /// kept under its name and the record is complete; else nothing changes.
    pub open spec fn takes_matches(
        &self,
        found: Seq<(String, Vec<u8>)>,
        after: &TorqueJobEntry,
    ) -> bool {
        &&& after.same_job(self)
        &&& self.wf() ==> after.wf()
        &&& after.script_name() == self.script_name()
        &&& after.script_bytes() == self.script_bytes()
        &&& if self.stage() == ReadStage::ArrayBlobs {
            &&& after.stage() == ReadStage::Complete
            &&& after.details() == with_files(self.details(), found)
        } else {
            *after == *self
        }
    }

    /// Whether `r` holds the files with the job's details by name, each as
    /// text.
    pub open spec fn gives_extra_info(&self, r: Option<EnvMap>) -> bool {
        &&& r is Some
        &&& r->0.wf()
        &&& texts(r->0@) == decoded_values(self.details())
    }

    /// What holds of every entry that `new` has made, whatever it has taken
    /// since: no name occurs twice among the files with the job's details;
    /// once the script is past, it has been read; and where the details are
    /// past, at least the array index or the details of the single job are
    /// there.
    pub closed spec fn wf(&self) -> bool {
        &&& self.env_.wf()
        &&& self.stage_ != ReadStage::Script ==> self.script_ is Some && self.jobname_ is Some
            && self.jobname_->0@ == last_component(self.path_@)
        &&& self.stage_ == ReadStage::ArrayBlobs ==> self.env_@.contains_key(
            array_index_name(self.path_@),
        )
        &&& self.stage_ == ReadStage::Complete ==> self.env_@.contains_key(
            array_index_name(self.path_@),
        ) || self.env_@.contains_key(job_blob_name(self.path_@))
    }

    /// A record that is complete holds the script under the name of its file
    /// and, of the files with the job's details, at least the array index or
    /// the details of the single job.
    pub proof fn lemma_complete_record(e: TorqueJobEntry)
        requires
            e.wf(),
            e.complete(),
        ensures
            e.script_bytes() is Some,
            e.script_name() == Some(last_component(e.path())),
            e.details().contains_key(array_index_name(e.path())) || e.details().contains_key(
                job_blob_name(e.path()),
            ),
    {
    }

    /// Whether `other` is the same job with possibly other files.
    pub open spec fn same_job(&self, other: &TorqueJobEntry) -> bool {
        &&& self.path() == other.path()
        &&& self.id() == other.id()
        &&& self.cluster_name() == other.cluster_name()
        &&& self.made_at() == other.made_at()
    }

    /// The files that go to the archive: the script under the name of its
    /// file, then the files with the job's details.
    pub open spec fn archive_files(&self) -> Seq<(Seq<char>, Seq<u8>)> {
        let script = if self.script_name() is Some && self.script_bytes() is Some {
            seq![(self.script_name()->0, self.script_bytes()->0)]
        } else {
            Seq::empty()
        };
        script + files_view(self.detail_entries())
    }

    /// Returns a new entry for the script file at `p`; none of its files has
    /// been read.
    pub fn new(p: &str, id: &str, cluster: &str) -> (e: TorqueJobEntry)
        requires
            id@.len() > 0,
        ensures
            e.wf(),
            e.path() == p@,
            e.id() == id@,
            e.cluster_name() == cluster@,
            e.stage() == ReadStage::Script,
            e.script_name() is None,
            e.script_bytes() is None,
            e.details() == Map::<Seq<char>, Vec<u8>>::empty(),
            e.detail_entries().len() == 0,
    {
        TorqueJobEntry {
            path_: String::from_str(p),
            jobname_: None,
            cluster_: String::from_str(cluster),
            jobid_: String::from_str(id),
            moment_: current_moment(),
            script_: None,
            env_: StringMap::new(),
            stage_: ReadStage::Script,
        }
    }

    /// The name of the script file with `ext` in place of its extension.
    fn sibling_name(&self, ext: &str) -> (r: String)
        ensures
            r@ == file_stem(last_component(self.path())) + ext@,
    {
        let v = chars_of(self.path_.as_str());
        let (a, b) = last_component_range(&v);
        let d = extension_dot(&v, a, b);
        let mut r = string_of(&v, a, d);
        r.append(ext);
        r
    }

    /// The name of the script file.
    fn own_name(&self) -> (r: String)
        ensures
            r@ == last_component(self.path()),
    {
        let v = chars_of(self.path_.as_str());
        let (a, b) = last_component_range(&v);
        string_of(&v, a, b)
    }
}

impl JobInfo for TorqueJobEntry {
    /// Returns the job ID.
    fn jobid(&self) -> (r: String)
        ensures
            r@ == self.id(),
    {
        self.jobid_.clone()
    }

    /// Returns the moment of the event.
    fn moment(&self) -> (r: Instant)
        ensures
            r == self.made_at(),
    {
        self.moment_
    }

    /// Returns the cluster to which the job was submitted.
    fn cluster(&self) -> (r: String)
        ensures
            r@ == self.cluster_name(),
    {
        self.cluster_.clone()
    }

    /// The script; then the array index, looked for only briefly; then the
    /// details of the array's elements, or of the single job.
    fn next_read(&self) -> (r: ReadRequest)
        ensures
            self.requests(r),
            r is Complete <==> self.complete(),
    {
        match self.stage_ {
            ReadStage::Script => ReadRequest::File {
                dir: parent_of(self.path_.as_str()),
                name: self.own_name(),
                polls: DEFAULT_POLLS,
            },
            ReadStage::ArrayIndex => ReadRequest::File {
                dir: parent_of(self.path_.as_str()),
                name: self.sibling_name(".TA"),
                polls: OPTIONAL_POLLS,
            },
            ReadStage::ArrayBlobs => {
                let dir = parent_of(self.path_.as_str());
                let name = self.own_name();
                let mut names = first_part_of(name.as_str());
                names.append("-*.JB");
                let pattern = join_paths(dir.as_str(), names.as_str());
                ReadRequest::Matching { pattern, polls: OPTIONAL_POLLS }
            },
            ReadStage::JobBlob => ReadRequest::File {
                dir: parent_of(self.path_.as_str()),
                name: self.sibling_name(".JB"),
                polls: DEFAULT_POLLS,
            },
            ReadStage::Complete => ReadRequest::Complete,
        }
    }

    /// Takes the script, the array index or the details of a single job,
    /// whichever was asked for. A missing array index is normal: the job is
    /// then a single one. Any other failure is handed back and changes
    /// nothing.
    fn supply_file(&mut self, outcome: Result<Vec<u8>, ReadError>) -> (r: Result<(), ReadError>)
        ensures
            old(self).takes_file(outcome, final(self), r),
    {
        match self.stage_ {
            ReadStage::Script => match outcome {
                Ok(bytes) => {
                    self.jobname_ = Some(self.own_name());
                    self.script_ = Some(bytes);
                    self.stage_ = ReadStage::ArrayIndex;
                    Ok(())
                },
                Err(e) => Err(e),
            },
            ReadStage::ArrayIndex => match outcome {
                Ok(bytes) => {
                    let name = self.sibling_name(".TA");
                    self.env_.insert(name, bytes);
                    self.stage_ = ReadStage::ArrayBlobs;
                    Ok(())
                },
                Err(_) => {
                    self.stage_ = ReadStage::JobBlob;
                    Ok(())
                },
            },
            ReadStage::JobBlob => match outcome {
                Ok(bytes) => {
                    let name = self.sibling_name(".JB");
                    self.env_.insert(name, bytes);
                    self.stage_ = ReadStage::Complete;
                    Ok(())
                },
                Err(e) => Err(e),
            },
            _ => Ok(()),
        }
    }

    /// Takes the details of the elements of an array job, if they were asked
    /// for: each file is kept under its name, and the record is complete.
    fn supply_matches(&mut self, found: Vec<(String, Vec<u8>)>)
        ensures
            old(self).takes_matches(found@, final(self)),
    {
        match self.stage_ {
            ReadStage::ArrayBlobs => {
                let ghost start = self.env_@;
                let ghost all = found@;
                for item in it: found
                    invariant
                        it.seq() == all,
                        old(self).env_.wf() ==> self.env_.wf(),
                        old(self).env_@.contains_key(array_index_name(self.path_@))
                            ==> self.env_@.contains_key(array_index_name(self.path_@)),
                        self.env_@ == with_files(start, all.take(it.index() as int)),
                        self.path_ == old(self).path_,
                        self.jobname_ == old(self).jobname_,
                        self.jobid_ == old(self).jobid_,
                        self.cluster_ == old(self).cluster_,
                        self.moment_ == old(self).moment_,
                        self.script_ == old(self).script_,
                        self.stage_ == old(self).stage_,
                {
                    proof {
                        let i = it.index() as int;
                        assert(all.take(i + 1).drop_last() == all.take(i));
                        assert(all.take(i + 1).last() == all[i]);
                    }
                    let (name, bytes) = item;
                    self.env_.insert(name, bytes);
                }
                proof {
                    assert(all.take(all.len() as int) == all);
                }
                self.stage_ = ReadStage::Complete;
            },
            _ => {},
        }
    }

    /// Returns the script under the name of its file, then the files with the
    /// job's details, each with its name and contents.
    fn files(&self) -> (r: Vec<(String, Vec<u8>)>)
        ensures
            files_view(r@) == self.archive_files(),
            map_of(self.detail_entries()) == self.details(),
            self.wf() ==> keys_distinct(self.detail_entries()),
    {
        let mut r: Vec<(String, Vec<u8>)> = Vec::new();
        match &self.jobname_ {
            Some(jn) => match &self.script_ {
                Some(script) => {
                    r.push((jn.clone(), copy_bytes(script)));
                },
                None => {},
            },
            None => {},
        }
        {
            let ghost head = files_view(r@);
            let n = self.env_.len();
            let mut i: usize = 0;
            while i < n
                invariant
                    i <= n == self.env_.entries_view().len(),
                    files_view(r@) == head + files_view(self.env_.entries_view().take(i as int)),
                decreases n - i,
            {
                let (name, bytes) = self.env_.entry(i);
                let ghost so_far = r@;
                r.push((name.clone(), copy_bytes(bytes)));
                proof {
                    let entries = self.env_.entries_view();
                    let item = (entries[i as int].0@, entries[i as int].1@);
                    assert(files_view(entries.take(i as int + 1)) =~= files_view(
                        entries.take(i as int),
                    ).push(item));
                    assert(files_view(r@) =~= files_view(so_far).push(item));
                    assert(files_view(r@) =~= head + files_view(entries.take(i as int + 1)));
                }
                i += 1;
            }
            proof {
                let entries = self.env_.entries_view();
                assert(entries.take(n as int) == entries);
                assert(files_view(r@) =~= self.archive_files());
            }
        }
        r
    }

    /// Returns the job script as text; empty while no script has been read.
    fn script(&self) -> (r: String)
        ensures
            r@ == self.script_text(),
    {
        match &self.script_ {
            Some(s) => decode_lossy(s.as_slice()),
            None => String::new(),
        }
    }

    /// Returns the files with the job's details by name, each as text.
    fn extra_info(&self) -> (r: Option<EnvMap>)
        ensures
            self.gives_extra_info(r),
    {
        let mut m: EnvMap = StringMap::new();
        {
            let n = self.env_.len();
            let mut i: usize = 0;
            proof {
                assert(texts(m@) =~= decoded_values(
                    map_of(self.env_.entries_view().take(0)),
                ));
            }
            while i < n
                invariant
                    i <= n == self.env_.entries_view().len(),
                    m.wf(),
                    texts(m@) == decoded_values(map_of(self.env_.entries_view().take(i as int))),
                decreases n - i,
            {
                let (name, bytes) = self.env_.entry(i);
                let text = decode_lossy(bytes.as_slice());
                proof {
                    let entries = self.env_.entries_view();
                    assert(entries.take(i as int + 1).drop_last() == entries.take(i as int));
                    assert(entries.take(i as int + 1).last() == entries[i as int]);
                    lemma_texts_insert(m@, name@, text);
                    lemma_decoded_values_insert(
                        map_of(entries.take(i as int)),
                        name@,
                        entries[i as int].1,
                    );
                }
                m.insert(name.clone(), text);
                i += 1;
            }
            proof {
                let entries = self.env_.entries_view();
                assert(entries.take(n as int) == entries);
            }
        }
        Some(m)
    }
}

/// Representation of the scheduler.
pub struct Torque {
    pub base: String,
    pub cluster: String,
    pub subdirs: bool,
}

/// The name of the subdirectory number `i`.
pub open spec fn subdir_name(i: int) -> Seq<char> {
    seq![digit(i)]
}

impl Torque {
    /// The directories to watch: the subdirectories `0` to `9` of the base
    /// path, or the base path alone where it has no such subdirectories.
    pub open spec fn locations(&self) -> Seq<Seq<char>> {
        if self.subdirs {
            Seq::new(10, |i: int| join(self.base@, subdir_name(i)))
        } else {
            seq![self.base@]
        }
    }

    /// Whether `event` announces a new job: it is the creation of a file
    /// whose name, in the first path, has the extension `SC`.
    pub open spec fn qualifies(&self, event: &Event) -> bool {
        &&& event.kind == EventKind::Create(CreateKind::File)
        &&& event.paths@.len() > 0
        &&& names_script(event.paths@[0]@)
    }

    /// Whether `r` is the job that `event_path` stands for: none unless the
    /// path led to a file and names a script file, else an entry for that
    /// file of which nothing has been read.
    pub open spec fn captures(
        &self,
        event_path: Seq<char>,
        found: PathKind,
        r: Option<TorqueJobEntry>,
    ) -> bool {
        match r {
            Some(e) => {
                &&& found is File
                &&& script_parts(event_path) is Some
                &&& e.wf()
                &&& e.id() == script_job_id(event_path)
                &&& e.path() == event_path
                &&& e.cluster_name() == self.cluster@
                &&& e.stage() == ReadStage::Script
                &&& e.script_name() is None
                &&& e.script_bytes() is None
                &&& e.details() == Map::<Seq<char>, Vec<u8>>::empty()
                &&& e.detail_entries().len() == 0
            },
            None => !(found is File) || script_parts(event_path) is None,
        }
    }

    /// Returns a new `Torque` for the spool directory `base`, which is
    /// watched itself. Where the spool directory has the subdirectories `0`
    /// to `9`, `subdirs` is to be set.
    pub fn new(base: &str, cluster: &str) -> (t: Torque)
        ensures
            t.base@ == base@,
            t.cluster@ == cluster@,
            !t.subdirs,
    {
        Torque {
            base: String::from_str(base),
            cluster: String::from_str(cluster),
            subdirs: false,
        }
    }
}

impl Scheduler for Torque {
    type Job = TorqueJobEntry;

    /// The subdirectories `0` to `9` of the base path, or the base path alone
    /// where it has no such subdirectories.
    fn watch_locations(&self) -> (r: Vec<String>)
        ensures
            texts_of(r@) == self.locations(),
    {
        let mut r: Vec<String> = Vec::new();
        if self.subdirs {
            let mut i: u8 = 0;
            while i < 10
                invariant
                    i <= 10,
                    r@.len() == i,
                    forall|k: int|
                        0 <= k < i ==> (#[trigger] r@[k])@ == join(self.base@, subdir_name(k)),
                decreases 10 - i,
            {
                let d = vec![digit_char(i)];
                let name = string_of(&d, 0, 1);
                assert(name@ =~= subdir_name(i as int));
                r.push(join_paths(self.base.as_str(), name.as_str()));
                i += 1;
            }
        } else {
            r.push(self.base.clone());
        }
        assert(texts_of(r@) =~= self.locations());
        r
    }

    /// A job entry for the script file `event_path`, if it still is a file
    /// and has the name of a script file.
    fn create_job_info(&self, event_path: &str, found: PathKind) -> (r: Option<TorqueJobEntry>)
        ensures
            self.captures(event_path@, found, r),
    {
        match is_job_path(event_path, found) {
            Some((jobid, filename)) => Some(
                TorqueJobEntry::new(filename.as_str(), jobid.as_str(), self.cluster.as_str()),
            ),
            None => None,
        }
    }

    /// The paths of the event, if it is the creation of a file whose name, in
    /// the first path, has the extension `SC`.
    fn verify_event_kind(&self, event: &Event) -> (r: Option<Vec<String>>)
        ensures
            crate::scheduler::passes(self.qualifies(event), event, r),
    {
        match event.kind {
            EventKind::Create(CreateKind::File) => {
                if event.paths.len() > 0 && is_job_path(
                    event.paths[0].as_str(),
                    PathKind::File,
                ).is_some() {
                    Some(crate::scheduler::copy_paths(&event.paths))
                } else {
                    None
                }
            },
            _ => None,
        }
    }
}

/// Verifies that `path` is that of a script file that needs archival.
///
/// The path prefix is ignored. `found` is what the path led to when it was
/// looked up; it must be a file, and its name must have the extension `SC`.
///
/// Returns the job ID, which is the file name without the extension, and the
/// path.
pub fn is_job_path(path: &str, found: PathKind) -> (r: Option<(String, String)>)
    ensures
        match r {
            Some((id, file)) => found is File && script_parts(path@) == Some((id@, file@)) && id@.len()
                > 0,
            None => !(found is File) || script_parts(path@) is None,
        },
{
    match found {
        PathKind::File => {
            let v = chars_of(path);
            let (a, b) = last_component_range(&v);
            if is_file_name_range(&v, a, b) {
                let d = extension_dot(&v, a, b);
                let ghost name = v@.subrange(a as int, b as int);
                proof {
                    reveal_strlit("SC");
                    crate::path::lemma_rfind(name, '.');
                }
                if d < b && b - d == 3 && v[d + 1] == 'S' && v[d + 2] == 'C' {
                    proof {
                        let ext = v@.subrange(d as int + 1, b as int);
                        assert(ext =~= "SC"@);
                        assert(file_name(path@) == Some(name));
                        assert(extension(name) == Some("SC"@));
                        assert(file_stem(name).len() > 0);
                    }
                    Some((string_of(&v, a, d), String::from_str(path)))
                } else {
                    proof {
                        if d < b {
                            let ext = v@.subrange(d as int + 1, b as int);
                            if ext == "SC"@ {
                                assert(ext.len() == 2);
                                assert(ext[0] == 'S' && ext[1] == 'C');
                            }
                        }
                    }
                    None
                }
            } else {
                None
            }
        },
        _ => None,
    }
}

} // verus!

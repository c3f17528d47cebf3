//! The sink that writes the files of a job beneath a directory, in a
//! subdirectory for the year, the month or the day where one is asked for.

use crate::archive::{Archive, Delivery, Submission};
use crate::path::{join, join_paths};
use crate::processor::SinkError;
use crate::scheduler::job::{copy_bytes, files_view, JobInfo};
use crate::text::{padded_decimal, push_padded_decimal, string_of};
use vstd::prelude::*;
use vstd::string::*;

verus! {

/// Command line options for the file archiver subcommand.
#[derive(Debug)]
pub struct FileArgs {
    pub archive: String,
    pub period: Period,
}

/// An enum to define a hierarchy in the archive.
#[derive(Clone, Copy, Debug, PartialEq, Eq, Structural)]
pub enum Period {
    /// Leads to a YYYYMMDD subdir
    Daily,
    /// Leads to a YYYYMM subdir
    Monthly,
    /// Leads to a YYYY subdir
    Yearly,
    /// No subdir
    NoPeriod,
}

/// A day of the calendar.
#[derive(Clone, Copy, Debug, PartialEq, Eq, Structural)]
pub struct Date {
    pub year: i32,
    pub month: u32,
    pub day: u32,
}

impl Date {
    /// Whether the month and the day are ones that a calendar has: the month
    /// from 1 to 12, the day from 1 to 31.
    pub open spec fn in_calendar(&self) -> bool {
        1 <= self.month <= 12 && 1 <= self.day <= 31
    }
}

/// An archiver that writes job script info to a file.
pub struct FileArchive {
    archive_path: String,
    period: Period,
}

/// Today's date in the local time zone.
///
/// Calls `chrono::Local::now` and the `year`, `month` and `day` of its
/// result. Trusted: the month is from 1 to 12 and the day from 1 to 31. Which
/// date it is depends on when and where the call is made. The call panics
/// where the system clock stands before 1970 or the data of the time zone
/// cannot be used.
#[verifier::external_body]
pub(crate) fn local_today() -> (d: Date)
    ensures
        d.in_calendar(),
{
    let now = chrono::Local::now();
    Date {
        year: chrono::Datelike::year(&now),
        month: chrono::Datelike::month(&now),
        day: chrono::Datelike::day(&now),
    }
}

/// The year as text: four digits for the years 0 to 9999, with zeros in
/// front where needed; for any other year a sign and at least four digits.
pub open spec fn year_text(year: int) -> Seq<char> {
    if 0 <= year <= 9999 {
        padded_decimal(year as nat, 4)
    } else if year < 0 {
        seq!['-'] + padded_decimal((-year) as nat, 4)
    } else {
        seq!['+'] + padded_decimal(year as nat, 4)
    }
}

/// The name of the subdirectory for `date`: the year, the year and the month
/// or the year, the month and the day, the last two with two digits each; none
/// where the archive has no periods.
pub open spec fn bucket(p: Period, date: Date) -> Option<Seq<char>> {
    match p {
        Period::Yearly => Some(year_text(date.year as int)),
        Period::Monthly => Some(year_text(date.year as int) + padded_decimal(date.month as nat, 2)),
        Period::Daily => Some(
            year_text(date.year as int) + padded_decimal(date.month as nat, 2) + padded_decimal(
                date.day as nat,
                2,
            ),
        ),
        Period::NoPeriod => None,
    }
}

/// The directory that the files of a job go to on `date`.
pub open spec fn target_path(archive_path: Seq<char>, p: Period, date: Date) -> Seq<char> {
    match bucket(p, date) {
        Some(d) => join(archive_path, d),
        None => archive_path,
    }
}

/// The files to write: each file of the job under its name in `dir`.
pub open spec fn placed(dir: Seq<char>, files: Seq<(Seq<char>, Seq<u8>)>) -> Seq<
    (Seq<char>, Seq<u8>),
> {
    Seq::new(files.len(), |i: int| (join(dir, files[i].0), files[i].1))
}

/// The files of a directory tree by path, after `files` have been written
/// one after the other, each replacing what was at its path.
pub open spec fn written(
    before: Map<Seq<char>, Seq<u8>>,
    files: Seq<(Seq<char>, Seq<u8>)>,
) -> Map<Seq<char>, Seq<u8>>
    decreases files.len(),
{
    if files.len() == 0 {
        before
    } else {
        written(before, files.drop_last()).insert(files.last().0, files.last().1)
    }
}

/// The name of the subdirectory for `date`, if the archive has periods.
pub fn period_subdir(p: &Period, date: &Date) -> (r: Option<String>)
    ensures
        match r {
            Some(d) => bucket(*p, *date) == Some(d@),
            None => bucket(*p, *date) is None,
        },
{
    let mut v: Vec<char> = Vec::new();
    match p {
        Period::NoPeriod => {
            return None;
        },
        _ => {},
    }
    if 0 <= date.year && date.year <= 9999 {
        push_padded_decimal(date.year as u64, 4, &mut v);
    } else if date.year < 0 {
        v.push('-');
        let magnitude: u64 = (-(date.year as i64)) as u64;
        push_padded_decimal(magnitude, 4, &mut v);
    } else {
        v.push('+');
        push_padded_decimal(date.year as u64, 4, &mut v);
    }
    assert(v@ =~= year_text(date.year as int));
    match p {
        Period::Yearly => {},
        Period::Monthly => {
            push_padded_decimal(date.month as u64, 2, &mut v);
        },
        _ => {
            push_padded_decimal(date.month as u64, 2, &mut v);
            push_padded_decimal(date.day as u64, 2, &mut v);
        },
    }
    let d = string_of(&v, 0, v.len());
    assert(v@.subrange(0, v@.len() as int) == v@);
    Some(d)
}

/// The directory that the files of a job go to on `date`: the archive path,
/// with a subdirectory for the period of `date` where the archive has
/// periods.
pub fn target_path_on(archive_path: &str, p: &Period, date: &Date) -> (r: String)
    ensures
        r@ == target_path(archive_path@, *p, *date),
{
    match period_subdir(p, date) {
        Some(d) => join_paths(archive_path, d.as_str()),
        None => String::from_str(archive_path),
    }
}

/// Determines the directory that the files of a job go to today.
///
/// The path has the archive path and, depending on the period, a subdir:
/// YYYY for a yearly period, YYYYMM for a monthly one, YYYYMMDD for a daily
/// one.
pub fn determine_target_path(archive_path: &str, p: &Period) -> (r: String)
    ensures
        *p == Period::NoPeriod ==> r@ == archive_path@,
        exists|date: Date| date.in_calendar() && r@ == target_path(archive_path@, *p, date),
{
    let date = local_today();
    let r = target_path_on(archive_path, p, &date);
    assert(date.in_calendar() && r@ == target_path(archive_path@, *p, date));
    r
}

impl FileArchive {
    /// The directory of the archive.
    pub closed spec fn root(&self) -> Seq<char> {
        self.archive_path@
    }

    /// The period of the subdirectories.
    pub closed spec fn periods(&self) -> Period {
        self.period
    }

    pub fn new(archive_path: &str, p: &Period) -> (a: Self)
        ensures
            a.root() == archive_path@,
            a.periods() == *p,
    {
        FileArchive { archive_path: String::from_str(archive_path), period: *p }
    }

    /// The archiver that the command line options ask for. The directory is
    /// not looked at: whoever writes to it makes it where it is missing.
    pub fn build(args: &FileArgs) -> (a: Self)
        ensures
            a.root() == args.archive@,
            a.periods() == args.period,
    {
        FileArchive::new(args.archive.as_str(), &args.period)
    }

    /// The directory of the archive.
    pub fn archive_path(&self) -> (r: &str)
        ensures
            r@ == self.root(),
    {
        self.archive_path.as_str()
    }

    /// The period of the subdirectories.
    pub fn period(&self) -> (r: Period)
        ensures
            r == self.periods(),
    {
        self.period
    }

    /// Whether `s` is what to write for a job with the files `files` on
    /// `date`: each file under its name in the directory for that date.
    pub open spec fn plans(
        &self,
        date: Date,
        files: Seq<(String, Vec<u8>)>,
        s: Submission,
    ) -> bool {
        s matches Submission::Files { dir, files: out } && dir@ == target_path(
            self.root(),
            self.periods(),
            date,
        ) && files_view(out@) == placed(dir@, files_view(files))
    }

    /// Whether `r` is what archiving `job` comes to: what is to be written,
    /// on the date of the calendar that the clock gave, for the files that
    /// the job gave. Archiving never fails before anything is written.
    pub open spec fn archives<J: JobInfo>(
        &self,
        job: &J,
        r: Result<Submission, SinkError>,
    ) -> bool {
        match r {
            Ok(s) => exists|date: Date, files: Vec<(String, Vec<u8>)>|
                date.in_calendar() && call_ensures(J::files, (job,), files)
                    && #[trigger] self.plans(date, files@, s),
            Err(_) => false,
        }
    }

    /// What to write for a job with the files `files` on `date`: each file
    /// under its name in the directory for that date, which is to be made
    /// where it is missing.
    pub fn plan(&self, date: &Date, files: Vec<(String, Vec<u8>)>) -> (r: Submission)
        ensures
            self.plans(*date, files@, r),
    {
        let dir = target_path_on(self.archive_path.as_str(), &self.period, date);
        let mut out: Vec<(String, Vec<u8>)> = Vec::new();
        let mut i: usize = 0;
        while i < files.len()
            invariant
                i <= files@.len(),
                out@.len() == i,
                forall|k: int|
                    0 <= k < i ==> (#[trigger] out@[k]).0@ == join(dir@, files@[k].0@) && out@[k].1@
                        == files@[k].1@,
            decreases files@.len() - i,
        {
            let path = join_paths(dir.as_str(), files[i].0.as_str());
            out.push((path, copy_bytes(&files[i].1)));
            i += 1;
        }
        assert(files_view(out@) =~= placed(dir@, files_view(files@)));
        Submission::Files { dir, files: out }
    }
}

impl Archive for FileArchive {
    /// Archives the files of the job: they are to be written beneath the
    /// directory for today.
    fn archive<J: JobInfo>(&self, job_entry: &J) -> (r: Result<Submission, SinkError>)
        ensures
            r matches Ok(s) && s is Files,
            self.archives(job_entry, r),
    {
        let date = local_today();
        let files = job_entry.files();
        let ghost given = files;
        let s = self.plan(&date, files);
        assert(date.in_calendar() && call_ensures(J::files, (job_entry,), given) && self.plans(
            date,
            given@,
            s,
        ));
        Ok(s)
    }

    /// A file that could not be written is a failure of the transport.
    fn settle(&self, delivery: Delivery) -> (r: Result<(), SinkError>)
        ensures
            r == match delivery {
                Delivery::Done => Ok::<(), SinkError>(()),
                Delivery::Failed => Err::<(), SinkError>(SinkError::Transport),
            },
    {
        match delivery {
            Delivery::Done => Ok(()),
            Delivery::Failed => Err(SinkError::Transport),
        }
    }
}

/// The place of the last of `files` with the path `path`, or -1 where none
/// has it.
pub open spec fn last_with_path(files: Seq<(Seq<char>, Seq<u8>)>, path: Seq<char>) -> int
    decreases files.len(),
{
    if files.len() == 0 {
        -1
    } else if files.last().0 == path {
        files.len() - 1
    } else {
        last_with_path(files.drop_last(), path)
    }
}

/// What is found at a path after `files` were written is what the last of
/// them with this path holds, or what was there before.
pub proof fn lemma_written(
    before: Map<Seq<char>, Seq<u8>>,
    files: Seq<(Seq<char>, Seq<u8>)>,
    path: Seq<char>,
)
    ensures
        -1 <= last_with_path(files, path) < files.len(),
        written(before, files).contains_key(path) <==> before.contains_key(path)
            || last_with_path(files, path) >= 0,
        last_with_path(files, path) >= 0 ==> written(before, files)[path] == files[last_with_path(
            files,
            path,
        )].1,
        last_with_path(files, path) < 0 ==> written(before, files)[path] == before[path],
    decreases files.len(),
{
    if files.len() > 0 && files.last().0 != path {
        let init = files.drop_last();
        lemma_written(before, init, path);
        let i = last_with_path(init, path);
        if i >= 0 {
            assert(init[i] == files[i]);
        }
    }
}

/// Writing the same files a second time changes nothing: what is found
/// beneath the archive after the second time is what was found after the
/// first.
pub proof fn lemma_write_idempotent(
    before: Map<Seq<char>, Seq<u8>>,
    files: Seq<(Seq<char>, Seq<u8>)>,
)
    ensures
        written(written(before, files), files) == written(before, files),
{
    let once = written(before, files);
    let twice = written(once, files);
    assert forall|path: Seq<char>| twice.contains_key(path) == once.contains_key(path) by {
        lemma_written(before, files, path);
        lemma_written(once, files, path);
    }
    assert forall|path: Seq<char>| twice.contains_key(path) implies twice[path] == once[path] by {
        lemma_written(before, files, path);
        lemma_written(once, files, path);
    }
    assert(twice =~= once);
}

} // verus!

use sarchive::archive::file::{
    determine_target_path, period_subdir, target_path_on, Date, FileArchive, FileArgs, Period,
};
use sarchive::archive::{archive_builder, Archive, Archiver, Delivery, Sink, Submission};
use sarchive::processor::SinkError;
use sarchive::scheduler::job::{EnvMap, JobInfo, ReadError, ReadRequest};
use sarchive::scheduler::slurm::SlurmJobEntry;
use std::time::Instant;

#[derive(Debug)]
struct DummyJobInfo {
    job_id: String,
    moment: Instant,
    cluster: String,
    files: Vec<(String, Vec<u8>)>,
    script: String,
    extra_info: Option<EnvMap>,
}

impl DummyJobInfo {
    fn new(job_id: &str, moment: Instant, cluster: &str) -> Self {
        DummyJobInfo {
            job_id: job_id.to_string(),
            moment,
            cluster: cluster.to_string(),
            files: vec![
                ("file1.txt".to_string(), b"contents1".to_vec()),
                ("file2.txt".to_string(), b"contents2".to_vec()),
            ],
            script: "echo 'Hello, World!'".to_string(),
            extra_info: Some(EnvMap::new()),
        }
    }
}

impl JobInfo for DummyJobInfo {
    fn jobid(&self) -> String {
        self.job_id.clone()
    }

    fn moment(&self) -> Instant {
        self.moment
    }

    fn cluster(&self) -> String {
        self.cluster.clone()
    }

    fn next_read(&self) -> ReadRequest {
        ReadRequest::Complete
    }

    fn supply_file(&mut self, _outcome: Result<Vec<u8>, ReadError>) -> Result<(), ReadError> {
        Ok(())
    }

    fn supply_matches(&mut self, _found: Vec<(String, Vec<u8>)>) {}

    fn files(&self) -> Vec<(String, Vec<u8>)> {
        self.files.clone()
    }

    fn script(&self) -> String {
        self.script.clone()
    }

    fn extra_info(&self) -> Option<EnvMap> {
        self.extra_info.clone()
    }
}

fn date(year: i32, month: u32, day: u32) -> Date {
    Date { year, month, day }
}

fn today(format: &str) -> String {
    chrono::Local::now().format(format).to_string()
}

#[test]
fn test_file_archive_new() {
    let archive_path = "/tmp/archive";
    let period = Period::Daily;

    let file_archive = FileArchive::new(archive_path, &period);

    assert_eq!(file_archive.archive_path(), archive_path);
    assert_eq!(file_archive.period(), period);
}

#[test]
fn test_file_archive_build_existing_directory() {
    let archive_path = "/tmp".to_string();
    let period = Period::Monthly;

    let args = FileArgs { archive: archive_path.clone(), period: period.clone() };

    let file_archive = FileArchive::build(&args);

    assert_eq!(file_archive.archive_path(), archive_path);
    assert_eq!(file_archive.period(), period);
}

#[test]
fn test_file_archive_build_nonexistent_directory() {
    let archive_path = "/tmp/nonexistent".to_string();
    let period = Period::Yearly;

    let args = FileArgs { archive: archive_path.clone(), period: period.clone() };

    let file_archive = FileArchive::build(&args);

    assert_eq!(file_archive.archive_path(), archive_path);
    assert_eq!(file_archive.period(), period);
}

#[test]
fn test_dummy_job_info_creation() {
    let job_id = "123";
    let moment = Instant::now();
    let cluster = "test_cluster";

    let dummy_job_info = DummyJobInfo::new(job_id, moment, cluster);

    assert_eq!(dummy_job_info.jobid(), job_id);
    assert_eq!(dummy_job_info.moment(), moment);
    assert_eq!(dummy_job_info.cluster(), cluster);
    assert_eq!(
        dummy_job_info.files(),
        vec![
            ("file1.txt".to_string(), b"contents1".to_vec()),
            ("file2.txt".to_string(), b"contents2".to_vec())
        ]
    );
    assert_eq!(dummy_job_info.script(), "echo 'Hello, World!'");
    assert_eq!(dummy_job_info.extra_info(), Some(EnvMap::new()));
}

#[test]
fn test_dummy_job_info_read_job_info() {
    let mut dummy_job_info = DummyJobInfo::new("123", Instant::now(), "test_cluster");
    assert_eq!(dummy_job_info.next_read(), ReadRequest::Complete);
    let result = dummy_job_info.supply_file(Ok(Vec::new()));
    assert!(result.is_ok());
}

#[test]
fn test_dummy_job_info_files() {
    let dummy_job_info = DummyJobInfo::new("123", Instant::now(), "test_cluster");
    let files = dummy_job_info.files();
    assert_eq!(files.len(), 2);
    assert_eq!(files[0].0, "file1.txt");
    assert_eq!(files[1].0, "file2.txt");
}

#[test]
fn file_test_determine_target_path() {
    // the basic archive path
    let archive_dir = std::path::Path::new("/tmp/archive");
    let archive = archive_dir.to_str().unwrap();

    let p = Period::NoPeriod;
    let target_path = determine_target_path(archive, &p);
    assert_eq!(std::path::Path::new(&target_path), archive_dir);

    let d = format!("{}", chrono::Local::now().format("%Y"));
    let p = Period::Yearly;
    let target_path = determine_target_path(archive, &p);
    assert_eq!(std::path::Path::new(&target_path), archive_dir.join(d));

    let d = format!("{}", chrono::Local::now().format("%Y%m"));
    let p = Period::Monthly;
    let target_path = determine_target_path(archive, &p);
    assert_eq!(std::path::Path::new(&target_path), archive_dir.join(d));

    let d = format!("{}", chrono::Local::now().format("%Y%m%d"));
    let p = Period::Daily;
    let target_path = determine_target_path(archive, &p);
    assert_eq!(std::path::Path::new(&target_path), archive_dir.join(d));
}

#[test]
fn test_determine_target_path_none() {
    let temp_dir = std::path::Path::new("/tmp");
    let target_path = determine_target_path(temp_dir.to_str().unwrap(), &Period::NoPeriod);
    assert_eq!(std::path::Path::new(&target_path), temp_dir);
}

#[test]
fn subdir_names_for_each_period() {
    let d = date(2024, 3, 15);
    assert_eq!(period_subdir(&Period::Yearly, &d), Some("2024".to_string()));
    assert_eq!(period_subdir(&Period::Monthly, &d), Some("202403".to_string()));
    assert_eq!(period_subdir(&Period::Daily, &d), Some("20240315".to_string()));
    assert_eq!(period_subdir(&Period::NoPeriod, &d), None);
}

#[test]
fn subdir_names_are_zero_padded() {
    assert_eq!(period_subdir(&Period::Daily, &date(987, 1, 2)), Some("09870102".to_string()));
    assert_eq!(period_subdir(&Period::Daily, &date(0, 12, 31)), Some("00001231".to_string()));
    assert_eq!(period_subdir(&Period::Yearly, &date(9999, 1, 1)), Some("9999".to_string()));
}

#[test]
fn subdir_names_of_years_out_of_range_have_a_sign() {
    assert_eq!(period_subdir(&Period::Yearly, &date(10000, 1, 1)), Some("+10000".to_string()));
    assert_eq!(period_subdir(&Period::Yearly, &date(-1, 1, 1)), Some("-0001".to_string()));
    assert_eq!(period_subdir(&Period::Monthly, &date(-12345, 7, 1)), Some("-1234507".to_string()));
    assert_eq!(
        period_subdir(&Period::Yearly, &date(i32::MIN, 1, 1)),
        Some("-2147483648".to_string())
    );
}

#[test]
fn subdir_names_agree_with_the_calendar_library() {
    for (y, m, d) in [(2024, 3, 15), (1, 1, 1), (999, 10, 9), (12345, 6, 7), (-44, 3, 15)] {
        let day = chrono::NaiveDate::from_ymd_opt(y, m, d).unwrap();
        assert_eq!(
            period_subdir(&Period::Yearly, &date(y, m, d)),
            Some(day.format("%Y").to_string())
        );
        assert_eq!(
            period_subdir(&Period::Monthly, &date(y, m, d)),
            Some(day.format("%Y%m").to_string())
        );
        assert_eq!(
            period_subdir(&Period::Daily, &date(y, m, d)),
            Some(day.format("%Y%m%d").to_string())
        );
    }
}

#[test]
fn target_path_for_each_period() {
    let d = date(2024, 3, 15);
    assert_eq!(target_path_on("/archive", &Period::NoPeriod, &d), "/archive");
    assert_eq!(target_path_on("/archive", &Period::Yearly, &d), "/archive/2024");
    assert_eq!(target_path_on("/archive/", &Period::Monthly, &d), "/archive/202403");
    assert_eq!(target_path_on("archive", &Period::Daily, &d), "archive/20240315");
    assert_eq!(target_path_on("", &Period::Daily, &d), "20240315");
}

#[test]
fn target_path_of_today() {
    assert_eq!(determine_target_path("/tmp/a", &Period::NoPeriod), "/tmp/a");
    let before = today("%Y%m%d");
    let yearly = determine_target_path("/tmp/a", &Period::Yearly);
    let monthly = determine_target_path("/tmp/a", &Period::Monthly);
    let daily = determine_target_path("/tmp/a", &Period::Daily);
    let after = today("%Y%m%d");
    if before == after {
        assert_eq!(yearly, format!("/tmp/a/{}", today("%Y")));
        assert_eq!(monthly, format!("/tmp/a/{}", today("%Y%m")));
        assert_eq!(daily, format!("/tmp/a/{}", before));
    }
}

#[test]
fn plan_places_each_file_in_the_target_directory() {
    let archive = FileArchive::new("/A", &Period::Monthly);
    let files = vec![
        ("file1.txt".to_string(), b"contents1".to_vec()),
        ("file2.txt".to_string(), b"contents2".to_vec()),
    ];
    match archive.plan(&date(2024, 3, 15), files) {
        Submission::Files { dir, files } => {
            assert_eq!(dir, "/A/202403");
            assert_eq!(
                files,
                vec![
                    ("/A/202403/file1.txt".to_string(), b"contents1".to_vec()),
                    ("/A/202403/file2.txt".to_string(), b"contents2".to_vec()),
                ]
            );
        }
        _ => panic!("a file archive writes files"),
    }
}

#[test]
fn plan_is_the_same_each_time() {
    let archive = FileArchive::new("/A", &Period::Daily);
    let job = DummyJobInfo::new("123", Instant::now(), "test_cluster");
    let first = archive.plan(&date(2024, 3, 15), job.files());
    let second = archive.plan(&date(2024, 3, 15), job.files());
    match (first, second) {
        (
            Submission::Files { dir: d1, files: f1 },
            Submission::Files { dir: d2, files: f2 },
        ) => {
            assert_eq!(d1, d2);
            assert_eq!(f1, f2);
        }
        _ => panic!("a file archive writes files"),
    }
}

#[test]
fn happy_path_without_period() {
    let mut entry = SlurmJobEntry::new("/W/job.1234", "1234", "mycluster", &None);
    assert_eq!(entry.supply_file(Ok(b"job script".to_vec())), Ok(()));
    assert_eq!(entry.supply_file(Ok(b"".to_vec())), Ok(()));
    assert_eq!(entry.next_read(), ReadRequest::Complete);
    let archive = FileArchive::new("/A", &Period::NoPeriod);
    match archive.plan(&date(2024, 3, 15), entry.files()) {
        Submission::Files { dir, files } => {
            assert_eq!(dir, "/A");
            assert_eq!(
                files,
                vec![
                    ("/A/job.1234_script".to_string(), b"job script".to_vec()),
                    ("/A/job.1234_environment".to_string(), b"".to_vec()),
                ]
            );
        }
        _ => panic!("a file archive writes files"),
    }
}

#[test]
fn monthly_bucket() {
    let mut entry = SlurmJobEntry::new("/W/job.1234", "1234", "mycluster", &None);
    assert_eq!(entry.supply_file(Ok(b"job script".to_vec())), Ok(()));
    assert_eq!(entry.supply_file(Ok(b"".to_vec())), Ok(()));
    let archive = FileArchive::new("/A", &Period::Monthly);
    match archive.plan(&date(2024, 3, 15), entry.files()) {
        Submission::Files { dir, files } => {
            assert_eq!(dir, "/A/202403");
            assert_eq!(files[0].0, "/A/202403/job.1234_script");
            assert_eq!(files[1].0, "/A/202403/job.1234_environment");
        }
        _ => panic!("a file archive writes files"),
    }
}

#[test]
fn archive_of_a_job_writes_its_files_today() {
    let archive = FileArchive::new("/A", &Period::Yearly);
    let job = DummyJobInfo::new("123", Instant::now(), "test_cluster");
    let before = today("%Y");
    let submission = archive.archive(&job);
    let after = today("%Y");
    match submission {
        Ok(Submission::Files { dir, files }) => {
            if before == after {
                assert_eq!(dir, format!("/A/{}", before));
                assert_eq!(files[0].0, format!("/A/{}/file1.txt", before));
            }
            assert_eq!(files.len(), 2);
            assert_eq!(files[0].1, b"contents1".to_vec());
            assert_eq!(files[1].1, b"contents2".to_vec());
        }
        _ => panic!("a file archive writes files"),
    }
}

#[test]
fn file_archive_surfaces_what_could_not_be_written() {
    let archive = FileArchive::new("/A", &Period::NoPeriod);
    assert_eq!(archive.settle(Delivery::Done), Ok(()));
    assert_eq!(archive.settle(Delivery::Failed), Err(SinkError::Transport));
}

#[test]
fn builder_makes_the_file_archive() {
    let archiver = Archiver::File(FileArgs { archive: "/A".to_string(), period: Period::Daily });
    match archive_builder(&archiver) {
        Sink::File(a) => {
            assert_eq!(a.archive_path(), "/A");
            assert_eq!(a.period(), Period::Daily);
        }
        _ => panic!("the file options ask for the file archive"),
    }
}

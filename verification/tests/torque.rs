use sarchive::scheduler::job::{EnvMap, JobInfo, ReadError, ReadRequest};
use sarchive::scheduler::torque::{is_job_path, Torque, TorqueJobEntry};
use sarchive::scheduler::{
    create, Adapter, CreateKind, Event, EventKind, JobEntry, PathKind, Scheduler, SchedulerKind,
};

fn file(dir: &str, name: &str, polls: u32) -> ReadRequest {
    ReadRequest::File { dir: dir.to_string(), name: name.to_string(), polls }
}

fn event(kind: EventKind, paths: &[&str]) -> Event {
    Event { kind, paths: paths.iter().map(|p| p.to_string()).collect() }
}

#[test]
fn script_files_are_job_paths() {
    assert_eq!(
        is_job_path("/spool/3/1.mymaster.mycluster.SC", PathKind::File),
        Some(("1.mymaster.mycluster".to_string(), "/spool/3/1.mymaster.mycluster.SC".to_string()))
    );
    assert_eq!(is_job_path("/spool/3/1.mymaster.mycluster.JB", PathKind::File), None);
    assert_eq!(is_job_path("/spool/3/1.mymaster.mycluster.SC", PathKind::Directory), None);
    assert_eq!(is_job_path("/spool/3/1.mymaster.mycluster.SC", PathKind::Other), None);
    assert_eq!(is_job_path("/spool/3/noextension", PathKind::File), None);
    assert_eq!(is_job_path("/spool/3/.SC", PathKind::File), None);
    assert_eq!(is_job_path("/spool/3/x.sc", PathKind::File), None);
    assert_eq!(is_job_path("/spool/3/x.SCC", PathKind::File), None);
    assert_eq!(
        is_job_path("/spool/3/x.SC/", PathKind::File),
        Some(("x".to_string(), "/spool/3/x.SC/".to_string()))
    );
    assert_eq!(is_job_path("/spool/3/x.SC/..", PathKind::File), None);
    assert_eq!(is_job_path("x.SC", PathKind::File), Some(("x".to_string(), "x.SC".to_string())));
}

#[test]
fn single_job_is_read_in_three_steps() {
    let mut entry = TorqueJobEntry::new("/spool/1/1.mymaster.mycluster.SC", "1", "mycluster");
    assert_eq!(entry.jobid(), "1");
    assert_eq!(entry.cluster(), "mycluster");
    assert_eq!(entry.files(), Vec::<(String, Vec<u8>)>::new());
    assert_eq!(entry.next_read(), file("/spool/1", "1.mymaster.mycluster.SC", 100));
    assert_eq!(entry.supply_file(Ok(b"#!/bin/bash".to_vec())), Ok(()));
    assert_eq!(entry.next_read(), file("/spool/1", "1.mymaster.mycluster.TA", 10));
    assert_eq!(entry.supply_file(Err(ReadError::Timeout)), Ok(()));
    assert_eq!(entry.next_read(), file("/spool/1", "1.mymaster.mycluster.JB", 100));
    assert_eq!(entry.supply_file(Ok(b"<some><xml>M</xml></some>".to_vec())), Ok(()));
    assert_eq!(entry.next_read(), ReadRequest::Complete);
    assert_eq!(
        entry.files(),
        vec![
            ("1.mymaster.mycluster.SC".to_string(), b"#!/bin/bash".to_vec()),
            ("1.mymaster.mycluster.JB".to_string(), b"<some><xml>M</xml></some>".to_vec()),
        ]
    );
    assert_eq!(entry.script(), "#!/bin/bash");
    let info = entry.extra_info().unwrap();
    assert_eq!(info.len(), 1);
    assert_eq!(
        info.get("1.mymaster.mycluster.JB"),
        Some(&"<some><xml>M</xml></some>".to_string())
    );
}

#[test]
fn array_job_is_read_with_its_elements() {
    let mut entry = TorqueJobEntry::new("/spool/2/2.mymaster.mycluster.SC", "2", "mycluster");
    assert_eq!(entry.supply_file(Ok(b"script".to_vec())), Ok(()));
    assert_eq!(entry.supply_file(Ok(b"index".to_vec())), Ok(()));
    assert_eq!(
        entry.next_read(),
        ReadRequest::Matching { pattern: "/spool/2/2-*.JB".to_string(), polls: 10 }
    );
    entry.supply_matches(vec![
        ("2-1.mymaster.mycluster.JB".to_string(), b"<some><xml>M1</xml></some>".to_vec()),
        ("2-2.mymaster.mycluster.JB".to_string(), b"<some><xml>M2</xml></some>".to_vec()),
    ]);
    assert_eq!(entry.next_read(), ReadRequest::Complete);
    let info = entry.extra_info().unwrap();
    assert_eq!(info.len(), 3);
    assert!(info.contains_key("2.mymaster.mycluster.TA"));
    assert!(info.contains_key("2-1.mymaster.mycluster.JB"));
    assert!(info.contains_key("2-2.mymaster.mycluster.JB"));
    assert_eq!(
        info.get("2-1.mymaster.mycluster.JB"),
        Some(&"<some><xml>M1</xml></some>".to_string())
    );
    assert_eq!(
        info.get("2-2.mymaster.mycluster.JB"),
        Some(&"<some><xml>M2</xml></some>".to_string())
    );
    assert_eq!(
        entry.files(),
        vec![
            ("2.mymaster.mycluster.SC".to_string(), b"script".to_vec()),
            ("2.mymaster.mycluster.TA".to_string(), b"index".to_vec()),
            ("2-1.mymaster.mycluster.JB".to_string(), b"<some><xml>M1</xml></some>".to_vec()),
            ("2-2.mymaster.mycluster.JB".to_string(), b"<some><xml>M2</xml></some>".to_vec()),
        ]
    );
}

#[test]
fn array_job_without_elements_is_complete() {
    let mut entry = TorqueJobEntry::new("/spool/2/2.m.c.SC", "2", "c");
    assert_eq!(entry.supply_file(Ok(b"script".to_vec())), Ok(()));
    assert_eq!(entry.supply_file(Ok(b"index".to_vec())), Ok(()));
    entry.supply_matches(Vec::new());
    assert_eq!(entry.next_read(), ReadRequest::Complete);
    assert_eq!(entry.files().len(), 2);
}

#[test]
fn element_with_a_name_that_came_before_replaces_it() {
    let mut entry = TorqueJobEntry::new("/spool/2/2.m.c.SC", "2", "c");
    assert_eq!(entry.supply_file(Ok(b"script".to_vec())), Ok(()));
    assert_eq!(entry.supply_file(Ok(b"index".to_vec())), Ok(()));
    entry.supply_matches(vec![
        ("2-1.m.c.JB".to_string(), b"first".to_vec()),
        ("2.m.c.TA".to_string(), b"again".to_vec()),
        ("2-1.m.c.JB".to_string(), b"second".to_vec()),
    ]);
    assert_eq!(
        entry.files(),
        vec![
            ("2.m.c.SC".to_string(), b"script".to_vec()),
            ("2.m.c.TA".to_string(), b"again".to_vec()),
            ("2-1.m.c.JB".to_string(), b"second".to_vec()),
        ]
    );
}

#[test]
fn missing_script_or_details_are_fatal_for_the_record() {
    let mut entry = TorqueJobEntry::new("/spool/1/1.m.c.SC", "1", "c");
    assert_eq!(entry.supply_file(Err(ReadError::ParentGone)), Err(ReadError::ParentGone));
    assert_eq!(entry.next_read(), file("/spool/1", "1.m.c.SC", 100));
    assert_eq!(entry.supply_file(Ok(b"script".to_vec())), Ok(()));
    assert_eq!(entry.supply_file(Err(ReadError::Io)), Ok(()));
    assert_eq!(entry.supply_file(Err(ReadError::Timeout)), Err(ReadError::Timeout));
    assert_eq!(entry.next_read(), file("/spool/1", "1.m.c.JB", 100));
    assert_eq!(entry.files(), vec![("1.m.c.SC".to_string(), b"script".to_vec())]);
}

#[test]
fn files_that_were_not_asked_for_change_nothing() {
    let mut entry = TorqueJobEntry::new("/spool/1/1.m.c.SC", "1", "c");
    entry.supply_matches(vec![("x".to_string(), b"y".to_vec())]);
    assert_eq!(entry.next_read(), file("/spool/1", "1.m.c.SC", 100));
    assert_eq!(entry.files().len(), 0);
    assert_eq!(entry.supply_file(Ok(b"script".to_vec())), Ok(()));
    assert_eq!(entry.supply_file(Ok(b"index".to_vec())), Ok(()));
    assert_eq!(entry.supply_file(Ok(b"stray".to_vec())), Ok(()));
    assert_eq!(entry.files().len(), 2);
    entry.supply_matches(Vec::new());
    assert_eq!(entry.supply_file(Ok(b"stray".to_vec())), Ok(()));
    assert_eq!(entry.supply_file(Err(ReadError::Io)), Ok(()));
    assert_eq!(entry.files().len(), 2);
    assert_eq!(entry.next_read(), ReadRequest::Complete);
}

#[test]
fn names_beside_the_script() {
    let entry = TorqueJobEntry::new("relative.SC", "relative", "c");
    assert_eq!(entry.next_read(), file("", "relative.SC", 100));
    let mut entry = TorqueJobEntry::new("/1234.master.SC", "1234.master", "c");
    assert_eq!(entry.next_read(), file("/", "1234.master.SC", 100));
    assert_eq!(entry.supply_file(Ok(Vec::new())), Ok(()));
    assert_eq!(entry.next_read(), file("/", "1234.master.TA", 10));
    assert_eq!(entry.supply_file(Ok(Vec::new())), Ok(()));
    assert_eq!(
        entry.next_read(),
        ReadRequest::Matching { pattern: "/1234-*.JB".to_string(), polls: 10 }
    );
    let mut entry = TorqueJobEntry::new("7.m.SC", "7.m", "c");
    assert_eq!(entry.supply_file(Ok(Vec::new())), Ok(()));
    assert_eq!(entry.next_read(), file("", "7.m.TA", 10));
    assert_eq!(entry.supply_file(Ok(Vec::new())), Ok(()));
    assert_eq!(
        entry.next_read(),
        ReadRequest::Matching { pattern: "7-*.JB".to_string(), polls: 10 }
    );
    let mut entry = TorqueJobEntry::new("/spool//3/7.m.SC/", "7.m", "c");
    assert_eq!(entry.next_read(), file("/spool//3", "7.m.SC", 100));
    assert_eq!(entry.supply_file(Ok(Vec::new())), Ok(()));
    assert_eq!(entry.supply_file(Ok(Vec::new())), Ok(()));
    assert_eq!(
        entry.next_read(),
        ReadRequest::Matching { pattern: "/spool//3/7-*.JB".to_string(), polls: 10 }
    );
}

#[test]
fn directory_and_name_agree_with_the_standard_library() {
    let paths = [
        "/spool/1/1.m.c.SC",
        "/spool/1/1.m.c.SC/",
        "/spool/1//1.m.c.SC",
        "/spool/1/./1.m.c.SC",
        "/spool/1/1.m.c.SC/.",
        "/spool/1/./1.m.c.SC//./",
        "/1.SC",
        "//1.SC",
        "/./1.SC",
        "1.SC",
        "./1.SC",
        "a/1.SC",
        "a//1.SC/",
        "a/./b/../1.SC",
        "../1.SC",
    ];
    for path in paths {
        let std_path = std::path::Path::new(path);
        let dir = std_path.parent().unwrap().to_str().unwrap();
        let name = std_path.file_name().unwrap().to_str().unwrap();
        let entry = TorqueJobEntry::new(path, "1", "c");
        assert_eq!(entry.next_read(), file(dir, name, 100), "path {:?}", path);
    }
}

#[test]
fn details_are_decoded_leniently() {
    let mut entry = TorqueJobEntry::new("/s/1.SC", "1", "c");
    assert_eq!(entry.supply_file(Ok(vec![0xff, b's'])), Ok(()));
    assert_eq!(entry.supply_file(Err(ReadError::Timeout)), Ok(()));
    assert_eq!(entry.supply_file(Ok(vec![b'<', 0xc0, b'>'])), Ok(()));
    assert_eq!(entry.script(), "\u{fffd}s");
    let mut expected = EnvMap::new();
    expected.insert("1.JB".to_string(), "<\u{fffd}>".to_string());
    assert_eq!(entry.extra_info(), Some(expected));
}

#[test]
fn watch_locations_with_and_without_subdirectories() {
    let mut torque = Torque::new("/var/spool/torque", "mycluster");
    assert_eq!(torque.base, "/var/spool/torque");
    assert_eq!(torque.cluster, "mycluster");
    assert!(!torque.subdirs);
    assert_eq!(torque.watch_locations(), vec!["/var/spool/torque".to_string()]);
    torque.subdirs = true;
    let locations = torque.watch_locations();
    assert_eq!(locations.len(), 10);
    for (i, location) in locations.iter().enumerate() {
        assert_eq!(location, &format!("/var/spool/torque/{}", i));
    }
}

#[test]
fn only_new_script_files_qualify() {
    let torque = Torque::new("/s", "c");
    let paths = ["/s/0/12.m.SC"];
    assert_eq!(
        torque.verify_event_kind(&event(EventKind::Create(CreateKind::File), &paths)),
        Some(vec!["/s/0/12.m.SC".to_string()])
    );
    for kind in [
        EventKind::Any,
        EventKind::Access,
        EventKind::Create(CreateKind::Any),
        EventKind::Create(CreateKind::Folder),
        EventKind::Create(CreateKind::Other),
        EventKind::Modify,
        EventKind::Remove,
        EventKind::Other,
    ] {
        assert_eq!(torque.verify_event_kind(&event(kind, &paths)), None);
    }
    let other = event(EventKind::Create(CreateKind::File), &["/s/0/12.m.JB"]);
    assert_eq!(torque.verify_event_kind(&other), None);
    assert_eq!(torque.verify_event_kind(&event(EventKind::Create(CreateKind::File), &[])), None);
}

#[test]
fn job_is_captured_only_while_its_script_is_there() {
    let torque = Torque::new("/s", "mycluster");
    let entry = torque.create_job_info("/s/0/12.m.SC", PathKind::File).unwrap();
    assert_eq!(entry.jobid(), "12.m");
    assert_eq!(entry.cluster(), "mycluster");
    assert_eq!(entry.next_read(), file("/s/0", "12.m.SC", 100));
    assert!(torque.create_job_info("/s/0/12.m.SC", PathKind::Other).is_none());
    assert!(torque.create_job_info("/s/0/12.m.JB", PathKind::File).is_none());
}

#[test]
fn created_scheduler_is_of_the_kind_asked_for() {
    match create(&SchedulerKind::Slurm, "/s", "c", &None, false) {
        Adapter::Slurm(s) => {
            assert_eq!(s.base, "/s");
            assert_eq!(s.cluster, "c");
            assert!(s.filter_regex.is_none());
        }
        _ => panic!("asked for the hash-spooled scheduler"),
    }
    match create(&SchedulerKind::Torque, "/t", "d", &None, false) {
        Adapter::Torque(t) => {
            assert_eq!(t.base, "/t");
            assert_eq!(t.cluster, "d");
            assert!(!t.subdirs);
        }
        _ => panic!("asked for the other scheduler"),
    }
    let with = create(&SchedulerKind::Torque, "/t", "d", &None, true);
    assert_eq!(with.watch_locations().len(), 10);
    let without = create(&SchedulerKind::Torque, "/t", "d", &None, false);
    assert_eq!(without.watch_locations(), vec!["/t".to_string()]);
    let slurm = create(&SchedulerKind::Slurm, "/s", "c", &None, true);
    assert_eq!(slurm.watch_locations()[3], "/s/hash.3");
}

#[test]
fn created_scheduler_captures_jobs_of_its_kind() {
    let slurm = create(&SchedulerKind::Slurm, "/s", "c", &None, false);
    match slurm.create_job_info("/s/hash.1/job.8", PathKind::Directory) {
        Some(JobEntry::Slurm(e)) => assert_eq!(e.jobid(), "8"),
        _ => panic!("a job directory stands for a job"),
    }
    assert!(slurm.create_job_info("/s/hash.1/8.SC", PathKind::File).is_none());
    let torque = create(&SchedulerKind::Torque, "/t", "c", &None, true);
    match torque.create_job_info("/t/1/8.SC", PathKind::File) {
        Some(mut job) => {
            assert_eq!(job.jobid(), "8");
            assert_eq!(job.cluster(), "c");
            assert_eq!(job.next_read(), file("/t/1", "8.SC", 100));
            assert_eq!(job.supply_file(Ok(b"s".to_vec())), Ok(()));
            assert_eq!(job.supply_file(Ok(b"t".to_vec())), Ok(()));
            job.supply_matches(vec![("8-1.JB".to_string(), b"j".to_vec())]);
            assert_eq!(job.next_read(), ReadRequest::Complete);
            assert_eq!(job.files().len(), 3);
            assert_eq!(job.script(), "s");
            assert_eq!(job.extra_info().unwrap().len(), 2);
        }
        None => panic!("a script file stands for a job"),
    }
    assert!(torque.create_job_info("/t/1/job.8", PathKind::Directory).is_none());
}

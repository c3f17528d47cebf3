use sarchive::archive::elastic::{
    delivery_of, index_answer, index_setup, request_text, response_status, ElasticArchive,
    ElasticArgs, IndexSetup, INDEX_MAPPING,
};
use sarchive::archive::message::JobMessage;
use sarchive::archive::{archive_builder, Archive, Archiver, Delivery, Sink, Submission};
use sarchive::processor::SinkError;
use sarchive::scheduler::slurm::SlurmJobEntry;

#[test]
fn server_address() {
    let archive = ElasticArchive::new("es.example.org", 9200, "jobs");
    assert_eq!(archive.url(), "http://es.example.org:9200");
    assert_eq!(archive.index(), "jobs");
    assert_eq!(ElasticArchive::new("h", 0, "i").url(), "http://h:0");
    assert_eq!(ElasticArchive::new("h", 65535, "i").url(), "http://h:65535");
    assert_eq!(ElasticArchive::new("h", 80, "i").url(), "http://h:80");
}

#[test]
fn requests_to_the_server() {
    let archive = ElasticArchive::new("es.example.org", 9200, "jobs");
    assert_eq!(archive.authority(), "es.example.org:9200");
    assert_eq!(
        archive.exists_request(),
        "HEAD /jobs HTTP/1.1\r\nHost: es.example.org:9200\r\nContent-Type: application/json\r\nContent-Length: 0\r\nConnection: close\r\n\r\n"
    );
    assert_eq!(
        archive.document_request("jobs", "{\"id\":\"\u{e9}\"}"),
        "POST /jobs/_doc HTTP/1.1\r\nHost: es.example.org:9200\r\nContent-Type: application/json\r\nContent-Length: 11\r\nConnection: close\r\n\r\n{\"id\":\"\u{e9}\"}"
    );
    let create = archive.create_request();
    assert!(create.starts_with("PUT /jobs HTTP/1.1\r\nHost: es.example.org:9200\r\n"));
    assert!(create.contains(&format!("\r\nContent-Length: {}\r\n", INDEX_MAPPING.len())));
    assert!(create.ends_with(&format!("\r\n\r\n{}", INDEX_MAPPING)));
    assert_eq!(
        request_text("GET", "/", "h:1", ""),
        "GET / HTTP/1.1\r\nHost: h:1\r\nContent-Type: application/json\r\nContent-Length: 0\r\nConnection: close\r\n\r\n"
    );
}

#[test]
fn status_of_an_answer() {
    assert_eq!(response_status("HTTP/1.1 200 OK\r\n\r\n{}"), Some(200));
    assert_eq!(response_status("HTTP/1.1 404 Not Found\r\n"), Some(404));
    assert_eq!(response_status("HTTP/1.0 201"), Some(201));
    assert_eq!(response_status("HTTP/1.1 999 x"), Some(999));
    assert_eq!(response_status("HTTP/1.1 000"), Some(0));
    assert_eq!(response_status("HTTP/1.1 20"), None);
    assert_eq!(response_status("HTTP/1.1 2x0 OK"), None);
    assert_eq!(response_status("HTTP/1.1  200 OK"), None);
    assert_eq!(response_status("HTTP/1.1"), None);
    assert_eq!(response_status(""), None);
    assert_eq!(response_status(" 503"), Some(503));
}

#[test]
fn build_takes_the_options() {
    let args = ElasticArgs { host: "localhost".to_string(), port: 9201, index: "x".to_string() };
    let archive = ElasticArchive::build(&args);
    assert_eq!(archive.url(), "http://localhost:9201");
    assert_eq!(archive.index(), "x");
    match archive_builder(&Archiver::Elastic(args)) {
        Sink::Elastic(a) => {
            assert_eq!(a.url(), "http://localhost:9201");
            assert_eq!(a.index(), "x");
        }
        _ => panic!("the search index options ask for the search index"),
    }
}

#[test]
fn status_says_whether_the_index_is_there() {
    assert_eq!(index_answer(Some(200)), Some(true));
    assert_eq!(index_answer(Some(404)), Some(false));
    for status in [None, Some(0), Some(199), Some(201), Some(204), Some(403), Some(500)] {
        assert_eq!(index_answer(status), None);
    }
}

#[test]
fn status_says_whether_the_document_was_taken() {
    for status in [200u16, 201, 204, 299] {
        assert_eq!(delivery_of(Some(status)), Delivery::Done);
    }
    for status in [None, Some(0), Some(199), Some(300), Some(404), Some(500), Some(u16::MAX)] {
        assert_eq!(delivery_of(status), Delivery::Failed);
    }
}

#[test]
fn mapping_names_the_members_of_a_document() {
    let mapping: serde_json::Value = serde_json::from_str(INDEX_MAPPING).unwrap();
    let message = JobMessage::new(
        "1".to_string(),
        "2024-03-15T10:00:00Z".to_string(),
        "c".to_string(),
        "s".to_string(),
        None,
    );
    let document: serde_json::Value = serde_json::from_str(&message.to_json().unwrap()).unwrap();
    let mapped = mapping["mappings"]["properties"].as_object().unwrap();
    let members = document.as_object().unwrap();
    assert_eq!(mapped.len(), members.len());
    for name in members.keys() {
        assert!(mapped.contains_key(name), "member {:?}", name);
    }
}

#[test]
fn index_is_made_only_where_it_is_missing() {
    assert_eq!(index_setup(Some(true)), IndexSetup::Ready);
    assert_eq!(index_setup(Some(false)), IndexSetup::Create);
    assert_eq!(index_setup(None), IndexSetup::Abort);
}

#[test]
fn mapping_is_json_with_the_fields_of_a_job() {
    let value: serde_json::Value = serde_json::from_str(INDEX_MAPPING).unwrap();
    assert_eq!(value["mappings"]["dynamic"], true);
    let job = &value["mappings"]["properties"];
    assert_eq!(job.as_object().unwrap().len(), 5);
    for field in ["id", "cluster", "script"] {
        assert_eq!(job[field]["type"], "text");
        assert_eq!(job[field]["fields"]["keyword"]["type"], "keyword");
        assert_eq!(job[field]["fields"]["keyword"]["ignore_above"], 256);
    }
    assert_eq!(job["timestamp"]["type"], "date");
    assert_eq!(job["environment"]["type"], "object");
    assert_eq!(job["environment"]["dynamic"], true);
}

#[test]
fn document_goes_to_the_index() {
    let archive = ElasticArchive::new("h", 9200, "jobs");
    let message = JobMessage::new(
        "1".to_string(),
        "t".to_string(),
        "c".to_string(),
        "s".to_string(),
        None,
    );
    match archive.plan(&message) {
        Ok(Submission::Document { index, payload }) => {
            assert_eq!(index, "jobs");
            assert_eq!(Ok(payload), message.to_json());
        }
        _ => panic!("the search index takes documents"),
    }
    let mut entry = SlurmJobEntry::new("/W/job.7", "7", "mycluster", &None);
    entry.set_script(b"echo hi".to_vec());
    match archive.archive(&entry) {
        Ok(Submission::Document { index, payload }) => {
            assert_eq!(index, "jobs");
            let value: serde_json::Value = serde_json::from_str(&payload).unwrap();
            assert_eq!(value["id"], "7");
            assert!(value["environment"].is_null());
        }
        _ => panic!("the search index takes documents"),
    }
}

#[test]
fn search_index_surfaces_what_could_not_be_put() {
    let archive = ElasticArchive::new("h", 9200, "jobs");
    assert_eq!(archive.settle(Delivery::Done), Ok(()));
    assert_eq!(archive.settle(Delivery::Failed), Err(SinkError::Transport));
}

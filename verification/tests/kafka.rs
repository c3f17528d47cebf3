use sarchive::archive::kafka::{
    parse_options, protocol_text, KafkaArchive, KafkaArgs, SecurityProtocol,
};
use sarchive::archive::message::{object_json, JobMessage};
use sarchive::archive::{archive_builder, Archive, Archiver, Delivery, Sink, Submission};
use sarchive::scheduler::job::{EnvMap, JobInfo};
use sarchive::scheduler::slurm::SlurmJobEntry;

fn pair(k: &str, v: &str) -> (String, String) {
    (k.to_string(), v.to_string())
}

#[test]
fn test_kafka_archive_new() {
    let brokers = "http://127.0.0.1:1234".to_string();
    let topic = "test_topic".to_string();
    let message_timeout = "5000".to_string();
    let security_protocol = SecurityProtocol::Plaintext;
    let ssl = None;
    let sasl = None;

    let kafka_archive =
        KafkaArchive::new(&brokers, &topic, &message_timeout, &security_protocol, &ssl, &sasl);

    // Assert that the KafkaArchive was created successfully
    assert_eq!(kafka_archive.topic(), topic);
}

#[test]
fn test_kafka_archive_build() {
    let brokers = "http://127.0.0.1:1234".to_string();
    let topic = "test_topic".to_string();
    let message_timeout = "5000".to_string();
    let security_protocol = SecurityProtocol::Plaintext;
    let ssl = None;
    let sasl = None;

    let kafka_args = KafkaArgs {
        brokers,
        topic: topic.clone(),
        message_timeout,
        security_protocol,
        ssl,
        sasl,
    };

    let kafka_archive = KafkaArchive::build(&kafka_args);

    // Assert that the KafkaArchive was built successfully
    assert_eq!(kafka_archive.topic(), topic);
}

#[test]
fn producer_properties_in_order() {
    let ssl = Some(vec![pair("ssl.ca.location", "/etc/ca.pem")]);
    let sasl = Some(vec![pair("sasl.username", "me"), pair("sasl.mechanism", "PLAIN")]);
    let archive = KafkaArchive::new(
        &"b1:9092,b2:9092".to_string(),
        &"sarchive".to_string(),
        &"5000".to_string(),
        &SecurityProtocol::Sasl_ssl,
        &ssl,
        &sasl,
    );
    assert_eq!(
        archive.properties(),
        &vec![
            pair("bootstrap.servers", "b1:9092,b2:9092"),
            pair("message.timeout.ms", "5000"),
            pair("security.protocol", "SASL_SSL"),
            pair("ssl.ca.location", "/etc/ca.pem"),
            pair("sasl.username", "me"),
            pair("sasl.mechanism", "PLAIN"),
        ]
    );
}

#[test]
fn protocol_names() {
    assert_eq!(protocol_text(&SecurityProtocol::Plaintext), "PLAINTEXT");
    assert_eq!(protocol_text(&SecurityProtocol::Ssl), "SSL");
    assert_eq!(protocol_text(&SecurityProtocol::Sasl_plaintext), "SASL_PLAINTEXT");
    assert_eq!(protocol_text(&SecurityProtocol::Sasl_ssl), "SASL_SSL");
}

#[test]
fn options_are_read_two_by_two() {
    assert_eq!(parse_options("a=b,c=d"), vec![pair("a", "b"), pair("c", "d")]);
    assert_eq!(parse_options("a=b"), vec![pair("a", "b")]);
    assert_eq!(parse_options(""), Vec::<(String, String)>::new());
    assert_eq!(parse_options("a"), Vec::<(String, String)>::new());
    assert_eq!(parse_options("a="), vec![pair("a", "")]);
}

#[test]
fn options_without_a_value_shift_what_follows() {
    assert_eq!(parse_options("a=b,c,d=e"), vec![pair("a", "b"), pair("c", "d")]);
    assert_eq!(parse_options("a,b"), vec![pair("a", "b")]);
    assert_eq!(parse_options("a=b=c"), vec![pair("a", "b")]);
}

#[test]
fn options_agree_with_splitting_and_pairing() {
    for s in ["k1=v1,k2=v2,k3=v3", "x", "x=", "=x", ",", "a=b,,c=d", "a==b", "a=b,c"] {
        let flat: Vec<&str> = s.split(',').flat_map(|p| p.split('=')).collect();
        let expected: Vec<(String, String)> =
            flat.chunks_exact(2).map(|c| pair(c[0], c[1])).collect();
        assert_eq!(parse_options(s), expected, "options {:?}", s);
    }
}

#[test]
fn build_reads_the_option_strings() {
    let args = KafkaArgs {
        brokers: "b:9092".to_string(),
        topic: "jobs".to_string(),
        message_timeout: "100".to_string(),
        security_protocol: SecurityProtocol::Ssl,
        ssl: Some("ssl.key.location=/k,ssl.certificate.location=/c".to_string()),
        sasl: None,
    };
    let archive = KafkaArchive::build(&args);
    assert_eq!(
        archive.properties(),
        &vec![
            pair("bootstrap.servers", "b:9092"),
            pair("message.timeout.ms", "100"),
            pair("security.protocol", "SSL"),
            pair("ssl.key.location", "/k"),
            pair("ssl.certificate.location", "/c"),
        ]
    );
    match archive_builder(&Archiver::Kafka(args)) {
        Sink::Kafka(a) => assert_eq!(a.properties(), archive.properties()),
        _ => panic!("the message bus options ask for the message bus"),
    }
}

#[test]
fn message_text_has_the_members_in_order() {
    let mut env = EnvMap::new();
    env.insert("HOME".to_string(), "/home/me".to_string());
    env.insert("QUOTE".to_string(), "say \"hi\"\n".to_string());
    let message = JobMessage::new(
        "1234".to_string(),
        "2024-03-15T10:00:00Z".to_string(),
        "mycluster".to_string(),
        "#!/bin/bash\necho \\o/\n".to_string(),
        Some(env),
    );
    assert_eq!(
        message.to_json(),
        Ok(concat_all(&[
            "{\"id\":\"1234\",\"timestamp\":\"2024-03-15T10:00:00Z\",\"cluster\":\"mycluster\",",
            "\"script\":\"#!/bin/bash\\necho \\\\o/\\n\",",
            "\"environment\":{\"HOME\":\"/home/me\",\"QUOTE\":\"say \\\"hi\\\"\\n\"}}",
        ]))
    );
}

fn concat_all(parts: &[&str]) -> String {
    parts.concat()
}

#[test]
fn message_text_without_details_has_null() {
    let message = JobMessage::new(
        "1".to_string(),
        "t".to_string(),
        "c".to_string(),
        "s".to_string(),
        None,
    );
    assert_eq!(
        message.to_json(),
        Ok("{\"id\":\"1\",\"timestamp\":\"t\",\"cluster\":\"c\",\"script\":\"s\",\"environment\":null}"
            .to_string())
    );
    assert_eq!(object_json(&EnvMap::new()), Some("{}".to_string()));
}

#[test]
fn message_text_is_json_that_reads_back() {
    let mut env = EnvMap::new();
    env.insert("A".to_string(), "1".to_string());
    env.insert("tab\there".to_string(), "\u{1F600} \u{0}".to_string());
    let message = JobMessage::new(
        "42".to_string(),
        "2024-03-15T10:00:00.5Z".to_string(),
        "cl".to_string(),
        "line1\nline2 \"quoted\" \\ \u{7f}".to_string(),
        Some(env),
    );
    let text = message.to_json().unwrap();
    let value: serde_json::Value = serde_json::from_str(&text).unwrap();
    assert_eq!(value["id"], "42");
    assert_eq!(value["timestamp"], "2024-03-15T10:00:00.5Z");
    assert_eq!(value["cluster"], "cl");
    assert_eq!(value["script"], "line1\nline2 \"quoted\" \\ \u{7f}");
    assert_eq!(value["environment"]["A"], "1");
    assert_eq!(value["environment"]["tab\there"], "\u{1F600} \u{0}");
    assert_eq!(value["environment"].as_object().unwrap().len(), 2);
}

#[test]
fn kafka_sends_the_message_of_a_job_to_its_topic() {
    let mut entry = SlurmJobEntry::new("/W/job.7", "7", "mycluster", &None);
    entry.set_script(b"echo hi".to_vec());
    entry.set_environment(b"\0\0\0\0A=1\0".to_vec());
    let archive = KafkaArchive::new(
        &"b:9092".to_string(),
        &"jobs".to_string(),
        &"5000".to_string(),
        &SecurityProtocol::Plaintext,
        &None,
        &None,
    );
    match archive.archive(&entry) {
        Ok(Submission::Message { topic, payload }) => {
            assert_eq!(topic, "jobs");
            let value: serde_json::Value = serde_json::from_str(&payload).unwrap();
            assert_eq!(value["id"], "7");
            assert_eq!(value["cluster"], "mycluster");
            assert_eq!(value["script"], "echo hi");
            assert_eq!(value["environment"]["A"], "1");
            let stamp = value["timestamp"].as_str().unwrap();
            assert!(chrono::DateTime::parse_from_rfc3339(stamp).is_ok());
            assert!(stamp.ends_with('Z'));
            let shape = regex::Regex::new(
                r"^\d{4}-\d{2}-\d{2}T\d{2}:\d{2}:\d{2}(\.\d{3}|\.\d{6}|\.\d{9})?Z$",
            )
            .unwrap();
            assert!(shape.is_match(stamp), "timestamp {:?}", stamp);
        }
        _ => panic!("the message bus takes messages"),
    }
}

#[test]
fn kafka_takes_a_failed_delivery_for_done() {
    let archive = KafkaArchive::new(
        &"b:9092".to_string(),
        &"jobs".to_string(),
        &"5000".to_string(),
        &SecurityProtocol::Plaintext,
        &None,
        &None,
    );
    assert_eq!(archive.settle(Delivery::Done), Ok(()));
    assert_eq!(archive.settle(Delivery::Failed), Ok(()));
}

#[test]
fn message_of_a_job_takes_what_the_job_gives() {
    let mut entry = SlurmJobEntry::new("/W/job.7", "7", "mycluster", &None);
    entry.set_script(b"echo hi".to_vec());
    let message = JobMessage::of(&entry, "now".to_string());
    assert_eq!(message.id, entry.jobid());
    assert_eq!(message.timestamp, "now");
    assert_eq!(message.cluster, "mycluster");
    assert_eq!(message.script, "echo hi");
    assert_eq!(message.environment, None);
}

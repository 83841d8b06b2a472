//! The conversion pipeline's state machine and the origin estimation.

use shapegraph::convert::log_key;
use shapegraph::convert::source_key;
use shapegraph::convert::status_json;
use shapegraph::convert::ConversionJob;
use shapegraph::convert::JobAction;
use shapegraph::convert::JobPhase;
use shapegraph::convert::ProgressRecord;
use shapegraph::eval::evaluate;
use shapegraph::glb::glb_container;
use shapegraph::glb::pad4;
use shapegraph::graph::ShapeNode;
use shapegraph::graph::StepNode;
use shapegraph::hashing::content_hash;
use shapegraph::origin::origin_from_parts;
use shapegraph::store::ByteMap;

fn assert_monotone(job: &ConversionJob) {
    let mut last = 0u32;
    for rec in job.history.iter() {
        assert!(rec.progress >= last, "progress regressed");
        last = rec.progress;
    }
}

#[test]
fn conversion_success_runs_to_one_hundred() {
    let mut job = ConversionJob::new("job1".to_string(), None);
    assert!(matches!(job.phase, JobPhase::Created));

    let action = job.start_execute(1);
    match action {
        JobAction::FetchSource(key) => assert_eq!(key, "_/job1.step"),
        _ => panic!("expected a fetch"),
    }

    let data = b"solid model".to_vec();
    let action = job.on_downloaded(2, &data);
    assert!(matches!(action, JobAction::StartConvert));
    assert_eq!(job.content_hash.as_deref(), Some(content_hash(&data).as_str()));

    let p1 = job.on_heartbeat(3);
    let p2 = job.on_heartbeat(4);
    assert_eq!(p1, 21);
    assert_eq!(p2, 22);

    let action = job.on_converted(5);
    assert!(matches!(action, JobAction::WriteSolid));

    let action = job.on_written(6);
    match action {
        JobAction::PublishArtifacts(h) => assert_eq!(h, content_hash(&data)),
        _ => panic!("expected a publish"),
    }

    job.on_published(7);
    assert!(matches!(job.phase, JobPhase::Done));
    assert_monotone(&job);
    assert_eq!(job.history.last().unwrap().progress, 100);
}

#[test]
fn conversion_integrity_mismatch_fails_before_convert() {
    // A declared content hash that the bytes do not match fails the job at
    // once; no conversion is ever started.
    let expected = "0".repeat(64);
    let mut job = ConversionJob::new("job2".to_string(), Some(expected));
    job.start_execute(1);

    let data = b"some other payload".to_vec();
    let action = job.on_downloaded(2, &data);
    assert!(matches!(action, JobAction::Halt));
    assert!(matches!(job.phase, JobPhase::Failed));
    assert_eq!(job.history.last().unwrap().progress, 101);
    assert!(job
        .history
        .last()
        .unwrap()
        .message
        .contains("mismatch"));
    assert_monotone(&job);
}

#[test]
fn conversion_matching_expected_hash_proceeds() {
    let data = b"genuine payload".to_vec();
    let mut job = ConversionJob::new("job3".to_string(), Some(content_hash(&data)));
    job.start_execute(1);
    let action = job.on_downloaded(2, &data);
    assert!(matches!(action, JobAction::StartConvert));
    assert!(matches!(job.phase, JobPhase::Converting));
}

#[test]
fn heartbeat_progress_is_capped_below_next_milestone() {
    let mut job = ConversionJob::new("job4".to_string(), None);
    job.start_execute(1);
    job.on_downloaded(2, &b"x".to_vec());

    let mut last = 20u32;
    for i in 0..60 {
        let p = job.on_heartbeat(3 + i);
        assert!(p >= last);
        assert!(p <= 69, "heartbeat must stay below the next milestone");
        last = p;
    }
    assert_eq!(last, 69);
    assert_monotone(&job);
}

#[test]
fn failure_records_terminal_progress() {
    let mut job = ConversionJob::new("job5".to_string(), None);
    job.start_execute(1);
    job.on_downloaded(2, &b"x".to_vec());
    job.on_step_failed(3, "STEP読み込み失敗".to_string());

    assert!(matches!(job.phase, JobPhase::Failed));
    let last = job.history.last().unwrap();
    assert_eq!(last.progress, 101);
    assert_eq!(last.message, "STEP読み込み失敗");
    assert_monotone(&job);
    assert!(job.history.iter().all(|r| r.progress != 100));
}

#[test]
fn latest_record_reflects_the_last_write() {
    let mut job = ConversionJob::new("job6".to_string(), None);
    assert!(job.latest_record().is_none());
    job.start_execute(9);
    let rec = job.latest_record().unwrap();
    assert_eq!(rec.timestamp, 9);
    assert_eq!(rec.progress, 1);
}

#[test]
fn job_keys_follow_the_bucket_layout() {
    let id = "3fa8".to_string();
    assert_eq!(source_key(&id), "_/3fa8.step");
    assert_eq!(log_key(&id), "_/3fa8.log");
}

#[test]
fn status_json_is_exact() {
    let rec = ProgressRecord {
        timestamp: 5,
        progress: 100,
        message: "done".to_string(),
    };
    let bytes = status_json(&rec);
    assert_eq!(
        String::from_utf8(bytes).unwrap(),
        "{\"timestamp\":5,\"progress\":100,\"message\":\"done\"}"
    );
}

#[test]
fn status_json_escapes_the_message() {
    let rec = ProgressRecord {
        timestamp: -3,
        progress: 101,
        message: "bad \"input\"\n".to_string(),
    };
    let bytes = status_json(&rec);
    assert_eq!(
        String::from_utf8(bytes).unwrap(),
        "{\"timestamp\":-3,\"progress\":101,\"message\":\"bad \\\"input\\\"\\n\"}"
    );
}

fn some_bytes(s: &str) -> Option<Vec<u8>> {
    Some(s.as_bytes().to_vec())
}

fn origin_text(r: Option<Vec<u8>>) -> String {
    String::from_utf8(r.unwrap()).unwrap()
}

#[test]
fn origin_prefers_the_authority() {
    let r = origin_from_parts(
        some_bytes("example.com:8080"),
        some_bytes("host=ignored.example"),
        None,
        None,
        None,
        None,
    );
    assert_eq!(origin_text(r), "https://example.com:8080");
}

#[test]
fn origin_reads_the_forwarding_header() {
    let r = origin_from_parts(
        None,
        some_bytes("for=192.0.2.60;proto=HTTP;host=example.com"),
        None,
        None,
        None,
        None,
    );
    assert_eq!(origin_text(r), "http://example.com");
}

#[test]
fn origin_unquotes_forwarded_values() {
    let r = origin_from_parts(
        None,
        some_bytes("host=\"app.example.com\"; proto=\"https\""),
        None,
        None,
        None,
        None,
    );
    assert_eq!(origin_text(r), "https://app.example.com");
}

#[test]
fn origin_uses_only_the_first_forwarded_element() {
    let r = origin_from_parts(
        None,
        some_bytes("host=first.example, host=second.example"),
        None,
        None,
        None,
        None,
    );
    assert_eq!(origin_text(r), "https://first.example");
}

#[test]
fn origin_appends_the_forwarded_port() {
    let r = origin_from_parts(
        None,
        None,
        some_bytes("app.example.com"),
        some_bytes(" 8443 "),
        some_bytes("HTTPS"),
        None,
    );
    assert_eq!(origin_text(r), "https://app.example.com:8443");
}

#[test]
fn origin_keeps_an_existing_port() {
    let r = origin_from_parts(
        None,
        None,
        some_bytes("app.example.com:9000"),
        some_bytes("8443"),
        None,
        None,
    );
    assert_eq!(origin_text(r), "https://app.example.com:9000");
}

#[test]
fn origin_guesses_plain_scheme_for_loopback() {
    let r = origin_from_parts(None, None, None, None, None, some_bytes("localhost:3000"));
    assert_eq!(origin_text(r), "http://localhost:3000");

    let r = origin_from_parts(None, None, None, None, None, some_bytes("127.0.0.1"));
    assert_eq!(origin_text(r), "http://127.0.0.1");

    let r = origin_from_parts(None, None, None, None, None, some_bytes("example.net"));
    assert_eq!(origin_text(r), "https://example.net");
}

#[test]
fn origin_without_any_source_is_none() {
    assert!(origin_from_parts(None, None, None, None, None, None).is_none());
    let r = origin_from_parts(None, None, None, None, None, some_bytes("   "));
    assert!(r.is_none());
}

#[test]
fn end_to_end_upload_execute_leaf_scene() {
    // Upload a source, run the conversion to completion, then use the
    // published content hash as a leaf of a pass-through graph and frame
    // the evaluated payload: the scene document opens with the magic and
    // declares version two.
    let source = b"ISO-10303-21; pretend solid".to_vec();

    // The conversion pipeline publishes under the content hash.
    let mut job = ConversionJob::new("upload-1".to_string(), None);
    job.start_execute(1);
    assert!(matches!(job.on_downloaded(2, &source), JobAction::StartConvert));
    job.on_converted(3);
    let published = match job.on_written(4) {
        JobAction::PublishArtifacts(h) => h,
        _ => panic!("expected a publish"),
    };
    job.on_published(5);
    assert_eq!(job.history.last().unwrap().progress, 100);
    assert_eq!(published, content_hash(&source));

    // The published solid resolves a leaf referencing that hash.
    let mut store = ByteMap::new();
    store.insert(published.clone(), source.clone());
    let node = ShapeNode::Step(StepNode {
        path: published,
        content_hash: None,
    });
    let payload = evaluate(&node, &mut store).ok().unwrap();
    assert_eq!(payload, source);

    // Framing the result yields a well-formed scene container.
    let mut json = b"{}".to_vec();
    pad4(&mut json, b' ');
    let mut bin = payload;
    pad4(&mut bin, 0);
    let glb = glb_container(&json, &bin).ok().unwrap();
    assert_eq!(&glb[0..4], b"glTF");
    assert_eq!(u32::from_le_bytes(glb[4..8].try_into().unwrap()), 2);
}

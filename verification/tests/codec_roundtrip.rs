use jobqueue::codec::{decode_job, encode_job};
use jobqueue::job::{JobStatus, QueueJob};

fn assert_same_record(a: &QueueJob, b: &QueueJob) {
    assert_eq!(a.id, b.id);
    assert_eq!(a.payload, b.payload);
    assert_eq!(a.status, b.status);
    assert_eq!(a.attempts, b.attempts);
    assert_eq!(a.max_retries, b.max_retries);
    assert_eq!(a.timeout_ms, b.timeout_ms);
    assert_eq!(a.backoff_ms, b.backoff_ms);
    assert_eq!(a.created_at, b.created_at);
    assert_eq!(a.updated_at, b.updated_at);
    assert_eq!(a.error, b.error);
}

#[test]
fn roundtrip_fresh_record() {
    let job = QueueJob::new(b"hello world".to_vec(), 3, 60000);
    let bytes = encode_job(&job);
    let back = decode_job(&bytes).expect("a record the queue wrote must decode");
    assert_same_record(&job, &back);
}

#[test]
fn roundtrip_failed_record_with_message() {
    let mut job = QueueJob::new(vec![0, 1, 2, 255], 5, 1000).with_id("abc-123".to_string());
    job.begin_attempt(1111);
    job.mark_failed("handler exploded: Ω".to_string(), 2222);
    let bytes = encode_job(&job);
    let back = decode_job(&bytes).expect("decode");
    assert_same_record(&job, &back);
    assert_eq!(back.status, JobStatus::Failed);
    assert_eq!(back.error.as_deref(), Some("handler exploded: Ω"));
}

#[test]
fn roundtrip_empty_payload_and_empty_id() {
    let job = QueueJob::new(Vec::new(), 0, 0).with_id(String::new());
    let bytes = encode_job(&job);
    let back = decode_job(&bytes).expect("decode");
    assert_same_record(&job, &back);
}

#[test]
fn roundtrip_negative_timestamps() {
    let mut job = QueueJob::new(b"t".to_vec(), 1, 1);
    job.created_at = -1;
    job.updated_at = i64::MIN;
    let bytes = encode_job(&job);
    let back = decode_job(&bytes).expect("decode");
    assert_same_record(&job, &back);
}

#[test]
fn roundtrip_every_status() {
    let statuses = vec![
        JobStatus::Waiting,
        JobStatus::Processing,
        JobStatus::Completed,
        JobStatus::Failed,
        JobStatus::Retrying,
    ];
    for st in statuses {
        let mut job = QueueJob::new(b"s".to_vec(), 1, 1);
        job.status = st;
        let back = decode_job(&encode_job(&job)).expect("decode");
        assert_eq!(back.status, st);
    }
}

#[test]
fn decode_rejects_empty_input() {
    assert!(decode_job(&[]).is_none());
}

#[test]
fn decode_rejects_garbage() {
    let garbage = vec![7u8; 100];
    assert!(decode_job(&garbage).is_none());
}

#[test]
fn decode_rejects_truncated_record() {
    let job = QueueJob::new(b"truncate me".to_vec(), 3, 60000);
    let bytes = encode_job(&job);
    let cut = &bytes[..bytes.len() - 1];
    assert!(decode_job(cut).is_none());
}

#[test]
fn encoding_differs_for_different_payloads() {
    let a = QueueJob::new(b"a".to_vec(), 1, 1).with_id("same".to_string());
    let b = QueueJob::new(b"b".to_vec(), 1, 1).with_id("same".to_string());
    let mut a = a;
    let mut b = b;
    a.created_at = 0;
    a.updated_at = 0;
    b.created_at = 0;
    b.updated_at = 0;
    assert_ne!(encode_job(&a), encode_job(&b));
}

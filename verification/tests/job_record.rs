use jobqueue::job::{JobResult, JobStatus, QueueJob};

#[test]
fn new_job_has_fresh_metadata() {
    let job = QueueJob::new(b"payload".to_vec(), 3, 60000);
    assert_eq!(job.payload, b"payload".to_vec());
    assert_eq!(job.status, JobStatus::Waiting);
    assert_eq!(job.attempts, 0);
    assert_eq!(job.max_retries, 3);
    assert_eq!(job.timeout_ms, 60000);
    assert_eq!(job.backoff_ms, 2000);
    assert_eq!(job.error, None);
    assert_eq!(job.created_at, job.updated_at);
}

#[test]
fn generated_id_is_36_ascii_chars() {
    let job = QueueJob::new(Vec::new(), 1, 1000);
    assert_eq!(job.id.chars().count(), 36);
    assert!(job.id.is_ascii());
}

#[test]
fn generated_ids_differ() {
    let a = QueueJob::new(Vec::new(), 1, 1000);
    let b = QueueJob::new(Vec::new(), 1, 1000);
    assert_ne!(a.id, b.id);
}

#[test]
fn builders_replace_single_fields() {
    let job = QueueJob::new(b"x".to_vec(), 2, 500)
        .with_id("job-1".to_string())
        .with_timeout(1234)
        .with_backoff_delay(10);
    assert_eq!(job.id, "job-1");
    assert_eq!(job.timeout_ms, 1234);
    assert_eq!(job.backoff_ms, 10);
    assert_eq!(job.max_retries, 2);
}

#[test]
fn can_retry_compares_attempts_to_ceiling() {
    let mut job = QueueJob::new(Vec::new(), 2, 1000);
    assert!(job.can_retry());
    job.increment_retry(50);
    assert!(job.can_retry());
    job.increment_retry(60);
    assert!(!job.can_retry());
    assert_eq!(job.attempts, 2);
    assert_eq!(job.status, JobStatus::Retrying);
    assert_eq!(job.updated_at, 60);
}

#[test]
fn begin_attempt_counts_and_marks_processing() {
    let mut job = QueueJob::new(Vec::new(), 2, 1000);
    job.begin_attempt(99);
    assert_eq!(job.attempts, 1);
    assert_eq!(job.status, JobStatus::Processing);
    assert_eq!(job.updated_at, 99);
}

#[test]
fn transitions_set_status_and_timestamp() {
    let mut job = QueueJob::new(Vec::new(), 1, 1000);
    job.mark_processing(10);
    assert_eq!(job.status, JobStatus::Processing);
    assert_eq!(job.updated_at, 10);
    job.mark_completed(20);
    assert_eq!(job.status, JobStatus::Completed);
    assert_eq!(job.updated_at, 20);
    job.mark_failed("boom".to_string(), 30);
    assert_eq!(job.status, JobStatus::Failed);
    assert_eq!(job.error, Some("boom".to_string()));
    assert_eq!(job.updated_at, 30);
}

#[test]
fn calculate_backoff_doubles_per_attempt() {
    let mut job = QueueJob::new(Vec::new(), 10, 1000);
    assert_eq!(job.calculate_backoff(), 2000);
    job.increment_retry(1);
    assert_eq!(job.calculate_backoff(), 4000);
    job.increment_retry(2);
    assert_eq!(job.calculate_backoff(), 8000);
}

#[test]
fn job_result_success_and_failure() {
    let ok = JobResult::success("id-1".to_string(), 42);
    assert_eq!(ok.job_id, "id-1");
    assert_eq!(ok.status, JobStatus::Completed);
    assert_eq!(ok.result, Some(42));
    assert_eq!(ok.error, None);

    let bad: JobResult<i32> = JobResult::failed("id-2".to_string(), "oops".to_string());
    assert_eq!(bad.job_id, "id-2");
    assert_eq!(bad.status, JobStatus::Failed);
    assert_eq!(bad.result, None);
    assert_eq!(bad.error, Some("oops".to_string()));
}

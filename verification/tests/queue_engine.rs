use jobqueue::errors::QueueError;
use jobqueue::job::JobStatus;
use jobqueue::service::{QueueConfig, QueueManager, QueueService, RetryDecision};
use jobqueue::store::MemStore;

fn queue(remove_on_success: bool, remove_on_failure: bool, max_retries: u32) -> QueueService {
    let mut config = QueueConfig::new("redis://localhost:6379/0".to_string(), "test".to_string());
    config.remove_on_success = remove_on_success;
    config.remove_on_failure = remove_on_failure;
    let manager = QueueManager::init(config);
    manager.create_queue("email", max_retries)
}

#[test]
fn enqueue_then_first_attempt_success_yields_completed_result() {
    // Archival on, so the finished record stays readable.
    let q = queue(false, false, 3);
    let mut store = MemStore::new();
    let id = q.add_to_queue(&mut store, b"send welcome mail".to_vec()).expect("enqueue");

    let job = q.claim_next(&mut store, 100).expect("claim").expect("a job is waiting");
    assert_eq!(job.id, id);
    assert_eq!(job.attempts, 1);
    assert_eq!(job.status, JobStatus::Processing);
    assert_eq!(job.payload, b"send welcome mail".to_vec());

    q.handle_success(&mut store, job, 101).expect("settle");

    let result = q.get_job_result(&store, &id).expect("result is terminal");
    assert_eq!(result.status, JobStatus::Completed);
    assert_eq!(result.job_id, id);
    assert_eq!(result.error, None);

    let stats = q.get_stats(&store).expect("stats");
    assert_eq!(stats.waiting, 0);
    assert_eq!(stats.processing, 0);
    assert_eq!(stats.succeeded, 1);
    assert_eq!(stats.failed, 0);
}

#[test]
fn default_config_deletes_record_on_success() {
    let q = queue(true, false, 3);
    let mut store = MemStore::new();
    let id = q.add_to_queue(&mut store, b"fire and forget".to_vec()).expect("enqueue");
    let job = q.claim_next(&mut store, 5).expect("claim").expect("job");
    q.handle_success(&mut store, job, 6).expect("settle");
    assert_eq!(q.get_job_result(&store, &id).unwrap_err(), QueueError::NotFound);
    let stats = q.get_stats(&store).expect("stats");
    assert_eq!(stats.succeeded, 0);
    assert_eq!(stats.waiting, 0);
    assert_eq!(stats.processing, 0);
}

#[test]
fn failing_twice_then_succeeding_counts_three_attempts() {
    let q = queue(false, false, 5);
    let mut store = MemStore::new();
    let id = q.add_to_queue(&mut store, b"flaky".to_vec()).expect("enqueue");

    for round in 0..2i64 {
        let job = q.claim_next(&mut store, 10 + round).expect("claim").expect("job");
        match q
            .handle_failure(&mut store, job, "transient".to_string(), 20 + round)
            .expect("settle")
        {
            RetryDecision::Retry { job, delay_ms } => {
                assert_eq!(delay_ms, 2000u64 << round as u32);
                assert_eq!(job.status, JobStatus::Retrying);
                q.requeue(&mut store, &job).expect("requeue");
            }
            RetryDecision::Exhausted => panic!("retries were left"),
        }
    }

    let job = q.claim_next(&mut store, 30).expect("claim").expect("job");
    assert_eq!(job.attempts, 3);
    q.handle_success(&mut store, job, 31).expect("settle");

    let result = q.get_job_result(&store, &id).expect("terminal");
    assert_eq!(result.status, JobStatus::Completed);
    let back = q.get_job(&store, &id).expect("lookup").expect("record kept");
    assert_eq!(back.attempts, 3);
}

#[test]
fn always_failing_job_ends_failed_and_leaves_both_lists() {
    // The scenario: max_retries = 2, every attempt errors. Archival on.
    let q = queue(false, false, 2);
    let mut store = MemStore::new();
    let id = q.add_to_queue(&mut store, b"doomed".to_vec()).expect("enqueue");

    let job = q.claim_next(&mut store, 1).expect("claim").expect("job");
    assert_eq!(job.attempts, 1);
    let job = match q.handle_failure(&mut store, job, "err 1".to_string(), 2).expect("settle") {
        RetryDecision::Retry { job, .. } => job,
        RetryDecision::Exhausted => panic!("one retry is left"),
    };
    q.requeue(&mut store, &job).expect("requeue");

    let job = q.claim_next(&mut store, 3).expect("claim").expect("job");
    assert_eq!(job.attempts, 2);
    match q.handle_failure(&mut store, job, "err 2".to_string(), 4).expect("settle") {
        RetryDecision::Retry { .. } => panic!("retries are exhausted"),
        RetryDecision::Exhausted => {}
    }

    let stats = q.get_stats(&store).expect("stats");
    assert_eq!(stats.waiting, 0);
    assert_eq!(stats.processing, 0);
    assert_eq!(stats.failed, 1);

    let record = q.get_job(&store, &id).expect("lookup").expect("archived record");
    assert_eq!(record.status, JobStatus::Failed);
    assert_eq!(record.attempts, 2);
    assert_eq!(record.error, Some("err 2".to_string()));

    let result = q.get_job_result(&store, &id).expect("terminal");
    assert_eq!(result.status, JobStatus::Failed);
    assert_eq!(result.error, Some("err 2".to_string()));

    // Nothing is waiting: the job is never re-enqueued.
    assert!(q.claim_next(&mut store, 5).expect("claim").is_none());
}

#[test]
fn exhausted_job_record_is_deleted_when_archival_off() {
    let q = queue(true, true, 1);
    let mut store = MemStore::new();
    let id = q.add_to_queue(&mut store, b"gone".to_vec()).expect("enqueue");
    let job = q.claim_next(&mut store, 1).expect("claim").expect("job");
    match q.handle_failure(&mut store, job, "fatal".to_string(), 2).expect("settle") {
        RetryDecision::Retry { .. } => panic!("no retries configured"),
        RetryDecision::Exhausted => {}
    }
    assert_eq!(q.get_job_result(&store, &id).unwrap_err(), QueueError::NotFound);
    let stats = q.get_stats(&store).expect("stats");
    assert_eq!(stats.failed, 0);
}

#[test]
fn three_jobs_complete_in_fifo_order() {
    let q = queue(true, false, 3);
    let mut store = MemStore::new();
    q.add_to_queue(&mut store, b"A".to_vec()).expect("enqueue A");
    q.add_to_queue(&mut store, b"B".to_vec()).expect("enqueue B");
    q.add_to_queue(&mut store, b"C".to_vec()).expect("enqueue C");

    let mut completed: Vec<Vec<u8>> = Vec::new();
    loop {
        match q.claim_next(&mut store, 7).expect("claim") {
            None => break,
            Some(job) => {
                completed.push(job.payload.clone());
                q.handle_success(&mut store, job, 8).expect("settle");
            }
        }
    }
    assert_eq!(completed, vec![b"A".to_vec(), b"B".to_vec(), b"C".to_vec()]);
}

#[test]
fn unreachable_store_rejects_enqueue_immediately() {
    let q = queue(true, false, 3);
    let mut store = MemStore::new();
    store.set_available(false);
    assert_eq!(
        q.add_to_queue(&mut store, b"nope".to_vec()),
        Err(QueueError::StoreUnavailable)
    );
    assert_eq!(q.get_stats(&store), Err(QueueError::StoreUnavailable));
    assert_eq!(q.claim_next(&mut store, 1).unwrap_err(), QueueError::StoreUnavailable);

    // Back up: the same queue works again.
    store.set_available(true);
    assert!(q.add_to_queue(&mut store, b"yes".to_vec()).is_ok());
    assert_eq!(q.get_stats(&store).expect("stats").waiting, 1);
}

#[test]
fn timed_out_handler_retries_with_error_recorded() {
    let q = queue(false, false, 2);
    let mut store = MemStore::new();
    let id = q.add_to_queue(&mut store, b"slow".to_vec()).expect("enqueue");

    let job = q.claim_next(&mut store, 1).expect("claim").expect("job");
    let timeout_msg = format!("handler timed out after {} ms", job.timeout_ms);
    let job = match q.handle_failure(&mut store, job, timeout_msg.clone(), 2).expect("settle") {
        RetryDecision::Retry { job, delay_ms } => {
            assert_eq!(delay_ms, 2000);
            job
        }
        RetryDecision::Exhausted => panic!("one retry is left"),
    };
    q.requeue(&mut store, &job).expect("requeue");

    let record = q.get_job(&store, &id).expect("lookup").expect("record");
    assert_eq!(record.status, JobStatus::Retrying);
    assert_eq!(record.error, Some(timeout_msg.clone()));

    // It times out again: retries are exhausted, the failure is terminal.
    let job = q.claim_next(&mut store, 3).expect("claim").expect("job");
    match q.handle_failure(&mut store, job, timeout_msg.clone(), 4).expect("settle") {
        RetryDecision::Retry { .. } => panic!("retries are exhausted"),
        RetryDecision::Exhausted => {}
    }
    let result = q.get_job_result(&store, &id).expect("terminal");
    assert_eq!(result.status, JobStatus::Failed);
    assert_eq!(result.error, Some(timeout_msg));
}

#[test]
fn stats_track_lists_through_the_lifecycle() {
    let q = queue(false, false, 3);
    let mut store = MemStore::new();
    let stats = q.get_stats(&store).expect("stats");
    assert_eq!((stats.waiting, stats.processing, stats.succeeded, stats.failed), (0, 0, 0, 0));

    q.add_to_queue(&mut store, b"one".to_vec()).expect("enqueue");
    q.add_to_queue(&mut store, b"two".to_vec()).expect("enqueue");
    let stats = q.get_stats(&store).expect("stats");
    assert_eq!((stats.waiting, stats.processing, stats.succeeded, stats.failed), (2, 0, 0, 0));

    let job = q.claim_next(&mut store, 1).expect("claim").expect("job");
    let stats = q.get_stats(&store).expect("stats");
    // The claimed job is in processing and no longer waiting: never both.
    assert_eq!((stats.waiting, stats.processing, stats.succeeded, stats.failed), (1, 1, 0, 0));

    q.handle_success(&mut store, job, 2).expect("settle");
    let stats = q.get_stats(&store).expect("stats");
    assert_eq!((stats.waiting, stats.processing, stats.succeeded, stats.failed), (1, 0, 1, 0));
}

#[test]
fn pending_job_result_is_a_timeout_and_unknown_id_not_found() {
    let q = queue(true, false, 3);
    let mut store = MemStore::new();
    let id = q.add_to_queue(&mut store, b"pending".to_vec()).expect("enqueue");
    assert_eq!(q.get_job_result(&store, &id).unwrap_err(), QueueError::Timeout);
    assert_eq!(q.get_job_result(&store, "no-such-id").unwrap_err(), QueueError::NotFound);
    assert!(q.get_job(&store, "no-such-id").expect("lookup").is_none());
}

use upload_worker::config::{EnvValues, WorkerConfig};
use upload_worker::job::FileUploadJob;
use upload_worker::lock::DistributedLock;
use upload_worker::supervisor::{DlqTickResult, MainWorker, TickResult};
use upload_worker::worker::{ProcessResult, TransferOutcome};
use upload_worker::dlq::RecoveryOutcome;

fn config() -> WorkerConfig {
    let ev = EnvValues {
        background_worker_thread_enabled: Some("true".to_string()),
        background_worker_consumer_thread_count: None,
        worker_consumer_wait_interval_in_milliseconds: None,
        worker_consumer_max_retry: Some("3".to_string()),
        file_upload_worker_dlq_thread_enabled: Some("true".to_string()),
        file_upload_worker_dlq_thread_count: None,
        file_upload_worker_dlq_wait_interval_in_milliseconds: None,
        redis_url: None,
        worker_upload_file_queue: None,
        worker_upload_file_dlq: None,
        worker_lock_timeout_seconds: None,
        worker_lock_retry_interval_milliseconds: None,
        worker_graceful_shutdown_timeout_seconds: None,
    };
    WorkerConfig::from_env_values(ev).unwrap()
}

fn job(entity: &str, url: &str) -> FileUploadJob {
    FileUploadJob::new(
        entity.to_string(),
        url.to_string(),
        "doc".to_string(),
        "pdf".to_string(),
        Vec::new(),
    )
}

#[test]
fn happy_path_commits_once() {
    let mut mw = MainWorker::new(config());
    let (upload_pool, dlq_pool) = mw.start();
    assert!(upload_pool);
    assert!(dlq_pool);
    mw.queue.enqueue_job(&job("E1", "http://ok/1"));
    let r = mw.upload_tick(&TransferOutcome::Done);
    assert!(matches!(r, TickResult::Processed(ProcessResult::Committed)));
    assert_eq!(mw.metrics.jobs_processed, 1);
    assert_eq!(mw.metrics.jobs_succeeded, 1);
    assert_eq!(mw.queue.get_queue_length(), 0);
    assert_eq!(mw.queue.get_dlq_length(), 0);
}

#[test]
fn transient_failure_retries_then_commits() {
    let mut mw = MainWorker::new(config());
    mw.queue.enqueue_job(&job("E2", "http://ok/flaky"));
    let failing = TransferOutcome::Failed("transfer refused".to_string());
    let r1 = mw.upload_tick(&failing);
    match r1 {
        TickResult::Processed(ProcessResult::Retried(j)) => assert_eq!(j.retry_count, 1),
        _ => panic!("the first failure must re-enqueue"),
    }
    let r2 = mw.upload_tick(&failing);
    match r2 {
        TickResult::Processed(ProcessResult::Retried(j)) => assert_eq!(j.retry_count, 2),
        _ => panic!("the second failure must re-enqueue"),
    }
    let r3 = mw.upload_tick(&TransferOutcome::Done);
    assert!(matches!(r3, TickResult::Processed(ProcessResult::Committed)));
    assert_eq!(mw.metrics.jobs_processed, 3);
    assert_eq!(mw.metrics.jobs_succeeded, 1);
    assert_eq!(mw.metrics.general_errors, 2);
    assert_eq!(mw.queue.get_queue_length(), 0);
    assert_eq!(mw.queue.get_dlq_length(), 0);
}

#[test]
fn exhausted_retries_reach_the_dead_letter_queue() {
    let mut mw = MainWorker::new(config());
    mw.queue.enqueue_job(&job("E2", "http://ok/flaky"));
    let failing = TransferOutcome::Failed("transfer refused".to_string());
    assert!(matches!(
        mw.upload_tick(&failing),
        TickResult::Processed(ProcessResult::Retried(_))
    ));
    assert!(matches!(
        mw.upload_tick(&failing),
        TickResult::Processed(ProcessResult::Retried(_))
    ));
    match mw.upload_tick(&failing) {
        TickResult::Processed(ProcessResult::MovedToDlqExhausted(j)) => {
            assert_eq!(j.retry_count, 3)
        }
        _ => panic!("the third failure must dead-letter"),
    }
    assert_eq!(mw.queue.get_dlq_length(), 1);
    assert_eq!(mw.queue.get_queue_length(), 0);
    assert_eq!(mw.metrics.jobs_moved_to_dlq, 1);
    assert_eq!(mw.metrics.general_errors, 3);
    assert_eq!(mw.metrics.jobs_processed, 3);
}

#[test]
fn expired_url_dead_letters_on_first_attempt() {
    let mut mw = MainWorker::new(config());
    mw.queue.enqueue_job(&job("E4", "http://host/expired/doc"));
    let r = mw.upload_tick(&TransferOutcome::Done);
    assert!(matches!(r, TickResult::Processed(ProcessResult::MovedToDlqExpired)));
    assert_eq!(mw.queue.get_dlq_length(), 1);
    assert_eq!(mw.metrics.url_expired_errors, 1);
    assert_eq!(mw.metrics.jobs_moved_to_dlq, 1);
    // The retry counter is untouched on this path.
    let back = mw.queue.dequeue_dlq_job().unwrap().unwrap();
    assert_eq!(back.retry_count, 0);
    assert_eq!(back.esign_id, "E4");
}

#[test]
fn same_entity_is_processed_under_mutual_exclusion() {
    let mut mw = MainWorker::new(config());
    mw.queue.enqueue_job(&job("E5", "http://ok/1"));
    mw.queue.enqueue_job(&job("E5", "http://ok/2"));
    // Another holder is mid-upload for the same entity.
    let other = DistributedLock::new("upload_lock:E5".to_string(), 300);
    assert!(other.acquire(&mut mw.locks));
    // While the key is held neither job gets through; both are re-enqueued.
    assert!(matches!(
        mw.upload_tick(&TransferOutcome::Done),
        TickResult::Processed(ProcessResult::LockMiss)
    ));
    assert!(matches!(
        mw.upload_tick(&TransferOutcome::Done),
        TickResult::Processed(ProcessResult::LockMiss)
    ));
    assert_eq!(mw.queue.get_queue_length(), 2);
    // The other holder finishes; both jobs then commit in turn.
    assert!(other.release(&mut mw.locks));
    assert!(matches!(
        mw.upload_tick(&TransferOutcome::Done),
        TickResult::Processed(ProcessResult::Committed)
    ));
    assert!(matches!(
        mw.upload_tick(&TransferOutcome::Done),
        TickResult::Processed(ProcessResult::Committed)
    ));
    assert_eq!(mw.metrics.jobs_succeeded, 2);
    assert_eq!(mw.queue.get_queue_length(), 0);
    assert_eq!(mw.queue.get_dlq_length(), 0);
}

#[test]
fn graceful_shutdown_drains_in_flight_work() {
    let mut mw = MainWorker::new(config());
    mw.queue.enqueue_job(&job("E6", "http://ok/1"));
    mw.queue.enqueue_job(&job("E7", "http://ok/2"));
    // Both in-flight jobs complete and commit.
    assert!(matches!(
        mw.upload_tick(&TransferOutcome::Done),
        TickResult::Processed(ProcessResult::Committed)
    ));
    assert!(matches!(
        mw.upload_tick(&TransferOutcome::Done),
        TickResult::Processed(ProcessResult::Committed)
    ));
    mw.signal_shutdown();
    // Signalling twice changes nothing further.
    mw.signal_shutdown();
    // Every consumer's next iteration exits without touching the broker.
    assert!(matches!(mw.upload_tick(&TransferOutcome::Done), TickResult::Exit));
    assert!(matches!(mw.dlq_tick(&RecoveryOutcome::Recovered), DlqTickResult::Exit));
    assert!(mw.await_shutdown(true).is_ok());
    assert_eq!(mw.metrics.jobs_succeeded, 2);
}

#[test]
fn shutdown_past_the_deadline_is_an_error() {
    let mw = MainWorker::new(config());
    match mw.await_shutdown(false) {
        Err(upload_worker::errors::WorkerError::Shutdown) => {}
        _ => panic!("an overrun deadline must surface as the shutdown error"),
    }
}

#[test]
fn dlq_consumer_accounts_for_recovery() {
    let mut mw = MainWorker::new(config());
    mw.queue.enqueue_job(&job("E8", "http://host/expired/doc"));
    assert!(matches!(
        mw.upload_tick(&TransferOutcome::Done),
        TickResult::Processed(ProcessResult::MovedToDlqExpired)
    ));
    assert_eq!(mw.queue.get_dlq_length(), 1);
    let r = mw.dlq_tick(&RecoveryOutcome::Recovered);
    assert!(matches!(
        r,
        DlqTickResult::Processed(upload_worker::dlq::DlqResult::Recovered)
    ));
    assert_eq!(mw.queue.get_dlq_length(), 0);
    assert_eq!(mw.metrics.jobs_processed, 2);
    assert_eq!(mw.metrics.jobs_succeeded, 1);
}

#[test]
fn draining_a_failing_job_takes_exactly_max_retry_attempts() {
    let mut mw = MainWorker::new(config());
    let j = job("E9", "http://ok/never");
    let failing = TransferOutcome::Failed("transfer refused".to_string());
    let (attempts, dead) = upload_worker::supervisor::drain_failing_job(&mut mw, j, &failing);
    assert_eq!(attempts, 3);
    assert_eq!(dead.retry_count, 3);
    assert_eq!(dead.esign_id, "E9");
    assert_eq!(mw.queue.get_queue_length(), 0);
    assert_eq!(mw.queue.get_dlq_length(), 1);
    assert_eq!(mw.metrics.jobs_processed, 3);
    assert_eq!(mw.metrics.general_errors, 3);
    assert_eq!(mw.metrics.jobs_moved_to_dlq, 1);
}

#[test]
fn undecodable_main_element_is_dead_lettered_as_text() {
    let mut mw = MainWorker::new(config());
    mw.queue.enqueue_text("not an encoded job".to_string());
    assert!(matches!(mw.upload_tick(&TransferOutcome::Done), TickResult::DequeueFailed));
    assert_eq!(mw.metrics.general_errors, 1);
    assert_eq!(mw.metrics.jobs_processed, 0);
    assert_eq!(mw.queue.get_queue_length(), 0);
    assert_eq!(mw.queue.get_dlq_length(), 1);
    // The raw text sits in the dead-letter queue, not silently lost.
    match mw.queue.dequeue_dlq_job() {
        Err(upload_worker::errors::WorkerError::Json(t)) => assert_eq!(t, "not an encoded job"),
        _ => panic!("the raw text must sit in the dead-letter queue"),
    }
}

#[test]
fn undecodable_dlq_element_is_counted_and_dropped() {
    let mut mw = MainWorker::new(config());
    mw.queue.move_text_to_dlq("garbage".to_string());
    assert!(matches!(
        mw.dlq_tick(&RecoveryOutcome::Recovered),
        DlqTickResult::DequeueFailed
    ));
    assert_eq!(mw.metrics.general_errors, 1);
    assert_eq!(mw.queue.get_dlq_length(), 0);
}

#[test]
fn idle_polls_change_nothing() {
    let mut mw = MainWorker::new(config());
    assert!(matches!(mw.upload_tick(&TransferOutcome::Done), TickResult::Idle));
    assert!(matches!(mw.dlq_tick(&RecoveryOutcome::Recovered), DlqTickResult::Idle));
    assert_eq!(mw.metrics.jobs_processed, 0);
}

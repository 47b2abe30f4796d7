use upload_worker::dlq::{DlqResult, RecoveryOutcome, is_recoverable_error, process_dlq_job};
use upload_worker::job::FileUploadJob;
use upload_worker::metrics::WorkerMetrics;
use upload_worker::worker::{
    ConsumerAction, DequeueEvent, Disposition, TransferOutcome, consumer_step, decide_disposition,
    url_is_expired,
};

fn job_with(url: &str, metadata: Vec<(String, String)>) -> FileUploadJob {
    FileUploadJob::new(
        "E1".to_string(),
        url.to_string(),
        "doc".to_string(),
        "pdf".to_string(),
        metadata,
    )
}

#[test]
fn url_classification_by_substring() {
    assert!(url_is_expired(&job_with("http://host/expired/abc", Vec::new())));
    assert!(url_is_expired(&job_with("expired", Vec::new())));
    assert!(!url_is_expired(&job_with("http://ok/1", Vec::new())));
    assert!(!url_is_expired(&job_with("", Vec::new())));
    assert!(!url_is_expired(&job_with("http://host/expire/d", Vec::new())));
}

#[test]
fn expired_url_dead_letters_with_counter_untouched() {
    let j = job_with("http://host/expired/doc", Vec::new());
    let (j2, d) = decide_disposition(j, &TransferOutcome::Done, 3);
    assert_eq!(d, Disposition::DeadLetterExpired);
    assert_eq!(j2.retry_count, 0);
}

#[test]
fn completed_transfer_commits() {
    let j = job_with("http://ok/1", Vec::new());
    let (j2, d) = decide_disposition(j, &TransferOutcome::Done, 3);
    assert_eq!(d, Disposition::Commit);
    assert_eq!(j2.retry_count, 0);
}

#[test]
fn failed_transfer_retries_below_the_bound() {
    let j = job_with("http://ok/1", Vec::new());
    let (j2, d) = decide_disposition(j, &TransferOutcome::Failed("peer closed".to_string()), 3);
    assert_eq!(d, Disposition::Retry);
    assert_eq!(j2.retry_count, 1);
}

#[test]
fn failed_transfer_dead_letters_at_the_bound() {
    let mut j = job_with("http://ok/1", Vec::new());
    j.retry_count = 2;
    let (j2, d) = decide_disposition(j, &TransferOutcome::Failed("peer closed".to_string()), 3);
    assert_eq!(d, Disposition::DeadLetterExhausted);
    assert_eq!(j2.retry_count, 3);
}

#[test]
fn shutdown_always_exits() {
    let j = job_with("http://ok/1", Vec::new());
    assert!(matches!(consumer_step(true, DequeueEvent::Got(j)), ConsumerAction::Exit));
    assert!(matches!(consumer_step(true, DequeueEvent::Empty), ConsumerAction::Exit));
    assert!(matches!(
        consumer_step(true, DequeueEvent::BrokerError("gone".to_string())),
        ConsumerAction::Exit
    ));
}

#[test]
fn running_consumer_follows_the_event() {
    let j = job_with("http://ok/1", Vec::new());
    match consumer_step(false, DequeueEvent::Got(j)) {
        ConsumerAction::Process(p) => assert_eq!(p.esign_id, "E1"),
        _ => panic!("a popped job must be processed"),
    }
    assert!(matches!(consumer_step(false, DequeueEvent::Empty), ConsumerAction::Idle));
    assert!(matches!(
        consumer_step(false, DequeueEvent::BrokerError("gone".to_string())),
        ConsumerAction::Backoff
    ));
}

fn meta(k: &str, v: &str) -> Vec<(String, String)> {
    vec![(k.to_string(), v.to_string())]
}

#[test]
fn recoverability_classification() {
    assert!(is_recoverable_error(&job_with("http://host/expired/x", Vec::new())));
    assert!(is_recoverable_error(&job_with("http://ok/1", meta("error_type", "temporary_network_error"))));
    assert!(is_recoverable_error(&job_with("http://ok/1", meta("error_type", "rate_limited"))));
    assert!(is_recoverable_error(&job_with("http://ok/1", meta("error_type", "service_unavailable"))));
    assert!(!is_recoverable_error(&job_with("http://ok/1", meta("error_type", "disk_full"))));
    assert!(!is_recoverable_error(&job_with("http://ok/1", meta("other", "rate_limited"))));
    assert!(!is_recoverable_error(&job_with("http://ok/1", Vec::new())));
}

#[test]
fn recovered_job_counts_succeeded() {
    let mut m = WorkerMetrics::new();
    let j = job_with("http://host/expired/x", Vec::new());
    let r = process_dlq_job(&mut m, &j, &RecoveryOutcome::Recovered);
    assert_eq!(r, DlqResult::Recovered);
    assert_eq!(m.jobs_processed, 1);
    assert_eq!(m.jobs_succeeded, 1);
    assert_eq!(m.general_errors, 0);
}

#[test]
fn failed_recovery_is_flagged_for_manual_intervention() {
    let mut m = WorkerMetrics::new();
    let j = job_with("http://host/expired/x", Vec::new());
    let r = process_dlq_job(&mut m, &j, &RecoveryOutcome::NotRecovered("no fresh URL".to_string()));
    assert_eq!(r, DlqResult::ManualIntervention);
    assert_eq!(m.jobs_processed, 1);
    assert_eq!(m.jobs_succeeded, 0);
    assert_eq!(m.general_errors, 1);
}

#[test]
fn non_recoverable_job_is_flagged_for_manual_intervention() {
    let mut m = WorkerMetrics::new();
    let j = job_with("http://ok/1", meta("error_type", "disk_full"));
    // The handler's report is not consulted for a non-recoverable job.
    let r = process_dlq_job(&mut m, &j, &RecoveryOutcome::Recovered);
    assert_eq!(r, DlqResult::ManualIntervention);
    assert_eq!(m.general_errors, 1);
    assert_eq!(m.jobs_succeeded, 0);
}

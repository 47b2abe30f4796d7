use upload_worker::config::{EnvValues, WorkerConfig};
use upload_worker::metrics::WorkerMetrics;

fn no_env() -> EnvValues {
    EnvValues {
        background_worker_thread_enabled: None,
        background_worker_consumer_thread_count: None,
        worker_consumer_wait_interval_in_milliseconds: None,
        worker_consumer_max_retry: None,
        file_upload_worker_dlq_thread_enabled: None,
        file_upload_worker_dlq_thread_count: None,
        file_upload_worker_dlq_wait_interval_in_milliseconds: None,
        redis_url: None,
        worker_upload_file_queue: None,
        worker_upload_file_dlq: None,
        worker_lock_timeout_seconds: None,
        worker_lock_retry_interval_milliseconds: None,
        worker_graceful_shutdown_timeout_seconds: None,
    }
}

#[test]
fn counters_record_one_by_one() {
    let mut m = WorkerMetrics::new();
    m.record_job_processed();
    m.record_job_processed();
    m.record_job_succeeded();
    m.record_job_failed();
    m.record_job_moved_to_dlq();
    m.record_url_expired_error();
    m.record_general_error();
    assert_eq!(m.jobs_processed, 2);
    assert_eq!(m.jobs_succeeded, 1);
    assert_eq!(m.jobs_failed, 1);
    assert_eq!(m.jobs_moved_to_dlq, 1);
    assert_eq!(m.url_expired_errors, 1);
    assert_eq!(m.general_errors, 1);
}

#[test]
fn default_collector_starts_at_zero() {
    let m = WorkerMetrics::default();
    assert_eq!(m.jobs_processed, 0);
    assert_eq!(m.total_processing_time_ms, 0);
    assert_eq!(m.dlq_depth, 0);
}

#[test]
fn nothing_logged_before_the_first_job() {
    let m = WorkerMetrics::new();
    assert!(m.log_metrics().is_none());
}

#[test]
fn report_carries_average_and_alerts() {
    let mut m = WorkerMetrics::new();
    for _ in 0..4 {
        m.record_job_processed();
    }
    m.record_job_succeeded();
    m.record_job_failed();
    m.record_processing_time(100);
    m.record_processing_time(102);
    m.update_queue_depth(3, 11);
    let rep = m.log_metrics().unwrap();
    assert_eq!(rep.jobs_processed, 4);
    assert_eq!(rep.avg_time_ms, 50);
    assert_eq!(rep.main_queue_depth, 3);
    assert_eq!(rep.dlq_depth, 11);
    assert!(rep.dlq_alert);
    // One failure in four is above one in ten.
    assert!(rep.error_alert);
}

#[test]
fn alerts_stay_quiet_at_their_bounds() {
    let mut m = WorkerMetrics::new();
    for _ in 0..10 {
        m.record_job_processed();
    }
    m.record_job_failed();
    m.update_queue_depth(0, 10);
    let rep = m.log_metrics().unwrap();
    // Exactly one in ten and exactly ten deep: neither alert fires.
    assert!(!rep.dlq_alert);
    assert!(!rep.error_alert);
}

#[test]
fn processing_time_saturates() {
    let mut m = WorkerMetrics::new();
    m.record_processing_time(u64::MAX - 5);
    m.record_processing_time(100);
    assert_eq!(m.total_processing_time_ms, u64::MAX);
}

#[test]
fn timer_records_elapsed_time() {
    let mut m = WorkerMetrics::new();
    let t = m.start_timer(1000);
    t.finish(&mut m, 1250);
    assert_eq!(m.total_processing_time_ms, 250);
    // A clock that stepped back records nothing.
    let t2 = m.start_timer(1000);
    t2.finish(&mut m, 900);
    assert_eq!(m.total_processing_time_ms, 250);
}

#[test]
fn missing_environment_takes_defaults() {
    let c = WorkerConfig::from_env_values(no_env()).unwrap();
    assert!(!c.background_worker_thread_enabled);
    assert_eq!(c.background_worker_consumer_thread_count, 1);
    assert_eq!(c.worker_consumer_wait_interval_ms, 5000);
    assert_eq!(c.worker_consumer_max_retry, 3);
    assert!(!c.file_upload_worker_dlq_thread_enabled);
    assert_eq!(c.file_upload_worker_dlq_thread_count, 1);
    assert_eq!(c.file_upload_worker_dlq_wait_interval_ms, 10000);
    assert_eq!(c.redis_url, "redis://localhost:6379");
    assert_eq!(c.worker_upload_file_queue, "upload_file_queue");
    assert_eq!(c.worker_upload_file_dlq, "upload_file_dlq");
    assert_eq!(c.lock_timeout_secs, 300);
    assert_eq!(c.lock_retry_interval_ms, 100);
    assert_eq!(c.graceful_shutdown_timeout_secs, 30);
}

#[test]
fn present_values_are_parsed() {
    let mut ev = no_env();
    ev.background_worker_thread_enabled = Some("true".to_string());
    ev.background_worker_consumer_thread_count = Some("8".to_string());
    ev.worker_consumer_max_retry = Some("+5".to_string());
    ev.redis_url = Some("redis://broker:6379".to_string());
    let c = WorkerConfig::from_env_values(ev).unwrap();
    assert!(c.background_worker_thread_enabled);
    assert_eq!(c.background_worker_consumer_thread_count, 8);
    assert_eq!(c.worker_consumer_max_retry, 5);
    assert_eq!(c.redis_url, "redis://broker:6379");
}

#[test]
fn unparsable_values_are_refused() {
    let mut ev = no_env();
    ev.background_worker_thread_enabled = Some("yes".to_string());
    match WorkerConfig::from_env_values(ev) {
        Err(upload_worker::errors::WorkerError::Config(_)) => {}
        _ => panic!("a bad flag must fail as a configuration error"),
    }
    let mut ev2 = no_env();
    ev2.worker_consumer_max_retry = Some("4294967296".to_string());
    assert!(WorkerConfig::from_env_values(ev2).is_err());
    let mut ev3 = no_env();
    ev3.worker_lock_timeout_seconds = Some("3 0".to_string());
    assert!(WorkerConfig::from_env_values(ev3).is_err());
    let mut ev4 = no_env();
    ev4.worker_lock_timeout_seconds = Some("".to_string());
    assert!(WorkerConfig::from_env_values(ev4).is_err());
}

#[test]
fn worker_mode_forces_both_pools() {
    let c = WorkerConfig::from_env_values(no_env()).unwrap();
    let forced = c.apply_app_mode(true);
    assert!(forced.background_worker_thread_enabled);
    assert!(forced.file_upload_worker_dlq_thread_enabled);
    let c2 = WorkerConfig::from_env_values(no_env()).unwrap();
    let kept = c2.apply_app_mode(false);
    assert!(!kept.background_worker_thread_enabled);
    assert!(!kept.file_upload_worker_dlq_thread_enabled);
}

use upload_worker::job::FileUploadJob;
use upload_worker::lock::{DistributedLock, LockTable};

fn job_for(entity: &str, url: &str) -> FileUploadJob {
    FileUploadJob::new(
        entity.to_string(),
        url.to_string(),
        "doc".to_string(),
        "pdf".to_string(),
        Vec::new(),
    )
}

#[test]
fn new_job_starts_clean() {
    let j = job_for("E1", "http://ok/1");
    assert_eq!(j.retry_count, 0);
    assert_eq!(j.created_at, j.updated_at);
    assert_eq!(j.esign_id, "E1");
}

#[test]
fn increment_retry_bumps_counter_and_timestamp() {
    let mut j = job_for("E1", "http://ok/1");
    let before = j.updated_at;
    j.increment_retry();
    assert_eq!(j.retry_count, 1);
    assert!(j.updated_at >= before);
    j.increment_retry();
    assert_eq!(j.retry_count, 2);
}

#[test]
fn lock_key_is_prefixed_entity() {
    let j = job_for("E42", "http://ok/1");
    assert_eq!(j.get_lock_key(), "upload_lock:E42");
}

#[test]
fn second_acquire_of_held_key_fails() {
    let mut table = LockTable::new();
    let a = DistributedLock::new("upload_lock:E5".to_string(), 300);
    let b = DistributedLock::new("upload_lock:E5".to_string(), 300);
    assert!(a.acquire(&mut table));
    assert!(!b.acquire(&mut table));
    assert!(!a.acquire(&mut table));
}

#[test]
fn release_with_foreign_token_deletes_nothing() {
    let mut table = LockTable::new();
    let owner = DistributedLock::new("upload_lock:E5".to_string(), 300);
    let stranger = DistributedLock::new("upload_lock:E5".to_string(), 300);
    assert!(owner.acquire(&mut table));
    assert!(!stranger.release(&mut table));
    // The owner still holds the key: its refresh succeeds.
    assert!(owner.refresh(&mut table));
    assert!(owner.release(&mut table));
    assert!(!owner.refresh(&mut table));
}

#[test]
fn stale_release_after_expiry_and_takeover() {
    let mut table = LockTable::new();
    let key = "upload_lock:E7".to_string();
    let first = DistributedLock::new(key.clone(), 1);
    assert!(first.acquire(&mut table));
    // The time-to-live elapses while the first holder is stalled.
    table.expire(&key);
    let second = DistributedLock::new(key.clone(), 300);
    assert!(second.acquire(&mut table));
    // The stalled holder comes back: it may neither release nor refresh.
    assert!(!first.release(&mut table));
    assert!(!first.refresh(&mut table));
    // The new holder is untouched.
    assert!(second.refresh(&mut table));
    assert!(second.release(&mut table));
}

#[test]
fn keys_are_independent() {
    let mut table = LockTable::new();
    let a = DistributedLock::new("upload_lock:A".to_string(), 300);
    let b = DistributedLock::new("upload_lock:B".to_string(), 300);
    assert!(a.acquire(&mut table));
    assert!(b.acquire(&mut table));
    assert!(a.release(&mut table));
    assert!(b.refresh(&mut table));
}

#[test]
fn release_then_reacquire_succeeds() {
    let mut table = LockTable::new();
    let a = DistributedLock::new("upload_lock:E5".to_string(), 300);
    assert!(a.acquire(&mut table));
    assert!(a.release(&mut table));
    let b = DistributedLock::new("upload_lock:E5".to_string(), 300);
    assert!(b.acquire(&mut table));
}

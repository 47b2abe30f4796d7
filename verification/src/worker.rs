//! The upload consumer's decisions: the expired-URL predicate, the
//! commit/retry/dead-letter policy, one whole processing step over the
//! broker model, and the consumer loop's step.

use vstd::prelude::*;

verus! {

use crate::codec::encode_job;
use crate::config::WorkerConfig;
use crate::job::{FileUploadJob, JobView, lock_key_of, job_wf};
use crate::lock::{DistributedLock, LockTable};
use crate::metrics::{WorkerMetrics, counters_have_room, metrics_consistent};
use crate::queue::RedisQueue;
use crate::text::{contains_seq, contains_chars, str_to_chars};

/// What the transfer itself reported, once the URL was found usable. The
/// transfer is an outside effect; the policy holds for every report.
pub enum TransferOutcome {
    Done,
    Failed(String),
}

/// What is to happen to a job after one upload attempt.
#[derive(Clone, Copy, Debug, PartialEq, Eq, Structural)]
pub enum Disposition {
    Commit,
    Retry,
    DeadLetterExpired,
    DeadLetterExhausted,
}

/// What one processing step did, with the re-enqueued or dead-lettered job
/// where one was written back.
pub enum ProcessResult {
    LockMiss,
    Committed,
    MovedToDlqExpired,
    Retried(FileUploadJob),
    MovedToDlqExhausted(FileUploadJob),
}

/// The advisory expired-URL classification: the URL names itself expired.
pub open spec fn url_expired(j: JobView) -> bool {
    contains_seq(j.document_url, "expired"@)
}

/// Whether the job's source URL is classified as expired.
pub fn url_is_expired(job: &FileUploadJob) -> (r: bool)
    ensures
        r == url_expired(job@),
{
    let urlc = str_to_chars(job.document_url.as_str());
    let pat = str_to_chars("expired");
    contains_chars(&urlc, &pat)
}

/// A retry counter bumped by one, held at the type's maximum.
pub open spec fn retry_bump(c: u32) -> u32 {
    if c < u32::MAX {
        (c + 1) as u32
    } else {
        u32::MAX
    }
}

/// The written-back job after a failed attempt: the retry counter bumped,
/// the update timestamp moved forward, everything else as it was.
pub open spec fn bumped(j: JobView, j2: JobView) -> bool {
    &&& j2.retry_count == retry_bump(j.retry_count)
    &&& j2.updated_at >= j.updated_at
    &&& j2.id == j.id
    &&& j2.esign_id == j.esign_id
    &&& j2.document_url == j.document_url
    &&& j2.document_name == j.document_name
    &&& j2.document_type == j.document_type
    &&& j2.created_at == j.created_at
    &&& j2.metadata == j.metadata
}

/// The retry/dead-letter policy: an expired URL dead-letters at once with
/// the counter untouched; a completed transfer commits; a failed transfer
/// bumps the counter and retries below the bound, dead-letters at it.
pub fn decide_disposition(job: FileUploadJob, transfer: &TransferOutcome, max_retry: u32) -> (r: (
    FileUploadJob,
    Disposition,
))
    ensures
        url_expired(job@) ==> r.0@ == job@ && r.1 == Disposition::DeadLetterExpired,
        !url_expired(job@) && transfer is Done ==> r.0@ == job@ && r.1 == Disposition::Commit,
        !url_expired(job@) && transfer is Failed ==> {
            &&& bumped(job@, r.0@)
            &&& (r.1 == Disposition::Retry <==> r.0@.retry_count < max_retry)
            &&& (r.1 == Disposition::DeadLetterExhausted <==> r.0@.retry_count >= max_retry)
        },
        job_wf(job@) ==> job_wf(r.0@),
{
    if url_is_expired(&job) {
        return (job, Disposition::DeadLetterExpired);
    }
    match transfer {
        TransferOutcome::Done => (job, Disposition::Commit),
        TransferOutcome::Failed(_) => {
            let mut j = job;
            if j.retry_count < u32::MAX {
                j.increment_retry();
            }
            let d = if j.retry_count < max_retry {
                Disposition::Retry
            } else {
                Disposition::DeadLetterExhausted
            };
            (j, d)
        },
    }
}

/// What one processing step does to the broker model and the metrics, for a
/// job already popped from the main queue.
///
/// A missed lock re-enqueues the job, so at-least-once delivery holds. An
/// expired URL dead-letters the job on its first attempt with the retry
/// counter untouched. A completed transfer commits: the job stands in
/// neither queue afterwards. A failed transfer bumps the counter, then
/// re-enqueues below the retry bound and dead-letters at it. The lock table
/// ends as it began: what was acquired is released.
pub open spec fn process_post(
    j: JobView,
    transfer: TransferOutcome,
    max_retry: u32,
    main0: Seq<Seq<char>>,
    dlq0: Seq<Seq<char>>,
    locks0: Map<Seq<char>, u128>,
    m0: WorkerMetrics,
    main1: Seq<Seq<char>>,
    dlq1: Seq<Seq<char>>,
    locks1: Map<Seq<char>, u128>,
    m1: WorkerMetrics,
    r: ProcessResult,
) -> bool {
    let key = lock_key_of(j.esign_id);
    if locks0.contains_key(key) {
        &&& r is LockMiss
        &&& main1 == seq![encode_job(j)] + main0
        &&& dlq1 == dlq0
        &&& locks1 == locks0
        &&& m1 == (WorkerMetrics { jobs_processed: (m0.jobs_processed + 1) as u64, ..m0 })
    } else if url_expired(j) {
        &&& r is MovedToDlqExpired
        &&& main1 == main0
        &&& dlq1 == seq![encode_job(j)] + dlq0
        &&& locks1 == locks0
        &&& m1 == (WorkerMetrics {
            jobs_processed: (m0.jobs_processed + 1) as u64,
            url_expired_errors: (m0.url_expired_errors + 1) as u64,
            jobs_moved_to_dlq: (m0.jobs_moved_to_dlq + 1) as u64,
            ..m0
        })
    } else {
        match transfer {
            TransferOutcome::Done => {
                &&& r is Committed
                &&& main1 == main0
                &&& dlq1 == dlq0
                &&& locks1 == locks0
                &&& m1 == (WorkerMetrics {
                    jobs_processed: (m0.jobs_processed + 1) as u64,
                    jobs_succeeded: (m0.jobs_succeeded + 1) as u64,
                    ..m0
                })
            },
            TransferOutcome::Failed(_) => {
                match r {
                    ProcessResult::Retried(job2) => {
                        &&& bumped(j, job2@)
                        &&& job2@.retry_count < max_retry
                        &&& main1 == seq![encode_job(job2@)] + main0
                        &&& dlq1 == dlq0
                        &&& locks1 == locks0
                        &&& m1 == (WorkerMetrics {
                            jobs_processed: (m0.jobs_processed + 1) as u64,
                            general_errors: (m0.general_errors + 1) as u64,
                            ..m0
                        })
                    },
                    ProcessResult::MovedToDlqExhausted(job2) => {
                        &&& bumped(j, job2@)
                        &&& job2@.retry_count >= max_retry
                        &&& main1 == main0
                        &&& dlq1 == seq![encode_job(job2@)] + dlq0
                        &&& locks1 == locks0
                        &&& m1 == (WorkerMetrics {
                            jobs_processed: (m0.jobs_processed + 1) as u64,
                            general_errors: (m0.general_errors + 1) as u64,
                            jobs_moved_to_dlq: (m0.jobs_moved_to_dlq + 1) as u64,
                            ..m0
                        })
                    },
                    _ => false,
                }
            },
        }
    }
}

/// One whole processing step for a job popped from the main queue: count it
/// processed, take the per-entity lock, decide the outcome, write the job
/// where the policy says, release the lock.
pub fn process_job(
    queue: &mut RedisQueue,
    locks: &mut LockTable,
    metrics: &mut WorkerMetrics,
    config: &WorkerConfig,
    job: FileUploadJob,
    transfer: &TransferOutcome,
) -> (r: ProcessResult)
    requires
        counters_have_room(*old(metrics)),
    ensures
        process_post(
            job@,
            *transfer,
            config.worker_consumer_max_retry,
            old(queue).main_texts(),
            old(queue).dlq_texts(),
            old(locks)@,
            *old(metrics),
            final(queue).main_texts(),
            final(queue).dlq_texts(),
            final(locks)@,
            *final(metrics),
            r,
        ),
        metrics_consistent(*old(metrics)) ==> metrics_consistent(*final(metrics)),
        final(metrics).jobs_processed >= old(metrics).jobs_processed,
        final(metrics).url_expired_errors >= old(metrics).url_expired_errors,
        final(metrics).general_errors >= old(metrics).general_errors,
        final(metrics).jobs_moved_to_dlq >= old(metrics).jobs_moved_to_dlq,
{
    metrics.record_job_processed();
    let lock_key = job.get_lock_key();
    let lock = DistributedLock::new(lock_key, config.lock_timeout_secs);
    let ghost locks0 = locks@;
    let acquired = lock.acquire(locks);
    if !acquired {
        queue.enqueue_job(&job);
        return ProcessResult::LockMiss;
    }
    let (job2, disp) = decide_disposition(job, transfer, config.worker_consumer_max_retry);
    match disp {
        Disposition::Commit => {
            metrics.record_job_succeeded();
            lock.release(locks);
            proof {
                assert(locks@ =~= locks0);
            }
            ProcessResult::Committed
        },
        Disposition::DeadLetterExpired => {
            metrics.record_url_expired_error();
            metrics.record_job_moved_to_dlq();
            queue.move_to_dlq(&job2);
            lock.release(locks);
            proof {
                assert(locks@ =~= locks0);
            }
            ProcessResult::MovedToDlqExpired
        },
        Disposition::Retry => {
            metrics.record_general_error();
            queue.enqueue_job(&job2);
            lock.release(locks);
            proof {
                assert(locks@ =~= locks0);
            }
            ProcessResult::Retried(job2)
        },
        Disposition::DeadLetterExhausted => {
            metrics.record_general_error();
            metrics.record_job_moved_to_dlq();
            queue.move_to_dlq(&job2);
            lock.release(locks);
            proof {
                assert(locks@ =~= locks0);
            }
            ProcessResult::MovedToDlqExhausted(job2)
        },
    }
}

/// What the consumer loop saw when it polled the queue.
pub enum DequeueEvent {
    Got(FileUploadJob),
    Empty,
    BrokerError(String),
}

/// What the consumer loop does next.
pub enum ConsumerAction {
    Exit,
    Process(FileUploadJob),
    Idle,
    Backoff,
}

/// One decision of the consumer loop. Once the shutdown flag is set the
/// consumer exits, whatever the poll returned; otherwise a job is processed,
/// an empty poll is idled through, and a broker error backs off before the
/// next poll.
pub fn consumer_step(shutdown: bool, ev: DequeueEvent) -> (r: ConsumerAction)
    ensures
        shutdown ==> r is Exit,
        !shutdown ==> match ev {
            DequeueEvent::Got(j) => r matches ConsumerAction::Process(p) && p@ == j@,
            DequeueEvent::Empty => r is Idle,
            DequeueEvent::BrokerError(_) => r is Backoff,
        },
{
    if shutdown {
        return ConsumerAction::Exit;
    }
    match ev {
        DequeueEvent::Got(j) => ConsumerAction::Process(j),
        DequeueEvent::Empty => ConsumerAction::Idle,
        DequeueEvent::BrokerError(_) => ConsumerAction::Backoff,
    }
}

/// Retry bound: under a failed transfer, an attempt on a job that has
/// already failed `k` times (its retry counter reads `k`) bumps the counter
/// to `k + 1`, re-enqueues the job to the main queue while `k + 1` is below
/// the retry bound, and moves it to the dead-letter queue the moment the
/// bound is reached — so a job whose every attempt fails is dead-lettered
/// after exactly `max_retry` failed attempts.
pub proof fn lemma_retry_bound(
    j: JobView,
    transfer: TransferOutcome,
    max_retry: u32,
    main0: Seq<Seq<char>>,
    dlq0: Seq<Seq<char>>,
    locks0: Map<Seq<char>, u128>,
    m0: WorkerMetrics,
    main1: Seq<Seq<char>>,
    dlq1: Seq<Seq<char>>,
    locks1: Map<Seq<char>, u128>,
    m1: WorkerMetrics,
    r: ProcessResult,
)
    requires
        process_post(j, transfer, max_retry, main0, dlq0, locks0, m0, main1, dlq1, locks1, m1, r),
        transfer is Failed,
        !locks0.contains_key(lock_key_of(j.esign_id)),
        !url_expired(j),
        j.retry_count < u32::MAX,
    ensures
        r matches ProcessResult::Retried(j2) ==> j2@.retry_count == j.retry_count + 1 && main1
            == seq![encode_job(j2@)] + main0 && dlq1 == dlq0,
        r matches ProcessResult::MovedToDlqExhausted(j2) ==> j2@.retry_count == j.retry_count + 1
            && dlq1 == seq![encode_job(j2@)] + dlq0 && main1 == main0,
        r is Retried <==> j.retry_count + 1 < max_retry,
        r is MovedToDlqExhausted <==> j.retry_count + 1 >= max_retry,
{
}

/// URL-expiry short-circuit: a job whose URL is classified as expired is
/// moved to the dead-letter queue on its first attempt, encoded exactly as
/// it came — its retry counter untouched — and the expired-URL counter is
/// the only error total that moves.
pub proof fn lemma_url_expiry_short_circuit(
    j: JobView,
    transfer: TransferOutcome,
    max_retry: u32,
    main0: Seq<Seq<char>>,
    dlq0: Seq<Seq<char>>,
    locks0: Map<Seq<char>, u128>,
    m0: WorkerMetrics,
    main1: Seq<Seq<char>>,
    dlq1: Seq<Seq<char>>,
    locks1: Map<Seq<char>, u128>,
    m1: WorkerMetrics,
    r: ProcessResult,
)
    requires
        process_post(j, transfer, max_retry, main0, dlq0, locks0, m0, main1, dlq1, locks1, m1, r),
        !locks0.contains_key(lock_key_of(j.esign_id)),
        url_expired(j),
        counters_have_room(m0),
    ensures
        r is MovedToDlqExpired,
        dlq1 == seq![encode_job(j)] + dlq0,
        main1 == main0,
        m1.url_expired_errors == m0.url_expired_errors + 1,
        m1.general_errors == m0.general_errors,
{
}

/// No silent loss on the success path: a committed job is written back to
/// neither queue, so after its pop nothing of it remains in the broker.
pub proof fn lemma_no_silent_loss_on_success(
    j: JobView,
    transfer: TransferOutcome,
    max_retry: u32,
    main0: Seq<Seq<char>>,
    dlq0: Seq<Seq<char>>,
    locks0: Map<Seq<char>, u128>,
    m0: WorkerMetrics,
    main1: Seq<Seq<char>>,
    dlq1: Seq<Seq<char>>,
    locks1: Map<Seq<char>, u128>,
    m1: WorkerMetrics,
    r: ProcessResult,
)
    requires
        process_post(j, transfer, max_retry, main0, dlq0, locks0, m0, main1, dlq1, locks1, m1, r),
        !locks0.contains_key(lock_key_of(j.esign_id)),
        !url_expired(j),
        transfer is Done,
        counters_have_room(m0),
    ensures
        r is Committed,
        main1 == main0,
        dlq1 == dlq0,
        m1.jobs_succeeded == m0.jobs_succeeded + 1,
{
}

/// Metrics consistency: every processing step keeps successes plus
/// dead-letter moves within the processed total, and no error total falls.
pub proof fn lemma_metrics_consistency(
    j: JobView,
    transfer: TransferOutcome,
    max_retry: u32,
    main0: Seq<Seq<char>>,
    dlq0: Seq<Seq<char>>,
    locks0: Map<Seq<char>, u128>,
    m0: WorkerMetrics,
    main1: Seq<Seq<char>>,
    dlq1: Seq<Seq<char>>,
    locks1: Map<Seq<char>, u128>,
    m1: WorkerMetrics,
    r: ProcessResult,
)
    requires
        process_post(j, transfer, max_retry, main0, dlq0, locks0, m0, main1, dlq1, locks1, m1, r),
        metrics_consistent(m0),
        counters_have_room(m0),
    ensures
        metrics_consistent(m1),
        m1.jobs_processed >= m0.jobs_processed,
        m1.url_expired_errors >= m0.url_expired_errors,
        m1.general_errors >= m0.general_errors,
        m1.jobs_moved_to_dlq >= m0.jobs_moved_to_dlq,
{
}

} // verus!

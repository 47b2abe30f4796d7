//! The supervisor: owns the configuration, the broker model, the metrics
//! and the shutdown flag, starts the pools the configuration enables, and
//! drives whole consumer iterations over the model.

use vstd::prelude::*;

verus! {

use crate::codec::{encode_job, spec_decode, lemma_codec_round_trip};
use crate::config::WorkerConfig;
use crate::dlq::{DlqResult, RecoveryOutcome, process_dlq_job, recoverable};
use crate::errors::{WorkerError, WorkerResult};
use crate::lock::LockTable;
use crate::metrics::{WorkerMetrics, counters_have_room, metrics_consistent, zeroed};
use crate::queue::RedisQueue;
use crate::job::{FileUploadJob, lock_key_of};
use crate::worker::{ProcessResult, TransferOutcome, process_job, process_post, url_expired};

/// The worker system: configuration, the two queues, the lock key space,
/// the counters, and the shutdown flag every consumer polls.
pub struct MainWorker {
    pub config: WorkerConfig,
    pub queue: RedisQueue,
    pub locks: LockTable,
    pub metrics: WorkerMetrics,
    pub shutdown: bool,
}

/// What one upload-consumer iteration did.
pub enum TickResult {
    Exit,
    Idle,
    DequeueFailed,
    Processed(ProcessResult),
}

/// What one dead-letter-consumer iteration did.
pub enum DlqTickResult {
    Exit,
    Idle,
    DequeueFailed,
    Processed(DlqResult),
}

impl MainWorker {
    /// A fresh system: empty queues, no locks held, zeroed counters, the
    /// shutdown flag clear.
    pub fn new(config: WorkerConfig) -> (r: Self)
        ensures
            r.config == config,
            r.queue.main_texts() == Seq::<Seq<char>>::empty(),
            r.queue.dlq_texts() == Seq::<Seq<char>>::empty(),
            r.locks@ == Map::<Seq<char>, u128>::empty(),
            zeroed(r.metrics),
            !r.shutdown,
    {
        MainWorker {
            config,
            queue: RedisQueue::new(),
            locks: LockTable::new(),
            metrics: WorkerMetrics::new(),
            shutdown: false,
        }
    }

    /// Which pools are to start: the upload pool and the dead-letter pool,
    /// each exactly when its flag enables it.
    pub fn start(&self) -> (r: (bool, bool))
        ensures
            r.0 == self.config.background_worker_thread_enabled,
            r.1 == self.config.file_upload_worker_dlq_thread_enabled,
    {
        (
            self.config.background_worker_thread_enabled,
            self.config.file_upload_worker_dlq_thread_enabled,
        )
    }

    /// Sets the shutdown flag that every consumer loop polls. Idempotent:
    /// the flag only ever goes up.
    pub fn signal_shutdown(&mut self)
        ensures
            final(self).shutdown,
            final(self).config == old(self).config,
            final(self).queue.main_texts() == old(self).queue.main_texts(),
            final(self).queue.dlq_texts() == old(self).queue.dlq_texts(),
            final(self).locks@ == old(self).locks@,
            final(self).metrics == old(self).metrics,
    {
        self.shutdown = true;
    }

    /// The outcome of the graceful wait: success exactly when the in-flight
    /// work drained within the deadline, the shutdown error otherwise.
    pub fn await_shutdown(&self, drained_within_deadline: bool) -> (r: WorkerResult<()>)
        ensures
            r is Ok <==> drained_within_deadline,
            r matches Err(e) ==> e is Shutdown,
    {
        if drained_within_deadline {
            Ok(())
        } else {
            Err(WorkerError::Shutdown)
        }
    }

    /// The metrics collector.
    pub fn metrics(&self) -> (r: &WorkerMetrics)
        ensures
            r == &self.metrics,
    {
        &self.metrics
    }

    /// One whole upload-consumer iteration: exit at once under shutdown;
    /// otherwise pop from the main queue and process what came out. A popped
    /// element that does not decode is counted a general error and moved, as
    /// raw text, to the dead-letter queue, never silently lost; a decoded
    /// job goes through one whole processing step.
    pub fn upload_tick(&mut self, transfer: &TransferOutcome) -> (r: TickResult)
        requires
            counters_have_room(old(self).metrics),
        ensures
            final(self).shutdown == old(self).shutdown,
            final(self).config == old(self).config,
            old(self).shutdown ==> r is Exit && unchanged_state(old(self), final(self)),
            !old(self).shutdown && old(self).queue.main_texts().len() == 0 ==> r is Idle
                && unchanged_state(old(self), final(self)),
            !old(self).shutdown && old(self).queue.main_texts().len() > 0 ==> match spec_decode(
                old(self).queue.main_texts().last(),
            ) {
                Option::None => r is DequeueFailed && final(self).queue.main_texts() == old(self).queue.main_texts().drop_last() && final(self).queue.dlq_texts() == seq![
                    old(self).queue.main_texts().last(),
                ] + old(self).queue.dlq_texts() && final(self).locks@ == old(self).locks@
                    && final(self).metrics == (WorkerMetrics {
                    general_errors: (old(self).metrics.general_errors + 1) as u64,
                    ..old(self).metrics
                }),
                Option::Some(jv) => r matches TickResult::Processed(pr) && process_post(
                    jv,
                    *transfer,
                    old(self).config.worker_consumer_max_retry,
                    old(self).queue.main_texts().drop_last(),
                    old(self).queue.dlq_texts(),
                    old(self).locks@,
                    old(self).metrics,
                    final(self).queue.main_texts(),
                    final(self).queue.dlq_texts(),
                    final(self).locks@,
                    final(self).metrics,
                    pr,
                ),
            },
            metrics_consistent(old(self).metrics) ==> metrics_consistent(final(self).metrics),
    {
        if self.shutdown {
            return TickResult::Exit;
        }
        match self.queue.dequeue_job() {
            Ok(popped) => match popped {
                Option::None => TickResult::Idle,
                Option::Some(job) => {
                    let pr = process_job(
                        &mut self.queue,
                        &mut self.locks,
                        &mut self.metrics,
                        &self.config,
                        job,
                        transfer,
                    );
                    TickResult::Processed(pr)
                },
            },
            Err(e) => match e {
                WorkerError::Json(text) => {
                    self.metrics.record_general_error();
                    self.queue.move_text_to_dlq(text);
                    TickResult::DequeueFailed
                },
                _ => {
                    proof {
                        assert(false);
                    }
                    TickResult::DequeueFailed
                },
            },
        }
    }

    /// One whole dead-letter-consumer iteration: exit at once under
    /// shutdown; otherwise pop from the dead-letter queue, classify what
    /// came out and account for the recovery handler's report. The popped
    /// job is dropped either way; a popped element that does not decode is
    /// counted a general error and left to the runtime's error log, since
    /// pushing it back would spin forever.
    pub fn dlq_tick(&mut self, recovery: &RecoveryOutcome) -> (r: DlqTickResult)
        requires
            counters_have_room(old(self).metrics),
        ensures
            final(self).shutdown == old(self).shutdown,
            final(self).queue.main_texts() == old(self).queue.main_texts(),
            final(self).locks@ == old(self).locks@,
            old(self).shutdown ==> r is Exit && unchanged_state(old(self), final(self)),
            !old(self).shutdown && old(self).queue.dlq_texts().len() == 0 ==> r is Idle
                && unchanged_state(old(self), final(self)),
            !old(self).shutdown && old(self).queue.dlq_texts().len() > 0 ==> final(self).queue.dlq_texts() == old(self).queue.dlq_texts().drop_last() && match spec_decode(
                old(self).queue.dlq_texts().last(),
            ) {
                Option::None => r is DequeueFailed && final(self).metrics == (WorkerMetrics {
                    general_errors: (old(self).metrics.general_errors + 1) as u64,
                    ..old(self).metrics
                }),
                Option::Some(jv) => {
                    &&& r matches DlqTickResult::Processed(dr)
                    &&& (recoverable(jv) && recovery is Recovered <==> dr
                        == DlqResult::Recovered)
                    &&& final(self).metrics.jobs_processed == old(self).metrics.jobs_processed
                        + 1
                    &&& recoverable(jv) && recovery is Recovered ==> final(self).metrics.jobs_succeeded == old(self).metrics.jobs_succeeded + 1
                    &&& !(recoverable(jv) && recovery is Recovered) ==> final(self).metrics.general_errors == old(self).metrics.general_errors + 1
                },
            },
            metrics_consistent(old(self).metrics) ==> metrics_consistent(final(self).metrics),
    {
        if self.shutdown {
            return DlqTickResult::Exit;
        }
        match self.queue.dequeue_dlq_job() {
            Ok(popped) => match popped {
                Option::None => DlqTickResult::Idle,
                Option::Some(job) => {
                    let dr = process_dlq_job(&mut self.metrics, &job, recovery);
                    DlqTickResult::Processed(dr)
                },
            },
            Err(_) => {
                self.metrics.record_general_error();
                DlqTickResult::DequeueFailed
            },
        }
    }
}


/// Retry bound, end to end: a job whose every transfer fails is re-enqueued
/// on each attempt below the retry bound and reaches the dead-letter queue
/// on attempt number `max_retry` exactly, its counter reading `max_retry`,
/// everything else about it unchanged.
pub fn drain_failing_job(mw: &mut MainWorker, job: FileUploadJob, failure: &TransferOutcome) -> (r:
    (u32, FileUploadJob))
    requires
        !old(mw).shutdown,
        old(mw).config.worker_consumer_max_retry >= 1,
        old(mw).queue.main_texts().len() == 0,
        old(mw).queue.dlq_texts().len() == 0,
        !old(mw).locks@.contains_key(lock_key_of(job@.esign_id)),
        !url_expired(job@),
        (*failure) is Failed,
        job.retry_count == 0,
        old(mw).metrics.jobs_processed + old(mw).config.worker_consumer_max_retry <= u64::MAX,
        old(mw).metrics.general_errors + old(mw).config.worker_consumer_max_retry <= u64::MAX,
        old(mw).metrics.jobs_moved_to_dlq + 1 <= u64::MAX,
        old(mw).metrics.jobs_succeeded < u64::MAX,
        old(mw).metrics.jobs_failed < u64::MAX,
        old(mw).metrics.url_expired_errors < u64::MAX,
    ensures
        r.0 == old(mw).config.worker_consumer_max_retry,
        final(mw).queue.main_texts().len() == 0,
        final(mw).queue.dlq_texts() == seq![encode_job(r.1@)],
        r.1@.retry_count == old(mw).config.worker_consumer_max_retry,
        r.1@.id == job@.id,
        r.1@.esign_id == job@.esign_id,
        r.1@.document_url == job@.document_url,
        r.1@.document_name == job@.document_name,
        r.1@.document_type == job@.document_type,
        r.1@.created_at == job@.created_at,
        r.1@.updated_at >= job@.updated_at,
        r.1@.metadata == job@.metadata,
        final(mw).metrics.jobs_processed == old(mw).metrics.jobs_processed + old(
            mw,
        ).config.worker_consumer_max_retry,
        final(mw).metrics.general_errors == old(mw).metrics.general_errors + old(
            mw,
        ).config.worker_consumer_max_retry,
        final(mw).metrics.jobs_moved_to_dlq == old(mw).metrics.jobs_moved_to_dlq + 1,
        final(mw).metrics.jobs_succeeded == old(mw).metrics.jobs_succeeded,
        final(mw).metrics.url_expired_errors == old(mw).metrics.url_expired_errors,
        final(mw).locks@ == old(mw).locks@,
{
    let ghost m0 = old(mw).metrics;
    let ghost locks0 = old(mw).locks@;
    let ghost j0 = job@;
    let ghost key = lock_key_of(job@.esign_id);
    let max_retry = mw.config.worker_consumer_max_retry;
    mw.queue.enqueue_job(&job);
    let mut current = job;
    let mut attempts: u32 = 0;
    loop
        invariant
            mw.config.worker_consumer_max_retry == max_retry,
            max_retry == old(mw).config.worker_consumer_max_retry,
            m0 == old(mw).metrics,
            locks0 == old(mw).locks@,
            j0 == job@,
            max_retry >= 1,
            !mw.shutdown,
            attempts < max_retry,
            current@.retry_count == attempts,
            current@.id == j0.id,
            current@.esign_id == j0.esign_id,
            current@.document_url == j0.document_url,
            current@.document_name == j0.document_name,
            current@.document_type == j0.document_type,
            current@.created_at == j0.created_at,
            current@.updated_at >= j0.updated_at,
            current@.metadata == j0.metadata,
            !url_expired(j0),
            (*failure) is Failed,
            !locks0.contains_key(key),
            key == lock_key_of(j0.esign_id),
            mw.queue.main_texts() =~= seq![encode_job(current@)],
            mw.queue.dlq_texts().len() == 0,
            mw.locks@ == locks0,
            mw.metrics.jobs_processed == m0.jobs_processed + attempts,
            mw.metrics.general_errors == m0.general_errors + attempts,
            mw.metrics.jobs_moved_to_dlq == m0.jobs_moved_to_dlq,
            mw.metrics.jobs_succeeded == m0.jobs_succeeded,
            mw.metrics.jobs_failed == m0.jobs_failed,
            mw.metrics.url_expired_errors == m0.url_expired_errors,
            m0.jobs_processed + max_retry <= u64::MAX,
            m0.general_errors + max_retry <= u64::MAX,
            m0.jobs_moved_to_dlq + 1 <= u64::MAX,
            m0.jobs_succeeded < u64::MAX,
            m0.jobs_failed < u64::MAX,
            m0.url_expired_errors < u64::MAX,
        decreases max_retry - attempts,
    {
        proof {
            lemma_codec_round_trip(current@);
            assert(url_expired(current@) == url_expired(j0));
        }
        let tick = mw.upload_tick(failure);
        attempts = attempts + 1;
        match tick {
            TickResult::Processed(pr) => match pr {
                ProcessResult::Retried(j2) => {
                    current = j2;
                },
                ProcessResult::MovedToDlqExhausted(j2) => {
                    proof {
                        assert(attempts == max_retry);
                        assert(mw.queue.dlq_texts() =~= seq![encode_job(j2@)]);
                    }
                    return (attempts, j2);
                },
                _ => {
                    proof {
                        assert(false);
                    }
                    return (attempts, current);
                },
            },
            _ => {
                proof {
                    assert(false);
                }
                return (attempts, current);
            },
        }
    }
}

/// Nothing observable moved: queues, locks and counters stand as they were.
pub open spec fn unchanged_state(a: &MainWorker, b: &MainWorker) -> bool {
    &&& b.queue.main_texts() == a.queue.main_texts()
    &&& b.queue.dlq_texts() == a.queue.dlq_texts()
    &&& b.locks@ == a.locks@
    &&& b.metrics == a.metrics
}

} // verus!

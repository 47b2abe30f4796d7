//! Process-wide counters and gauges for the worker pools, with the
//! consistency they must keep: a job is counted succeeded or moved to the
//! dead-letter queue only after it was counted processed, and error totals
//! never fall.

use vstd::prelude::*;

verus! {

/// The counters and gauges of the worker pools.
pub struct WorkerMetrics {
    pub jobs_processed: u64,
    pub jobs_succeeded: u64,
    pub jobs_failed: u64,
    pub jobs_moved_to_dlq: u64,
    pub url_expired_errors: u64,
    pub general_errors: u64,
    pub total_processing_time_ms: u64,
    pub main_queue_depth: u64,
    pub dlq_depth: u64,
}

/// All counters and gauges at zero.
pub open spec fn zeroed(m: WorkerMetrics) -> bool {
    m == (WorkerMetrics {
        jobs_processed: 0u64,
        jobs_succeeded: 0u64,
        jobs_failed: 0u64,
        jobs_moved_to_dlq: 0u64,
        url_expired_errors: 0u64,
        general_errors: 0u64,
        total_processing_time_ms: 0u64,
        main_queue_depth: 0u64,
        dlq_depth: 0u64,
    })
}

/// The metrics invariant: no more successes and dead-letter moves than
/// processed jobs.
pub open spec fn metrics_consistent(m: WorkerMetrics) -> bool {
    m.jobs_succeeded + m.jobs_moved_to_dlq <= m.jobs_processed
}

/// Headroom for one more recorded job: every counter a processing step may
/// bump is below its type's maximum.
pub open spec fn counters_have_room(m: WorkerMetrics) -> bool {
    &&& m.jobs_processed < u64::MAX
    &&& m.jobs_succeeded < u64::MAX
    &&& m.jobs_failed < u64::MAX
    &&& m.jobs_moved_to_dlq < u64::MAX
    &&& m.url_expired_errors < u64::MAX
    &&& m.general_errors < u64::MAX
}

impl WorkerMetrics {
    /// All counters and gauges start at zero.
    pub fn new() -> (r: Self)
        ensures
            r.jobs_processed == 0,
            r.jobs_succeeded == 0,
            r.jobs_failed == 0,
            r.jobs_moved_to_dlq == 0,
            r.url_expired_errors == 0,
            r.general_errors == 0,
            r.total_processing_time_ms == 0,
            r.main_queue_depth == 0,
            r.dlq_depth == 0,
            zeroed(r),
            metrics_consistent(r),
    {
        WorkerMetrics {
            jobs_processed: 0,
            jobs_succeeded: 0,
            jobs_failed: 0,
            jobs_moved_to_dlq: 0,
            url_expired_errors: 0,
            general_errors: 0,
            total_processing_time_ms: 0,
            main_queue_depth: 0,
            dlq_depth: 0,
        }
    }

    pub fn record_job_processed(&mut self)
        requires
            old(self).jobs_processed < u64::MAX,
        ensures
            *final(self) == (WorkerMetrics {
                jobs_processed: (old(self).jobs_processed + 1) as u64,
                ..*old(self)
            }),
    {
        self.jobs_processed = self.jobs_processed + 1;
    }

    pub fn record_job_succeeded(&mut self)
        requires
            old(self).jobs_succeeded < u64::MAX,
        ensures
            *final(self) == (WorkerMetrics {
                jobs_succeeded: (old(self).jobs_succeeded + 1) as u64,
                ..*old(self)
            }),
    {
        self.jobs_succeeded = self.jobs_succeeded + 1;
    }

    pub fn record_job_failed(&mut self)
        requires
            old(self).jobs_failed < u64::MAX,
        ensures
            *final(self) == (WorkerMetrics {
                jobs_failed: (old(self).jobs_failed + 1) as u64,
                ..*old(self)
            }),
    {
        self.jobs_failed = self.jobs_failed + 1;
    }

    pub fn record_job_moved_to_dlq(&mut self)
        requires
            old(self).jobs_moved_to_dlq < u64::MAX,
        ensures
            *final(self) == (WorkerMetrics {
                jobs_moved_to_dlq: (old(self).jobs_moved_to_dlq + 1) as u64,
                ..*old(self)
            }),
    {
        self.jobs_moved_to_dlq = self.jobs_moved_to_dlq + 1;
    }

    pub fn record_url_expired_error(&mut self)
        requires
            old(self).url_expired_errors < u64::MAX,
        ensures
            *final(self) == (WorkerMetrics {
                url_expired_errors: (old(self).url_expired_errors + 1) as u64,
                ..*old(self)
            }),
    {
        self.url_expired_errors = self.url_expired_errors + 1;
    }

    pub fn record_general_error(&mut self)
        requires
            old(self).general_errors < u64::MAX,
        ensures
            *final(self) == (WorkerMetrics {
                general_errors: (old(self).general_errors + 1) as u64,
                ..*old(self)
            }),
    {
        self.general_errors = self.general_errors + 1;
    }

    /// Adds elapsed time to the running total, stopping at the type's
    /// maximum rather than wrapping.
    pub fn record_processing_time(&mut self, ms: u64)
        ensures
            *final(self) == (WorkerMetrics {
                total_processing_time_ms: if old(self).total_processing_time_ms + ms <= u64::MAX {
                    (old(self).total_processing_time_ms + ms) as u64
                } else {
                    u64::MAX
                },
                ..*old(self)
            }),
    {
        if ms <= u64::MAX - self.total_processing_time_ms {
            self.total_processing_time_ms = self.total_processing_time_ms + ms;
        } else {
            self.total_processing_time_ms = u64::MAX;
        }
    }

    pub fn update_queue_depth(&mut self, main_depth: u64, dlq_depth: u64)
        ensures
            *final(self) == (WorkerMetrics {
                main_queue_depth: main_depth,
                dlq_depth: dlq_depth,
                ..*old(self)
            }),
    {
        self.main_queue_depth = main_depth;
        self.dlq_depth = dlq_depth;
    }

    /// A snapshot for the periodic log record. Nothing is reported before
    /// the first job was processed; afterwards the record carries the
    /// counters, the average processing time, and the two alerts: a deep
    /// dead-letter queue, and a failure rate above one in ten.
    pub fn log_metrics(&self) -> (r: Option<MetricsReport>)
        ensures
            self.jobs_processed == 0 <==> r is None,
            r matches Some(rep) ==> {
                &&& rep.jobs_processed == self.jobs_processed
                &&& rep.jobs_succeeded == self.jobs_succeeded
                &&& rep.jobs_failed == self.jobs_failed
                &&& rep.jobs_moved_to_dlq == self.jobs_moved_to_dlq
                &&& rep.url_expired_errors == self.url_expired_errors
                &&& rep.general_errors == self.general_errors
                &&& rep.avg_time_ms == self.total_processing_time_ms as int
                    / self.jobs_processed as int
                &&& rep.main_queue_depth == self.main_queue_depth
                &&& rep.dlq_depth == self.dlq_depth
                &&& rep.dlq_alert == (self.dlq_depth > 10)
                &&& rep.error_alert == (self.jobs_failed * 10 > self.jobs_processed)
            },
    {
        if self.jobs_processed == 0 {
            return None;
        }
        let avg_time_ms = self.total_processing_time_ms / self.jobs_processed;
        let failed_tenths: u128 = (self.jobs_failed as u128) * 10;
        let error_alert = failed_tenths > self.jobs_processed as u128;
        Some(
            MetricsReport {
                jobs_processed: self.jobs_processed,
                jobs_succeeded: self.jobs_succeeded,
                jobs_failed: self.jobs_failed,
                jobs_moved_to_dlq: self.jobs_moved_to_dlq,
                url_expired_errors: self.url_expired_errors,
                general_errors: self.general_errors,
                avg_time_ms,
                main_queue_depth: self.main_queue_depth,
                dlq_depth: self.dlq_depth,
                dlq_alert: self.dlq_depth > 10,
                error_alert,
            },
        )
    }

    /// Starts a processing timer at the given instant.
    pub fn start_timer(&self, now_ms: u64) -> (r: MetricsTimer)
        ensures
            r.start_ms == now_ms,
    {
        MetricsTimer { start_ms: now_ms }
    }
}

impl Default for WorkerMetrics {
    /// The default collector starts at zero, as `new` does.
    fn default() -> (r: Self)
        ensures
            zeroed(r),
    {
        WorkerMetrics::new()
    }
}

/// One record of the periodic metrics log.
pub struct MetricsReport {
    pub jobs_processed: u64,
    pub jobs_succeeded: u64,
    pub jobs_failed: u64,
    pub jobs_moved_to_dlq: u64,
    pub url_expired_errors: u64,
    pub general_errors: u64,
    pub avg_time_ms: u64,
    pub main_queue_depth: u64,
    pub dlq_depth: u64,
    pub dlq_alert: bool,
    pub error_alert: bool,
}

/// A processing timer: disposed on every exit path of a processing step by
/// calling `finish`, which adds the elapsed time to the running total.
pub struct MetricsTimer {
    pub start_ms: u64,
}

impl MetricsTimer {
    /// Records the time elapsed since the timer started. A clock that
    /// stepped backwards records nothing.
    pub fn finish(self, metrics: &mut WorkerMetrics, now_ms: u64)
        ensures
            *final(metrics) == (WorkerMetrics {
                total_processing_time_ms: {
                    let elapsed = if now_ms >= self.start_ms {
                        now_ms - self.start_ms
                    } else {
                        0
                    };
                    if old(metrics).total_processing_time_ms + elapsed <= u64::MAX {
                        (old(metrics).total_processing_time_ms + elapsed) as u64
                    } else {
                        u64::MAX
                    }
                },
                ..*old(metrics)
            }),
    {
        let elapsed: u64 = if now_ms >= self.start_ms {
            now_ms - self.start_ms
        } else {
            0
        };
        metrics.record_processing_time(elapsed);
    }
}

} // verus!

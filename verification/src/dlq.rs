//! The dead-letter consumer's decisions: classifying a failed job as
//! recoverable or not, and one processing step over the metrics. Jobs popped
//! from the dead-letter queue are never requeued; a non-recovered job is
//! flagged for manual intervention, never silently lost.

use vstd::prelude::*;

verus! {

use vstd::string::StringExecFns;
use crate::job::{FileUploadJob, JobView, meta_view};
use crate::metrics::{WorkerMetrics, counters_have_room, metrics_consistent};
use crate::worker::{url_expired, url_is_expired};

/// The first metadata value stored under the given key.
pub open spec fn meta_lookup(ps: Seq<(Seq<char>, Seq<char>)>, key: Seq<char>) -> Option<Seq<char>>
    decreases ps.len(),
{
    if ps.len() == 0 {
        None
    } else if ps[0].0 == key {
        Some(ps[0].1)
    } else {
        meta_lookup(ps.drop_first(), key)
    }
}

/// The error kinds whose jobs the dead-letter consumer may recover.
pub open spec fn recoverable_error_type(v: Seq<char>) -> bool {
    v == "temporary_network_error"@ || v == "rate_limited"@ || v == "service_unavailable"@
}

/// A dead-lettered job is recoverable when its URL is classified as expired
/// — a fresh URL can be requested — or its metadata names a transient error.
pub open spec fn recoverable(j: JobView) -> bool {
    url_expired(j) || match meta_lookup(j.metadata, "error_type"@) {
        Option::Some(v) => recoverable_error_type(v),
        Option::None => false,
    }
}

/// Classifies a dead-lettered job.
pub fn is_recoverable_error(job: &FileUploadJob) -> (r: bool)
    ensures
        r == recoverable(job@),
{
    if url_is_expired(job) {
        return true;
    }
    let key = String::from_str("error_type");
    let t1 = String::from_str("temporary_network_error");
    let t2 = String::from_str("rate_limited");
    let t3 = String::from_str("service_unavailable");
    let ghost full = meta_view(job.metadata@);
    proof {
        assert(full.skip(0int) =~= full);
    }
    let mut i: usize = 0;
    while i < job.metadata.len()
        invariant
            i <= job.metadata@.len(),
            full == meta_view(job.metadata@),
            full.len() == job.metadata@.len(),
            key@ == "error_type"@,
            t1@ == "temporary_network_error"@,
            t2@ == "rate_limited"@,
            t3@ == "service_unavailable"@,
            !url_expired(job@),
            meta_lookup(full, "error_type"@) == meta_lookup(
                full.skip(i as int),
                "error_type"@,
            ),
        decreases job.metadata@.len() - i,
    {
        let ghost suf = full.skip(i as int);
        proof {
            assert(suf[0] == full[i as int]);
            assert(full[i as int] == (job.metadata@[i as int].0@, job.metadata@[i as int].1@));
        }
        if job.metadata[i].0 == key {
            let v = &job.metadata[i].1;
            let hit = *v == t1 || *v == t2 || *v == t3;
            proof {
                assert(meta_lookup(suf, "error_type"@) == Some(job.metadata@[i as int].1@));
            }
            return hit;
        }
        proof {
            assert(suf.drop_first() =~= full.skip(i + 1));
            assert(meta_lookup(suf, "error_type"@) == meta_lookup(full.skip(i + 1), "error_type"@));
        }
        i = i + 1;
    }
    proof {
        assert(full.skip(full.len() as int) =~= Seq::<(Seq<char>, Seq<char>)>::empty());
    }
    false
}

/// What the recovery handler reported. The handler's work — requesting a
/// fresh URL, retrying through another path — is an outside effect; the
/// accounting holds for every report.
pub enum RecoveryOutcome {
    Recovered,
    NotRecovered(String),
}

/// What one dead-letter step concluded.
#[derive(Clone, Copy, Debug, PartialEq, Eq, Structural)]
pub enum DlqResult {
    Recovered,
    ManualIntervention,
}

/// One dead-letter processing step for a job popped from the dead-letter
/// queue: count it processed; a recoverable job that the handler recovered
/// counts succeeded; everything else is flagged for manual intervention and
/// counts a general error. The job is dropped either way, never requeued.
pub fn process_dlq_job(
    metrics: &mut WorkerMetrics,
    job: &FileUploadJob,
    recovery: &RecoveryOutcome,
) -> (r: DlqResult)
    requires
        counters_have_room(*old(metrics)),
    ensures
        recoverable(job@) && recovery is Recovered ==> r == DlqResult::Recovered && *final(metrics)
            == (WorkerMetrics {
            jobs_processed: (old(metrics).jobs_processed + 1) as u64,
            jobs_succeeded: (old(metrics).jobs_succeeded + 1) as u64,
            ..*old(metrics)
        }),
        recoverable(job@) && recovery is NotRecovered ==> r == DlqResult::ManualIntervention
            && *final(metrics) == (WorkerMetrics {
            jobs_processed: (old(metrics).jobs_processed + 1) as u64,
            general_errors: (old(metrics).general_errors + 1) as u64,
            ..*old(metrics)
        }),
        !recoverable(job@) ==> r == DlqResult::ManualIntervention && *final(metrics)
            == (WorkerMetrics {
            jobs_processed: (old(metrics).jobs_processed + 1) as u64,
            general_errors: (old(metrics).general_errors + 1) as u64,
            ..*old(metrics)
        }),
        metrics_consistent(*old(metrics)) ==> metrics_consistent(*final(metrics)),
        final(metrics).general_errors >= old(metrics).general_errors,
        final(metrics).url_expired_errors >= old(metrics).url_expired_errors,
{
    metrics.record_job_processed();
    if is_recoverable_error(job) {
        match recovery {
            RecoveryOutcome::Recovered => {
                metrics.record_job_succeeded();
                DlqResult::Recovered
            },
            RecoveryOutcome::NotRecovered(_) => {
                metrics.record_general_error();
                DlqResult::ManualIntervention
            },
        }
    } else {
        metrics.record_general_error();
        DlqResult::ManualIntervention
    }
}

} // verus!

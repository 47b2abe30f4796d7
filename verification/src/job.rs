//! The unit of work: a serializable job with identity, target key, payload
//! reference, retry counter and timestamps.

use vstd::prelude::*;

verus! {

use vstd::string::StringExecFns;
use crate::codec;
use crate::errors::WorkerError;
use crate::text;
use crate::wrappers;

/// Status of a job as observed through its placement and the metrics;
/// it is not stored on the job itself.
#[derive(Clone, Copy, Debug, PartialEq, Eq, Structural)]
pub enum JobStatus {
    Pending,
    Processing,
    Completed,
    Failed,
    UrlExpired,
    DeadLetter,
}

/// Mathematical value of a job: every field as a plain value.
pub struct JobView {
    pub id: u128,
    pub esign_id: Seq<char>,
    pub document_url: Seq<char>,
    pub document_name: Seq<char>,
    pub document_type: Seq<char>,
    pub retry_count: u32,
    pub created_at: i64,
    pub updated_at: i64,
    pub metadata: Seq<(Seq<char>, Seq<char>)>,
}

/// View of a key-value metadata list.
pub open spec fn meta_view(m: Seq<(String, String)>) -> Seq<(Seq<char>, Seq<char>)> {
    Seq::new(m.len(), |i: int| (m[i].0@, m[i].1@))
}

/// A file-upload job. The identity is set once at creation; the retry
/// counter only grows; `updated_at` never falls behind `created_at`.
pub struct FileUploadJob {
    pub id: u128,
    pub esign_id: String,
    pub document_url: String,
    pub document_name: String,
    pub document_type: String,
    pub retry_count: u32,
    pub created_at: i64,
    pub updated_at: i64,
    pub metadata: Vec<(String, String)>,
}

impl View for FileUploadJob {
    type V = JobView;

    open spec fn view(&self) -> JobView {
        JobView {
            id: self.id,
            esign_id: self.esign_id@,
            document_url: self.document_url@,
            document_name: self.document_name@,
            document_type: self.document_type@,
            retry_count: self.retry_count,
            created_at: self.created_at,
            updated_at: self.updated_at,
            metadata: meta_view(self.metadata@),
        }
    }
}

impl Clone for FileUploadJob {
    fn clone(&self) -> (r: Self)
        ensures
            r@ == self@,
    {
        let mut metadata: Vec<(String, String)> = Vec::new();
        let mut i: usize = 0;
        while i < self.metadata.len()
            invariant
                i <= self.metadata@.len(),
                metadata@.len() == i,
                forall|k: int|
                    0 <= k < i ==> (#[trigger] metadata@[k]).0@ == self.metadata@[k].0@
                        && metadata@[k].1@ == self.metadata@[k].1@,
            decreases self.metadata@.len() - i,
        {
            let pair = (self.metadata[i].0.clone(), self.metadata[i].1.clone());
            metadata.push(pair);
            i = i + 1;
        }
        let r = FileUploadJob {
            id: self.id,
            esign_id: self.esign_id.clone(),
            document_url: self.document_url.clone(),
            document_name: self.document_name.clone(),
            document_type: self.document_type.clone(),
            retry_count: self.retry_count,
            created_at: self.created_at,
            updated_at: self.updated_at,
            metadata,
        };
        proof {
            assert(meta_view(r.metadata@) =~= meta_view(self.metadata@));
        }
        r
    }
}

/// Well-formedness of a job: the update timestamp never precedes creation.
pub open spec fn job_wf(j: JobView) -> bool {
    j.created_at <= j.updated_at
}

/// The broker key under which work for this job's entity is serialized.
pub open spec fn lock_key_of(esign_id: Seq<char>) -> Seq<char> {
    "upload_lock:"@ + esign_id
}

impl FileUploadJob {
    /// Creates a job with a fresh identity, a zero retry counter, and both
    /// timestamps set to the moment of creation.
    pub fn new(
        esign_id: String,
        document_url: String,
        document_name: String,
        document_type: String,
        metadata: Vec<(String, String)>,
    ) -> (r: Self)
        ensures
            r.esign_id@ == esign_id@,
            r.document_url@ == document_url@,
            r.document_name@ == document_name@,
            r.document_type@ == document_type@,
            r.retry_count == 0,
            r.created_at == r.updated_at,
            r.metadata@ == metadata@,
            job_wf(r@),
    {
        let id = wrappers::fresh_uuid();
        let now = wrappers::now_millis();
        FileUploadJob {
            id,
            esign_id,
            document_url,
            document_name,
            document_type,
            retry_count: 0,
            created_at: now,
            updated_at: now,
            metadata,
        }
    }

    /// Bumps the retry counter by one and moves the update timestamp
    /// forward, never backward, even if the clock stepped back.
    pub fn increment_retry(&mut self)
        requires
            old(self).retry_count < u32::MAX,
        ensures
            final(self).retry_count == old(self).retry_count + 1,
            final(self).updated_at >= old(self).updated_at,
            final(self).id == old(self).id,
            final(self).esign_id@ == old(self).esign_id@,
            final(self).document_url@ == old(self).document_url@,
            final(self).document_name@ == old(self).document_name@,
            final(self).document_type@ == old(self).document_type@,
            final(self).created_at == old(self).created_at,
            final(self).metadata@ == old(self).metadata@,
            job_wf(old(self)@) ==> job_wf(final(self)@),
    {
        self.retry_count = self.retry_count + 1;
        let now = wrappers::now_millis();
        if now > self.updated_at {
            self.updated_at = now;
        }
    }

    /// The distributed-lock key for this job's entity.
    pub fn get_lock_key(&self) -> (r: String)
        ensures
            r@ == lock_key_of(self.esign_id@),
    {
        let mut r = String::new();
        r.append("upload_lock:");
        r.append(self.esign_id.as_str());
        r
    }

    /// Serializes the job in its wire format.
    pub fn to_json(&self) -> (r: String)
        ensures
            r@ == codec::encode_job(self@),
    {
        codec::encode_to_string(self)
    }

    /// Parses a job from its wire format; fails exactly on text that the
    /// format does not admit.
    pub fn from_json(json: &str) -> (r: Result<Self, WorkerError>)
        ensures
            match r {
                Ok(job) => codec::spec_decode(json@) == Some(job@),
                Err(e) => codec::spec_decode(json@) is None && e is Json,
            },
    {
        let chars = text::str_to_chars(json);
        match codec::decode_chars(&chars) {
            Option::Some(job) => Ok(job),
            Option::None => Err(
                WorkerError::Json(String::from_str("the text is not an encoded job")),
            ),
        }
    }
}

} // verus!

//! The queue adapter: two durable list-like queues, *main* and the
//! dead-letter queue, holding serialized jobs. Jobs are pushed to the head
//! and popped from the tail; a popped element that does not decode is
//! already off the broker and surfaces as a typed error.

use vstd::prelude::*;

verus! {

use crate::codec::{encode_job, spec_decode};
use crate::errors::WorkerError;
use crate::job::FileUploadJob;

/// The texts held by a list of serialized jobs, head first.
pub open spec fn texts(q: Seq<String>) -> Seq<Seq<char>> {
    Seq::new(q.len(), |i: int| q[i]@)
}

/// The two broker lists, each a sequence of serialized jobs with the head
/// at index zero.
pub struct RedisQueue {
    main: Vec<String>,
    dlq: Vec<String>,
}

impl RedisQueue {
    /// What the main queue holds, head first.
    pub closed spec fn main_texts(&self) -> Seq<Seq<char>> {
        texts(self.main@)
    }

    /// What the dead-letter queue holds, head first.
    pub closed spec fn dlq_texts(&self) -> Seq<Seq<char>> {
        texts(self.dlq@)
    }

    /// Two empty queues.
    pub fn new() -> (r: Self)
        ensures
            r.main_texts() == Seq::<Seq<char>>::empty(),
            r.dlq_texts() == Seq::<Seq<char>>::empty(),
    {
        let r = RedisQueue { main: Vec::new(), dlq: Vec::new() };
        proof {
            assert(r.main_texts() =~= Seq::<Seq<char>>::empty());
            assert(r.dlq_texts() =~= Seq::<Seq<char>>::empty());
        }
        r
    }

    /// Pushes the serialized job to the head of the main queue.
    pub fn enqueue_job(&mut self, job: &FileUploadJob)
        ensures
            final(self).main_texts() == seq![encode_job(job@)] + old(self).main_texts(),
            final(self).dlq_texts() == old(self).dlq_texts(),
    {
        let encoded = job.to_json();
        self.main.insert(0, encoded);
        proof {
            assert(self.main_texts() =~= seq![encode_job(job@)] + old(self).main_texts());
            assert(self.dlq_texts() =~= old(self).dlq_texts());
        }
    }

    /// Pushes the serialized job to the head of the dead-letter queue.
    pub fn move_to_dlq(&mut self, job: &FileUploadJob)
        ensures
            final(self).dlq_texts() == seq![encode_job(job@)] + old(self).dlq_texts(),
            final(self).main_texts() == old(self).main_texts(),
    {
        let encoded = job.to_json();
        self.dlq.insert(0, encoded);
        proof {
            assert(self.dlq_texts() =~= seq![encode_job(job@)] + old(self).dlq_texts());
            assert(self.main_texts() =~= old(self).main_texts());
        }
    }

    /// Pushes raw text to the head of the main queue, as an outside
    /// producer writing to the broker may.
    pub fn enqueue_text(&mut self, text: String)
        ensures
            final(self).main_texts() == seq![text@] + old(self).main_texts(),
            final(self).dlq_texts() == old(self).dlq_texts(),
    {
        let ghost tv = text@;
        self.main.insert(0, text);
        proof {
            assert(self.main_texts() =~= seq![tv] + old(self).main_texts());
            assert(self.dlq_texts() =~= old(self).dlq_texts());
        }
    }

    /// Pushes raw text to the head of the dead-letter queue: the resting
    /// place of a popped element that does not decode.
    pub fn move_text_to_dlq(&mut self, text: String)
        ensures
            final(self).dlq_texts() == seq![text@] + old(self).dlq_texts(),
            final(self).main_texts() == old(self).main_texts(),
    {
        let ghost tv = text@;
        self.dlq.insert(0, text);
        proof {
            assert(self.dlq_texts() =~= seq![tv] + old(self).dlq_texts());
            assert(self.main_texts() =~= old(self).main_texts());
        }
    }

    /// Pops from the tail of the main queue. An empty queue yields nothing;
    /// a popped element that does not decode is gone from the queue and
    /// surfaces as a typed error.
    pub fn dequeue_job(&mut self) -> (r: Result<Option<FileUploadJob>, WorkerError>)
        ensures
            old(self).main_texts().len() == 0 ==> (r matches Ok(o) && o is None
                && final(self).main_texts() == old(self).main_texts()
                && final(self).dlq_texts() == old(self).dlq_texts()),
            old(self).main_texts().len() > 0 ==> {
                &&& final(self).main_texts() == old(self).main_texts().drop_last()
                &&& final(self).dlq_texts() == old(self).dlq_texts()
                &&& match spec_decode(old(self).main_texts().last()) {
                    Option::Some(jv) => r matches Ok(o) && o matches Some(job) && job@ == jv,
                    Option::None => r matches Err(e) && e matches WorkerError::Json(text)
                        && text@ == old(self).main_texts().last(),
                }
            },
    {
        let popped = self.main.pop();
        match popped {
            Option::None => {
                proof {
                    assert(old(self).main_texts().len() == 0);
                }
                Ok(None)
            },
            Option::Some(encoded) => {
                proof {
                    assert(old(self).main_texts().last() == encoded@);
                    assert(self.main_texts() =~= old(self).main_texts().drop_last());
                    assert(self.dlq_texts() =~= old(self).dlq_texts());
                }
                match FileUploadJob::from_json(encoded.as_str()) {
                    Ok(job) => Ok(Some(job)),
                    Err(_) => Err(WorkerError::Json(encoded)),
                }
            },
        }
    }

    /// Pops from the tail of the dead-letter queue, as `dequeue_job` does
    /// from the main queue.
    pub fn dequeue_dlq_job(&mut self) -> (r: Result<Option<FileUploadJob>, WorkerError>)
        ensures
            old(self).dlq_texts().len() == 0 ==> (r matches Ok(o) && o is None
                && final(self).dlq_texts() == old(self).dlq_texts()
                && final(self).main_texts() == old(self).main_texts()),
            old(self).dlq_texts().len() > 0 ==> {
                &&& final(self).dlq_texts() == old(self).dlq_texts().drop_last()
                &&& final(self).main_texts() == old(self).main_texts()
                &&& match spec_decode(old(self).dlq_texts().last()) {
                    Option::Some(jv) => r matches Ok(o) && o matches Some(job) && job@ == jv,
                    Option::None => r matches Err(e) && e matches WorkerError::Json(text)
                        && text@ == old(self).dlq_texts().last(),
                }
            },
    {
        let popped = self.dlq.pop();
        match popped {
            Option::None => {
                proof {
                    assert(old(self).dlq_texts().len() == 0);
                }
                Ok(None)
            },
            Option::Some(encoded) => {
                proof {
                    assert(old(self).dlq_texts().last() == encoded@);
                    assert(self.dlq_texts() =~= old(self).dlq_texts().drop_last());
                    assert(self.main_texts() =~= old(self).main_texts());
                }
                match FileUploadJob::from_json(encoded.as_str()) {
                    Ok(job) => Ok(Some(job)),
                    Err(_) => Err(WorkerError::Json(encoded)),
                }
            },
        }
    }

    /// Snapshot length of the main queue.
    pub fn get_queue_length(&self) -> (r: u64)
        ensures
            r == self.main_texts().len(),
    {
        self.main.len() as u64
    }

    /// Snapshot length of the dead-letter queue.
    pub fn get_dlq_length(&self) -> (r: u64)
        ensures
            r == self.dlq_texts().len(),
    {
        self.dlq.len() as u64
    }
}

} // verus!

//! The error taxonomy of the job system.

use vstd::prelude::*;

verus! {

/// What can go wrong inside the workers. Broker and transport failures carry
/// the peer's message; policy failures carry their own classification.
#[derive(Debug)]
pub enum WorkerError {
    /// A broker transport failure.
    Redis(String),
    /// The popped element is not an encoded job.
    Json(String),
    /// The per-entity lock could not be taken.
    LockAcquisition(String),
    /// The document's source URL has expired.
    DocumentUrlExpired,
    /// The transfer itself failed.
    UploadFailed(String),
    /// Graceful shutdown did not finish within its deadline.
    Shutdown,
    /// The configuration could not be read.
    Config(String),
    /// An input or output failure outside the broker.
    Io(String),
    /// An HTTP failure while fetching or storing a document.
    Http(String),
}

pub type WorkerResult<T> = Result<T, WorkerError>;

} // verus!

//! Background file-upload job system: a durable two-queue broker protocol,
//! per-entity distributed locking, a retry/dead-letter policy, and the
//! metrics that observe them, with the policy decisions verified.

pub mod codec;
pub mod config;
pub mod digits;
pub mod dlq;
pub mod errors;
pub mod hex;
pub mod job;
pub mod lock;
pub mod metrics;
pub mod queue;
pub mod supervisor;
pub mod text;
pub mod worker;
mod wrappers;

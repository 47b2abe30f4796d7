//! The configuration surface of the worker system: the environment values
//! that govern it, their exact parsing with defaults, and the worker-mode
//! override.

use vstd::prelude::*;

verus! {

use vstd::string::StringExecFns;
use crate::digits::{spec_parse_nat, parse_u128_at};
use crate::errors::WorkerError;
use crate::text::str_to_chars;

/// The immutable configuration, durations as plain integers.
pub struct WorkerConfig {
    pub background_worker_thread_enabled: bool,
    pub background_worker_consumer_thread_count: usize,
    pub worker_consumer_wait_interval_ms: u64,
    pub worker_consumer_max_retry: u32,
    pub file_upload_worker_dlq_thread_enabled: bool,
    pub file_upload_worker_dlq_thread_count: usize,
    pub file_upload_worker_dlq_wait_interval_ms: u64,
    pub redis_url: String,
    pub worker_upload_file_queue: String,
    pub worker_upload_file_dlq: String,
    pub lock_timeout_secs: u64,
    pub lock_retry_interval_ms: u64,
    pub graceful_shutdown_timeout_secs: u64,
}

impl Clone for WorkerConfig {
    fn clone(&self) -> (r: Self)
        ensures
            r.background_worker_thread_enabled == self.background_worker_thread_enabled,
            r.background_worker_consumer_thread_count
                == self.background_worker_consumer_thread_count,
            r.worker_consumer_wait_interval_ms == self.worker_consumer_wait_interval_ms,
            r.worker_consumer_max_retry == self.worker_consumer_max_retry,
            r.file_upload_worker_dlq_thread_enabled == self.file_upload_worker_dlq_thread_enabled,
            r.file_upload_worker_dlq_thread_count == self.file_upload_worker_dlq_thread_count,
            r.file_upload_worker_dlq_wait_interval_ms == self.file_upload_worker_dlq_wait_interval_ms,
            r.redis_url@ == self.redis_url@,
            r.worker_upload_file_queue@ == self.worker_upload_file_queue@,
            r.worker_upload_file_dlq@ == self.worker_upload_file_dlq@,
            r.lock_timeout_secs == self.lock_timeout_secs,
            r.lock_retry_interval_ms == self.lock_retry_interval_ms,
            r.graceful_shutdown_timeout_secs == self.graceful_shutdown_timeout_secs,
    {
        WorkerConfig {
            background_worker_thread_enabled: self.background_worker_thread_enabled,
            background_worker_consumer_thread_count: self.background_worker_consumer_thread_count,
            worker_consumer_wait_interval_ms: self.worker_consumer_wait_interval_ms,
            worker_consumer_max_retry: self.worker_consumer_max_retry,
            file_upload_worker_dlq_thread_enabled: self.file_upload_worker_dlq_thread_enabled,
            file_upload_worker_dlq_thread_count: self.file_upload_worker_dlq_thread_count,
            file_upload_worker_dlq_wait_interval_ms: self.file_upload_worker_dlq_wait_interval_ms,
            redis_url: self.redis_url.clone(),
            worker_upload_file_queue: self.worker_upload_file_queue.clone(),
            worker_upload_file_dlq: self.worker_upload_file_dlq.clone(),
            lock_timeout_secs: self.lock_timeout_secs,
            lock_retry_interval_ms: self.lock_retry_interval_ms,
            graceful_shutdown_timeout_secs: self.graceful_shutdown_timeout_secs,
        }
    }
}

impl WorkerConfig {
    /// In worker mode both pools run, whatever the flags said; in API mode
    /// the configuration stands as it is.
    pub fn apply_app_mode(self, worker_mode: bool) -> (r: Self)
        ensures
            worker_mode ==> r.background_worker_thread_enabled
                && r.file_upload_worker_dlq_thread_enabled,
            !worker_mode ==> r.background_worker_thread_enabled
                == self.background_worker_thread_enabled
                && r.file_upload_worker_dlq_thread_enabled
                == self.file_upload_worker_dlq_thread_enabled,
            r.background_worker_consumer_thread_count
                == self.background_worker_consumer_thread_count,
            r.worker_consumer_wait_interval_ms == self.worker_consumer_wait_interval_ms,
            r.worker_consumer_max_retry == self.worker_consumer_max_retry,
            r.file_upload_worker_dlq_thread_count == self.file_upload_worker_dlq_thread_count,
            r.file_upload_worker_dlq_wait_interval_ms == self.file_upload_worker_dlq_wait_interval_ms,
            r.redis_url@ == self.redis_url@,
            r.worker_upload_file_queue@ == self.worker_upload_file_queue@,
            r.worker_upload_file_dlq@ == self.worker_upload_file_dlq@,
            r.lock_timeout_secs == self.lock_timeout_secs,
            r.lock_retry_interval_ms == self.lock_retry_interval_ms,
            r.graceful_shutdown_timeout_secs == self.graceful_shutdown_timeout_secs,
    {
        if worker_mode {
            WorkerConfig {
                background_worker_thread_enabled: true,
                file_upload_worker_dlq_thread_enabled: true,
                ..self
            }
        } else {
            self
        }
    }
}

/// What `str::parse::<bool>` accepts: exactly the two words.
pub open spec fn spec_parse_bool(s: Seq<char>) -> Option<bool> {
    if s == "true"@ {
        Some(true)
    } else if s == "false"@ {
        Some(false)
    } else {
        None
    }
}

/// What an unsigned decimal parse accepts: an optional plus sign, then
/// digits covering the whole text, with the value within the given bound.
pub open spec fn spec_parse_uint(s: Seq<char>, bound: nat) -> Option<nat> {
    let digits = if s.len() > 0 && s[0] == '+' {
        s.drop_first()
    } else {
        s
    };
    match spec_parse_nat(digits) {
        Option::Some((v, n)) => {
            if n == digits.len() && v <= bound {
                Some(v)
            } else {
                None
            }
        },
        Option::None => None,
    }
}

/// Parses a boolean configuration value.
pub fn parse_bool(s: &String) -> (r: Option<bool>)
    ensures
        r == spec_parse_bool(s@),
{
    let t = String::from_str("true");
    let f = String::from_str("false");
    if *s == t {
        Some(true)
    } else if *s == f {
        Some(false)
    } else {
        None
    }
}

/// Parses an unsigned 64-bit configuration value.
pub fn parse_u64(s: &String) -> (r: Option<u64>)
    ensures
        r == match spec_parse_uint(s@, u64::MAX as nat) {
            Option::Some(v) => Some(v as u64),
            Option::None => None::<u64>,
        },
{
    let chars = str_to_chars(s.as_str());
    let start: usize = if chars.len() > 0 && chars[0] == '+' {
        1
    } else {
        0
    };
    let ghost digits = if s@.len() > 0 && s@[0] == '+' {
        s@.drop_first()
    } else {
        s@
    };
    proof {
        assert(chars@.skip(start as int) =~= digits);
    }
    match parse_u128_at(&chars, start) {
        Option::Some((v, j)) => {
            if j == chars.len() && v <= u64::MAX as u128 {
                Some(v as u64)
            } else {
                None
            }
        },
        Option::None => None,
    }
}

/// Parses an unsigned 32-bit configuration value.
pub fn parse_u32(s: &String) -> (r: Option<u32>)
    ensures
        r == match spec_parse_uint(s@, u32::MAX as nat) {
            Option::Some(v) => Some(v as u32),
            Option::None => None::<u32>,
        },
{
    let chars = str_to_chars(s.as_str());
    let start: usize = if chars.len() > 0 && chars[0] == '+' {
        1
    } else {
        0
    };
    let ghost digits = if s@.len() > 0 && s@[0] == '+' {
        s@.drop_first()
    } else {
        s@
    };
    proof {
        assert(chars@.skip(start as int) =~= digits);
    }
    match parse_u128_at(&chars, start) {
        Option::Some((v, j)) => {
            if j == chars.len() && v <= u32::MAX as u128 {
                Some(v as u32)
            } else {
                None
            }
        },
        Option::None => None,
    }
}

/// Parses a thread-count configuration value.
pub fn parse_usize(s: &String) -> (r: Option<usize>)
    ensures
        r == match spec_parse_uint(s@, usize::MAX as nat) {
            Option::Some(v) => Some(v as usize),
            Option::None => None::<usize>,
        },
{
    let chars = str_to_chars(s.as_str());
    let start: usize = if chars.len() > 0 && chars[0] == '+' {
        1
    } else {
        0
    };
    let ghost digits = if s@.len() > 0 && s@[0] == '+' {
        s@.drop_first()
    } else {
        s@
    };
    proof {
        assert(chars@.skip(start as int) =~= digits);
    }
    match parse_u128_at(&chars, start) {
        Option::Some((v, j)) => {
            if j == chars.len() && v <= usize::MAX as u128 {
                Some(v as usize)
            } else {
                None
            }
        },
        Option::None => None,
    }
}

/// The raw environment values the configuration is read from; a missing
/// variable takes its documented default.
pub struct EnvValues {
    pub background_worker_thread_enabled: Option<String>,
    pub background_worker_consumer_thread_count: Option<String>,
    pub worker_consumer_wait_interval_in_milliseconds: Option<String>,
    pub worker_consumer_max_retry: Option<String>,
    pub file_upload_worker_dlq_thread_enabled: Option<String>,
    pub file_upload_worker_dlq_thread_count: Option<String>,
    pub file_upload_worker_dlq_wait_interval_in_milliseconds: Option<String>,
    pub redis_url: Option<String>,
    pub worker_upload_file_queue: Option<String>,
    pub worker_upload_file_dlq: Option<String>,
    pub worker_lock_timeout_seconds: Option<String>,
    pub worker_lock_retry_interval_milliseconds: Option<String>,
    pub worker_graceful_shutdown_timeout_seconds: Option<String>,
}

/// A boolean field: the parsed value when set, the default when missing.
pub open spec fn bool_field(v: Option<String>, default: bool) -> Option<bool> {
    match v {
        Option::Some(s) => spec_parse_bool(s@),
        Option::None => Some(default),
    }
}

/// An unsigned field: the parsed value when set, the default when missing.
pub open spec fn uint_field(v: Option<String>, bound: nat, default: nat) -> Option<nat> {
    match v {
        Option::Some(s) => spec_parse_uint(s@, bound),
        Option::None => Some(default),
    }
}

/// A string field: the given value when set, the default when missing.
pub open spec fn string_field(v: Option<String>, default: Seq<char>) -> Seq<char> {
    match v {
        Option::Some(s) => s@,
        Option::None => default,
    }
}

/// Whether every present environment value parses.
pub open spec fn env_values_parse(ev: EnvValues) -> bool {
    &&& bool_field(ev.background_worker_thread_enabled, false) is Some
    &&& uint_field(ev.background_worker_consumer_thread_count, usize::MAX as nat, 1) is Some
    &&& uint_field(ev.worker_consumer_wait_interval_in_milliseconds, u64::MAX as nat, 5000)
        is Some
    &&& uint_field(ev.worker_consumer_max_retry, u32::MAX as nat, 3) is Some
    &&& bool_field(ev.file_upload_worker_dlq_thread_enabled, false) is Some
    &&& uint_field(ev.file_upload_worker_dlq_thread_count, usize::MAX as nat, 1) is Some
    &&& uint_field(
        ev.file_upload_worker_dlq_wait_interval_in_milliseconds,
        u64::MAX as nat,
        10000,
    ) is Some
    &&& uint_field(ev.worker_lock_timeout_seconds, u64::MAX as nat, 300) is Some
    &&& uint_field(ev.worker_lock_retry_interval_milliseconds, u64::MAX as nat, 100) is Some
    &&& uint_field(ev.worker_graceful_shutdown_timeout_seconds, u64::MAX as nat, 30) is Some
}

impl WorkerConfig {
    /// Builds the configuration from environment values: each present value
    /// must parse, each missing one takes its default. Fails with a
    /// configuration error exactly when some present value does not parse.
    pub fn from_env_values(ev: EnvValues) -> (r: Result<Self, WorkerError>)
        ensures
            r is Ok <==> env_values_parse(ev),
            r matches Ok(c) ==> {
                &&& Some(c.background_worker_thread_enabled) == bool_field(
                    ev.background_worker_thread_enabled,
                    false,
                )
                &&& Some(c.background_worker_consumer_thread_count as nat) == uint_field(
                    ev.background_worker_consumer_thread_count,
                    usize::MAX as nat,
                    1,
                )
                &&& Some(c.worker_consumer_wait_interval_ms as nat) == uint_field(
                    ev.worker_consumer_wait_interval_in_milliseconds,
                    u64::MAX as nat,
                    5000,
                )
                &&& Some(c.worker_consumer_max_retry as nat) == uint_field(
                    ev.worker_consumer_max_retry,
                    u32::MAX as nat,
                    3,
                )
                &&& Some(c.file_upload_worker_dlq_thread_enabled) == bool_field(
                    ev.file_upload_worker_dlq_thread_enabled,
                    false,
                )
                &&& Some(c.file_upload_worker_dlq_thread_count as nat) == uint_field(
                    ev.file_upload_worker_dlq_thread_count,
                    usize::MAX as nat,
                    1,
                )
                &&& Some(c.file_upload_worker_dlq_wait_interval_ms as nat) == uint_field(
                    ev.file_upload_worker_dlq_wait_interval_in_milliseconds,
                    u64::MAX as nat,
                    10000,
                )
                &&& c.redis_url@ == string_field(ev.redis_url, "redis://localhost:6379"@)
                &&& c.worker_upload_file_queue@ == string_field(
                    ev.worker_upload_file_queue,
                    "upload_file_queue"@,
                )
                &&& c.worker_upload_file_dlq@ == string_field(
                    ev.worker_upload_file_dlq,
                    "upload_file_dlq"@,
                )
                &&& Some(c.lock_timeout_secs as nat) == uint_field(
                    ev.worker_lock_timeout_seconds,
                    u64::MAX as nat,
                    300,
                )
                &&& Some(c.lock_retry_interval_ms as nat) == uint_field(
                    ev.worker_lock_retry_interval_milliseconds,
                    u64::MAX as nat,
                    100,
                )
                &&& Some(c.graceful_shutdown_timeout_secs as nat) == uint_field(
                    ev.worker_graceful_shutdown_timeout_seconds,
                    u64::MAX as nat,
                    30,
                )
            },
            r matches Err(e) ==> e is Config,
    {
        let background_worker_thread_enabled = match &ev.background_worker_thread_enabled {
            Option::Some(s) => match parse_bool(s) {
                Option::Some(b) => b,
                Option::None => {
                    return Err(config_error());
                },
            },
            Option::None => false,
        };
        let background_worker_consumer_thread_count = match &ev
            .background_worker_consumer_thread_count {
            Option::Some(s) => match parse_usize(s) {
                Option::Some(v) => v,
                Option::None => {
                    return Err(config_error());
                },
            },
            Option::None => 1,
        };
        let worker_consumer_wait_interval_ms = match &ev
            .worker_consumer_wait_interval_in_milliseconds {
            Option::Some(s) => match parse_u64(s) {
                Option::Some(v) => v,
                Option::None => {
                    return Err(config_error());
                },
            },
            Option::None => 5000,
        };
        let worker_consumer_max_retry = match &ev.worker_consumer_max_retry {
            Option::Some(s) => match parse_u32(s) {
                Option::Some(v) => v,
                Option::None => {
                    return Err(config_error());
                },
            },
            Option::None => 3,
        };
        let file_upload_worker_dlq_thread_enabled = match &ev
            .file_upload_worker_dlq_thread_enabled {
            Option::Some(s) => match parse_bool(s) {
                Option::Some(b) => b,
                Option::None => {
                    return Err(config_error());
                },
            },
            Option::None => false,
        };
        let file_upload_worker_dlq_thread_count = match &ev.file_upload_worker_dlq_thread_count {
            Option::Some(s) => match parse_usize(s) {
                Option::Some(v) => v,
                Option::None => {
                    return Err(config_error());
                },
            },
            Option::None => 1,
        };
        let file_upload_worker_dlq_wait_interval_ms = match &ev
            .file_upload_worker_dlq_wait_interval_in_milliseconds {
            Option::Some(s) => match parse_u64(s) {
                Option::Some(v) => v,
                Option::None => {
                    return Err(config_error());
                },
            },
            Option::None => 10000,
        };
        let redis_url = match &ev.redis_url {
            Option::Some(s) => s.clone(),
            Option::None => String::from_str("redis://localhost:6379"),
        };
        let worker_upload_file_queue = match &ev.worker_upload_file_queue {
            Option::Some(s) => s.clone(),
            Option::None => String::from_str("upload_file_queue"),
        };
        let worker_upload_file_dlq = match &ev.worker_upload_file_dlq {
            Option::Some(s) => s.clone(),
            Option::None => String::from_str("upload_file_dlq"),
        };
        let lock_timeout_secs = match &ev.worker_lock_timeout_seconds {
            Option::Some(s) => match parse_u64(s) {
                Option::Some(v) => v,
                Option::None => {
                    return Err(config_error());
                },
            },
            Option::None => 300,
        };
        let lock_retry_interval_ms = match &ev.worker_lock_retry_interval_milliseconds {
            Option::Some(s) => match parse_u64(s) {
                Option::Some(v) => v,
                Option::None => {
                    return Err(config_error());
                },
            },
            Option::None => 100,
        };
        let graceful_shutdown_timeout_secs = match &ev.worker_graceful_shutdown_timeout_seconds {
            Option::Some(s) => match parse_u64(s) {
                Option::Some(v) => v,
                Option::None => {
                    return Err(config_error());
                },
            },
            Option::None => 30,
        };
        Ok(
            WorkerConfig {
                background_worker_thread_enabled,
                background_worker_consumer_thread_count,
                worker_consumer_wait_interval_ms,
                worker_consumer_max_retry,
                file_upload_worker_dlq_thread_enabled,
                file_upload_worker_dlq_thread_count,
                file_upload_worker_dlq_wait_interval_ms,
                redis_url,
                worker_upload_file_queue,
                worker_upload_file_dlq,
                lock_timeout_secs,
                lock_retry_interval_ms,
                graceful_shutdown_timeout_secs,
            },
        )
    }
}

/// The error for a value that does not parse.
fn config_error() -> (r: WorkerError)
    ensures
        r is Config,
{
    WorkerError::Config(String::from_str("an environment value does not parse"))
}

} // verus!

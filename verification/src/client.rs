//! The client side of the service IPC: which requests may be retried automatically, and the
//! connection defaults.

use vstd::prelude::*;

verus! {

/// The service's named pipe.
pub const IPC_PATH: &'static str = "\\\\.\\pipe\\tono-service";
/// A read may be retried once after an ambiguous transport failure.
pub const READ_REQUEST_ATTEMPTS: usize = 2;
/// A mutation is never replayed: the service may already have committed it.
pub const MUTATING_REQUEST_ATTEMPTS: usize = 1;
/// A lifecycle mutation waits slightly longer than the service's 60-second handler bound.
pub const LIFECYCLE_TIMEOUT_MS: u64 = 65_000;
/// Read-only status calls.
pub const STATUS_TIMEOUT_MS: u64 = 2_000;

/// The verb a route answers on.
#[derive(Clone, Copy, Debug, PartialEq, Eq, Structural)]
pub enum Verb {
    Get,
    Post,
    Delete,
}

impl Verb {
    pub fn is_read_only(self) -> (r: bool)
        ensures
            r == (self == Verb::Get),
    {
        match self {
            Verb::Get => true,
            _ => false,
        }
    }

    /// Transport attempts: reads may retry, mutations get exactly one.
    pub fn max_attempts(self) -> (r: usize)
        ensures
            r == if self == Verb::Get {
                READ_REQUEST_ATTEMPTS
            } else {
                MUTATING_REQUEST_ATTEMPTS
            },
    {
        if self.is_read_only() {
            READ_REQUEST_ATTEMPTS
        } else {
            MUTATING_REQUEST_ATTEMPTS
        }
    }
}

/// Connection settings; durations in milliseconds.
#[derive(Clone, Copy, Debug, PartialEq, Eq, Structural)]
pub struct IpcConfig {
    pub default_timeout_ms: u64,
    pub max_retries: usize,
    pub retry_delay_ms: u64,
}

impl Default for IpcConfig {
    fn default() -> (r: Self)
        ensures
            r.default_timeout_ms == 50,
            r.max_retries == 8,
            r.retry_delay_ms == 150,
    {
        IpcConfig { default_timeout_ms: 50, max_retries: 8, retry_delay_ms: 150 }
    }
}

/// The configuration a connection uses: the installed one (or the default), with the
/// per-request attempt bound when the caller gives one.
pub fn effective_config(installed: Option<IpcConfig>, max_retries: Option<usize>) -> (r: IpcConfig)
    ensures
        r.default_timeout_ms == match installed {
            Some(c) => c.default_timeout_ms,
            None => 50,
        },
        r.retry_delay_ms == match installed {
            Some(c) => c.retry_delay_ms,
            None => 150,
        },
        r.max_retries == match max_retries {
            Some(n) => n,
            None => match installed {
                Some(c) => c.max_retries,
                None => 8,
            },
        },
{
    let mut c = match installed {
        Some(c) => c,
        None => IpcConfig::default(),
    };
    match max_retries {
        Some(n) => c.max_retries = n,
        None => {},
    }
    c
}

/// Whether a filesystem entry exists at `path`. The answer depends on the machine, so nothing
/// is stated of it.
#[verifier::external_body]
fn path_exists(path: &str) -> bool {
    std::path::Path::new(path).exists()
}

/// Whether the service's pipe is there to connect to.
pub fn is_ipc_path_exists() -> bool {
    path_exists(IPC_PATH)
}

} // verus!

//! Client library for streaming entries out of an append-only Certificate
//! Transparency log: a verified wire codec for the Merkle tree leaves, an
//! endpoint response classifier, a retry policy, and an ordered
//! bounded-concurrency batch pipeline.

use vstd::prelude::*;

pub mod bytes;
pub mod certificate;
pub mod codec;
pub mod endpoint;
pub mod error;
pub mod ip;
pub mod pipeline;
pub mod retry;
pub mod text;

pub use codec::Entry;
pub use error::StreamError;

verus! {

/// Relies on num_cpus::get for the number of usable logical cores; nothing
/// is assumed about the value it returns.
#[verifier::external_body]
fn cpu_count() -> usize {
    num_cpus::get()
}

/// The number of workers a stream uses when the configuration names none:
/// the machine's logical core count, floored at one.
pub fn detected_workers() -> (r: usize)
    ensures
        r >= 1,
{
    let cpus = cpu_count();
    if cpus == 0 {
        1
    } else {
        cpus
    }
}

/// The concurrency ceiling a stream runs with: the configured value, or the
/// detected core count, floored at one.
pub fn effective_workers(workers: Option<usize>, detected: usize) -> (r: usize)
    ensures
        r == match workers {
            Some(w) => if w >= 1 {
                w
            } else {
                1
            },
            None => if detected >= 1 {
                detected
            } else {
                1
            },
        },
        r >= 1,
{
    let w = match workers {
        Some(w) => w,
        None => detected,
    };
    if w == 0 {
        1
    } else {
        w
    }
}

/// The batch size a stream runs with: the configured value floored at one,
/// or one thousand.
pub fn effective_batch(batch: Option<usize>) -> (r: usize)
    ensures
        r == match batch {
            Some(b) => if b >= 1 {
                b
            } else {
                1
            },
            None => 1000,
        },
        r >= 1,
{
    match batch {
        Some(b) => if b == 0 {
            1
        } else {
            b
        },
        None => 1000,
    }
}

/// The index a stream starts at: the configured index clamped at the log's
/// current tree size, or the tree size itself (tail-follow).
pub fn effective_position(index: Option<usize>, tree_size: usize) -> (r: usize)
    ensures
        r == match index {
            Some(i) => if i <= tree_size {
                i
            } else {
                tree_size
            },
            None => tree_size,
        },
        r <= tree_size,
{
    match index {
        Some(i) => if i <= tree_size {
            i
        } else {
            tree_size
        },
        None => tree_size,
    }
}

/// Configuration for a log stream: the log's base URL and the optional
/// tuning knobs, each of which has a default applied when the stream starts.
#[derive(Clone, Debug)]
pub struct StreamConfig {
    /// Delay, in milliseconds, between idle, empty, or rate-limited retries.
    pub timeout: Option<u64>,
    /// Maximum number of concurrently in-flight batches.
    pub workers: Option<usize>,
    /// Starting log index; absent means "start at the current tree size".
    pub index: Option<usize>,
    /// Number of entries fetched per request.
    pub batch: Option<usize>,
    /// Base URL of the log.
    pub url: String,
}

impl StreamConfig {
    /// A configuration with every optional field unset.
    pub fn new(url: String) -> (config: Self)
        ensures
            config.timeout is None,
            config.workers is None,
            config.index is None,
            config.batch is None,
            config.url == url,
    {
        StreamConfig { timeout: None, workers: None, index: None, batch: None, url }
    }

    /// The same configuration with the retry delay set, in milliseconds.
    pub fn timeout(self, timeout: u64) -> (config: Self)
        ensures
            config.timeout == Some(timeout),
            config.workers == self.workers,
            config.index == self.index,
            config.batch == self.batch,
            config.url == self.url,
    {
        StreamConfig {
            timeout: Some(timeout),
            workers: self.workers,
            index: self.index,
            batch: self.batch,
            url: self.url,
        }
    }

    /// The same configuration with the concurrency ceiling set.
    pub fn workers(self, workers: usize) -> (config: Self)
        ensures
            config.timeout == self.timeout,
            config.workers == Some(workers),
            config.index == self.index,
            config.batch == self.batch,
            config.url == self.url,
    {
        StreamConfig {
            timeout: self.timeout,
            workers: Some(workers),
            index: self.index,
            batch: self.batch,
            url: self.url,
        }
    }

    /// The same configuration with the starting index set.
    pub fn index(self, index: usize) -> (config: Self)
        ensures
            config.timeout == self.timeout,
            config.workers == self.workers,
            config.index == Some(index),
            config.batch == self.batch,
            config.url == self.url,
    {
        StreamConfig {
            timeout: self.timeout,
            workers: self.workers,
            index: Some(index),
            batch: self.batch,
            url: self.url,
        }
    }

    /// The same configuration with the batch size set.
    pub fn batch(self, batch: usize) -> (config: Self)
        ensures
            config.timeout == self.timeout,
            config.workers == self.workers,
            config.index == self.index,
            config.batch == Some(batch),
            config.url == self.url,
    {
        StreamConfig {
            timeout: self.timeout,
            workers: self.workers,
            index: self.index,
            batch: Some(batch),
            url: self.url,
        }
    }
}

} // verus!

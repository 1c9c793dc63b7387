//! Processor configuration and the retry backoff schedule.

use vstd::prelude::*;
use vstd::arithmetic::power::{pow, lemma_pow_positive, lemma_pow_adds};
use vstd::arithmetic::mul::lemma_mul_inequality;
use crate::error::Error;

verus! {

/// Workers used when the host's parallelism is not known.
pub const DEFAULT_MAX_WORKERS: usize = 4;

/// Main configuration of a processor. Durations are in milliseconds.
#[derive(Debug, Clone, Copy, PartialEq, Eq, Structural)]
pub struct ProcessorConfig {
    /// Maximum number of records in a single batch.
    pub max_batch_size: usize,
    /// Maximum number of records processed at the same time.
    pub max_workers: usize,
    /// Timeout for processing operations, in milliseconds.
    pub operation_timeout: u64,
    /// Enable metrics collection.
    pub enable_metrics: bool,
    /// Enable detailed tracing.
    pub enable_tracing: bool,
    /// Retry configuration.
    pub retry_config: RetryConfig,
    /// Buffer size for channels.
    pub buffer_size: usize,
    /// Enable compression for data storage.
    pub enable_compression: bool,
}

/// Retry configuration for failed operations. Durations are in milliseconds;
/// the backoff grows by an integral factor per attempt.
#[derive(Debug, Clone, Copy, PartialEq, Eq, Structural)]
pub struct RetryConfig {
    /// Maximum number of attempts.
    pub max_attempts: u32,
    /// Backoff before the first retry, in milliseconds.
    pub initial_backoff: u64,
    /// Largest backoff, in milliseconds.
    pub max_backoff: u64,
    /// Factor by which the backoff grows with each attempt.
    pub backoff_multiplier: u32,
}

impl RetryConfig {
    /// The retry settings are consistent.
    pub open spec fn spec_valid(self) -> bool {
        &&& self.max_attempts > 0
        &&& self.backoff_multiplier > 1
        &&& self.initial_backoff <= self.max_backoff
    }

    /// `min(max_backoff, initial_backoff * backoff_multiplier ^ attempt)`.
    pub open spec fn spec_backoff(self, attempt: nat) -> int {
        let grown = self.initial_backoff * pow(self.backoff_multiplier as int, attempt);
        if grown < self.max_backoff {
            grown
        } else {
            self.max_backoff as int
        }
    }

    /// Checks the retry settings.
    pub fn validate(&self) -> (r: Result<(), Error>)
        ensures
            r is Ok <==> self.spec_valid(),
            r is Err ==> r->Err_0 is Config,
    {
        if self.max_attempts == 0 {
            return Err(Error::config("max_attempts must be greater than 0"));
        }
        if self.backoff_multiplier <= 1 {
            return Err(Error::config("backoff_multiplier must be greater than 1"));
        }
        if self.initial_backoff > self.max_backoff {
            return Err(Error::config("initial_backoff cannot be greater than max_backoff"));
        }
        Ok(())
    }

    /// The backoff before retry number `attempt`, in milliseconds.
    pub fn calculate_backoff(&self, attempt: u32) -> (r: u64)
        ensures
            r == self.spec_backoff(attempt as nat),
    {
        let m = self.backoff_multiplier as u128;
        let cap = self.max_backoff as u128;
        if m == 0 && attempt > 0 {
            proof {
                reveal(pow);
                assert(pow(0, attempt as nat) == 0 * pow(0, (attempt - 1) as nat));
            }
            return 0;
        }
        let mut b: u128 = self.initial_backoff as u128;
        let mut k: u32 = 0;
        proof {
            reveal(pow);
        }
        while k < attempt
            invariant
                k <= attempt,
                m == self.backoff_multiplier,
                cap == self.max_backoff,
                m == 0 ==> attempt == 0,
                b == self.initial_backoff * pow(m as int, k as nat),
                b < 0x1_0000_0000_0000_0000_0000_0000u128,
            decreases attempt - k,
        {
            if b >= cap {
                proof {
                    let rest = (attempt - k) as nat;
                    lemma_pow_positive(m as int, rest);
                    lemma_pow_adds(m as int, k as nat, rest);
                    lemma_mul_inequality(1, pow(m as int, rest), b as int);
                    assert(self.initial_backoff * pow(m as int, attempt as nat) == b * pow(
                        m as int,
                        rest,
                    )) by (nonlinear_arith)
                        requires
                            b == self.initial_backoff * pow(m as int, k as nat),
                            pow(m as int, attempt as nat) == pow(m as int, k as nat) * pow(
                                m as int,
                                rest,
                            ),
                    ;
                    assert(b * pow(m as int, rest) >= b) by (nonlinear_arith)
                        requires
                            pow(m as int, rest) >= 1,
                            b >= 0,
                    ;
                }
                return self.max_backoff;
            }
            proof {
                reveal(pow);
                assert(pow(m as int, (k + 1) as nat) == m * pow(m as int, k as nat));
                assert(b * m == self.initial_backoff * pow(m as int, (k + 1) as nat)) by (nonlinear_arith)
                    requires
                        b == self.initial_backoff * pow(m as int, k as nat),
                        pow(m as int, (k + 1) as nat) == m * pow(m as int, k as nat),
                ;
                assert(b * m < 0x1_0000_0000_0000_0000u128 * 0x1_0000_0000u128) by (nonlinear_arith)
                    requires
                        b < cap,
                        cap < 0x1_0000_0000_0000_0000u128,
                        m < 0x1_0000_0000u128,
                ;
            }
            b = b * m;
            k = k + 1;
        }
        if b >= cap {
            self.max_backoff
        } else {
            b as u64
        }
    }
}

impl Default for RetryConfig {
    /// Three attempts, 100 ms doubling up to 10 s.
    fn default() -> (r: Self)
        ensures
            r == (RetryConfig {
                max_attempts: 3,
                initial_backoff: 100,
                max_backoff: 10_000,
                backoff_multiplier: 2,
            }),
    {
        RetryConfig { max_attempts: 3, initial_backoff: 100, max_backoff: 10_000, backoff_multiplier: 2 }
    }
}

impl ProcessorConfig {
    /// The configuration is one a processor can be built from.
    pub open spec fn spec_valid(self) -> bool {
        &&& self.max_batch_size > 0
        &&& self.max_workers > 0
        &&& self.buffer_size > 0
        &&& self.retry_config.spec_valid()
    }

    /// A builder that starts from the default configuration.
    pub fn builder() -> (r: ProcessorConfigBuilder)
        ensures
            r.config == spec_default_config(),
    {
        ProcessorConfigBuilder::new()
    }

    /// Checks the configuration: sizes and worker count must be positive and
    /// the retry settings consistent.
    pub fn validate(&self) -> (r: Result<(), Error>)
        ensures
            r is Ok <==> self.spec_valid(),
            r is Err ==> r->Err_0 is Config,
    {
        if self.max_batch_size == 0 {
            return Err(Error::config("max_batch_size must be greater than 0"));
        }
        if self.max_workers == 0 {
            return Err(Error::config("max_workers must be greater than 0"));
        }
        if self.buffer_size == 0 {
            return Err(Error::config("buffer_size must be greater than 0"));
        }
        self.retry_config.validate()
    }
}

/// The default configuration: batches of 100, [`DEFAULT_MAX_WORKERS`]
/// workers, a 30 s timeout, metrics and tracing on, a buffer of 1000, no
/// compression.
pub open spec fn spec_default_config() -> ProcessorConfig {
    ProcessorConfig {
        max_batch_size: 100,
        max_workers: DEFAULT_MAX_WORKERS,
        operation_timeout: 30_000,
        enable_metrics: true,
        enable_tracing: true,
        retry_config: RetryConfig {
            max_attempts: 3,
            initial_backoff: 100,
            max_backoff: 10_000,
            backoff_multiplier: 2,
        },
        buffer_size: 1000,
        enable_compression: false,
    }
}

impl Default for ProcessorConfig {
    fn default() -> (r: Self)
        ensures
            r == spec_default_config(),
    {
        ProcessorConfig {
            max_batch_size: 100,
            max_workers: DEFAULT_MAX_WORKERS,
            operation_timeout: 30_000,
            enable_metrics: true,
            enable_tracing: true,
            retry_config: RetryConfig::default(),
            buffer_size: 1000,
            enable_compression: false,
        }
    }
}

/// Builds a [`ProcessorConfig`] field by field.
#[derive(Debug)]
pub struct ProcessorConfigBuilder {
    /// The configuration built so far.
    pub config: ProcessorConfig,
}

impl ProcessorConfigBuilder {
    /// A builder holding the default configuration.
    pub fn new() -> (r: Self)
        ensures
            r.config == spec_default_config(),
    {
        ProcessorConfigBuilder { config: ProcessorConfig::default() }
    }

    /// Sets the maximum batch size.
    pub fn max_batch_size(self, size: usize) -> (r: Self)
        ensures
            r.config == (ProcessorConfig { max_batch_size: size, ..self.config }),
    {
        ProcessorConfigBuilder { config: ProcessorConfig { max_batch_size: size, ..self.config } }
    }

    /// Sets the number of workers.
    pub fn max_workers(self, workers: usize) -> (r: Self)
        ensures
            r.config == (ProcessorConfig { max_workers: workers, ..self.config }),
    {
        ProcessorConfigBuilder { config: ProcessorConfig { max_workers: workers, ..self.config } }
    }

    /// Sets the operation timeout, in milliseconds.
    pub fn operation_timeout(self, timeout: u64) -> (r: Self)
        ensures
            r.config == (ProcessorConfig { operation_timeout: timeout, ..self.config }),
    {
        ProcessorConfigBuilder {
            config: ProcessorConfig { operation_timeout: timeout, ..self.config },
        }
    }

    /// Turns metrics on or off.
    pub fn enable_metrics(self, enabled: bool) -> (r: Self)
        ensures
            r.config == (ProcessorConfig { enable_metrics: enabled, ..self.config }),
    {
        ProcessorConfigBuilder { config: ProcessorConfig { enable_metrics: enabled, ..self.config } }
    }

    /// Turns tracing on or off.
    pub fn enable_tracing(self, enabled: bool) -> (r: Self)
        ensures
            r.config == (ProcessorConfig { enable_tracing: enabled, ..self.config }),
    {
        ProcessorConfigBuilder { config: ProcessorConfig { enable_tracing: enabled, ..self.config } }
    }

    /// Sets the retry configuration.
    pub fn retry_config(self, retry_config: RetryConfig) -> (r: Self)
        ensures
            r.config == (ProcessorConfig { retry_config: retry_config, ..self.config }),
    {
        ProcessorConfigBuilder {
            config: ProcessorConfig { retry_config: retry_config, ..self.config },
        }
    }

    /// Sets the buffer size.
    pub fn buffer_size(self, size: usize) -> (r: Self)
        ensures
            r.config == (ProcessorConfig { buffer_size: size, ..self.config }),
    {
        ProcessorConfigBuilder { config: ProcessorConfig { buffer_size: size, ..self.config } }
    }

    /// Turns compression on or off.
    pub fn enable_compression(self, enabled: bool) -> (r: Self)
        ensures
            r.config == (ProcessorConfig { enable_compression: enabled, ..self.config }),
    {
        ProcessorConfigBuilder {
            config: ProcessorConfig { enable_compression: enabled, ..self.config },
        }
    }

    /// The configuration, unchecked.
    pub fn build(self) -> (r: ProcessorConfig)
        ensures
            r == self.config,
    {
        self.config
    }

    /// The configuration, when it passes [`ProcessorConfig::validate`].
    pub fn build_validated(self) -> (r: Result<ProcessorConfig, Error>)
        ensures
            r is Ok <==> self.config.spec_valid(),
            r is Ok ==> r->Ok_0 == self.config,
            r is Err ==> r->Err_0 is Config,
    {
        match self.config.validate() {
            Ok(()) => Ok(self.config),
            Err(e) => Err(e),
        }
    }
}

impl Default for ProcessorConfigBuilder {
    fn default() -> (r: Self)
        ensures
            r.config == spec_default_config(),
    {
        ProcessorConfigBuilder::new()
    }
}

/// A configuration is accepted exactly when its batch size, worker count and
/// buffer size are all positive and its retry settings are consistent; in
/// particular a zero in any of the three sizes is rejected.
pub proof fn lemma_config_accepted(c: ProcessorConfig)
    ensures
        c.spec_valid() <==> (c.max_batch_size > 0 && c.max_workers > 0 && c.buffer_size > 0
            && c.retry_config.spec_valid()),
        (c.max_batch_size == 0 || c.max_workers == 0 || c.buffer_size == 0) ==> !c.spec_valid(),
{
}

} // verus!

//! Impairment settings.
//!
//! All quantities are integers: probabilities are counted in parts per
//! billion and durations in nanoseconds.

use vstd::prelude::*;

verus! {

/// The value of [`ManglerConfig::loss_ppb`] that stands for a loss
/// probability of one.
pub const LOSS_SCALE: u32 = 1_000_000_000;

/// Nanoseconds in one millisecond.
pub const NANOS_PER_MILLI: u64 = 1_000_000;

/// Settings that the pipeline reads afresh on every iteration.
#[derive(Clone, Copy, Debug, PartialEq, Eq, Structural)]
pub struct ManglerConfig {
    /// Capacity of the receive buffer in bytes. A datagram that fills the
    /// buffer is discarded, since it may have been truncated.
    pub buffer_size: usize,
    /// Largest payload, in bytes, that is not dropped.
    pub max_payload_size: usize,
    /// Probability that an otherwise eligible packet is discarded, in parts
    /// per billion.
    pub loss_ppb: u32,
    /// Fixed delay added to every retained packet, in nanoseconds.
    pub ping_nanos: u64,
    /// Upper bound of the uniformly drawn extra delay, in nanoseconds.
    pub jitter_nanos: u64,
}

/// Why a set of values is not a configuration.
#[derive(Clone, Copy, Debug, PartialEq, Eq, Structural)]
pub enum ConfigError {
    /// The receive buffer would have no capacity.
    BufferSize,
    /// The payload limit would be zero.
    MaxPayloadSize,
    /// The loss probability would exceed one.
    LossFactor,
    /// A delay given in milliseconds does not fit in 64 bits of nanoseconds.
    Delay,
}

/// The first rule that the three checked values break, if any.
pub open spec fn spec_rejection(
    buffer_size: usize,
    max_payload_size: usize,
    loss_ppb: u32,
) -> Option<ConfigError> {
    if buffer_size == 0 {
        Some(ConfigError::BufferSize)
    } else if max_payload_size == 0 {
        Some(ConfigError::MaxPayloadSize)
    } else if loss_ppb > LOSS_SCALE {
        Some(ConfigError::LossFactor)
    } else {
        None
    }
}

impl ManglerConfig {
    /// The invariant of a configuration: a buffer with capacity, a positive
    /// payload limit and a loss probability of at most one.
    pub open spec fn valid(&self) -> bool {
        &&& self.buffer_size > 0
        &&& self.max_payload_size > 0
        &&& self.loss_ppb <= LOSS_SCALE
    }

    /// The settings used where none are given: a 65535-byte buffer, a
    /// 1472-byte payload limit, 0.5 % loss, 50 ms ping and 20 ms jitter.
    pub open spec fn spec_default() -> ManglerConfig {
        ManglerConfig {
            buffer_size: 65535,
            max_payload_size: 1472,
            loss_ppb: 5_000_000,
            ping_nanos: 50_000_000,
            jitter_nanos: 20_000_000,
        }
    }

    /// What [`ManglerConfig::new`] returns: the first rule broken, or the
    /// configuration made of the values.
    pub open spec fn spec_new(
        buffer_size: usize,
        max_payload_size: usize,
        loss_ppb: u32,
        ping_nanos: u64,
        jitter_nanos: u64,
    ) -> Result<ManglerConfig, ConfigError> {
        match spec_rejection(buffer_size, max_payload_size, loss_ppb) {
            Some(e) => Err(e),
            None => Ok(
                ManglerConfig { buffer_size, max_payload_size, loss_ppb, ping_nanos, jitter_nanos },
            ),
        }
    }

    /// What [`ManglerConfig::from_millis`] returns: as `spec_new` on the
    /// delays in nanoseconds, but [`ConfigError::Delay`] where one of them
    /// does not fit in 64 bits.
    pub open spec fn spec_from_millis(
        buffer_size: usize,
        max_payload_size: usize,
        loss_ppb: u32,
        ping_millis: u64,
        jitter_millis: u64,
    ) -> Result<ManglerConfig, ConfigError> {
        match spec_rejection(buffer_size, max_payload_size, loss_ppb) {
            Some(e) => Err(e),
            None => if ping_millis * NANOS_PER_MILLI > u64::MAX || jitter_millis * NANOS_PER_MILLI
                > u64::MAX {
                Err(ConfigError::Delay)
            } else {
                Ok(
                    ManglerConfig {
                        buffer_size,
                        max_payload_size,
                        loss_ppb,
                        ping_nanos: (ping_millis * NANOS_PER_MILLI) as u64,
                        jitter_nanos: (jitter_millis * NANOS_PER_MILLI) as u64,
                    },
                )
            },
        }
    }

    /// Checks the values and builds a configuration from them.
    ///
    /// The values are checked in the order buffer size, payload limit, loss
    /// probability; the first failing check decides the error.
    pub fn new(
        buffer_size: usize,
        max_payload_size: usize,
        loss_ppb: u32,
        ping_nanos: u64,
        jitter_nanos: u64,
    ) -> (r: Result<ManglerConfig, ConfigError>)
        ensures
            r == ManglerConfig::spec_new(
                buffer_size,
                max_payload_size,
                loss_ppb,
                ping_nanos,
                jitter_nanos,
            ),
            r is Ok ==> r->Ok_0.valid(),
    {
        if buffer_size == 0 {
            return Err(ConfigError::BufferSize);
        }
        if max_payload_size == 0 {
            return Err(ConfigError::MaxPayloadSize);
        }
        if loss_ppb > LOSS_SCALE {
            return Err(ConfigError::LossFactor);
        }
        Ok(ManglerConfig { buffer_size, max_payload_size, loss_ppb, ping_nanos, jitter_nanos })
    }

    /// As [`ManglerConfig::new`], with the two delays given in milliseconds.
    ///
    /// After the checks of `new`, a delay whose nanoseconds exceed 64 bits is
    /// rejected with [`ConfigError::Delay`].
    pub fn from_millis(
        buffer_size: usize,
        max_payload_size: usize,
        loss_ppb: u32,
        ping_millis: u64,
        jitter_millis: u64,
    ) -> (r: Result<ManglerConfig, ConfigError>)
        ensures
            r == ManglerConfig::spec_from_millis(
                buffer_size,
                max_payload_size,
                loss_ppb,
                ping_millis,
                jitter_millis,
            ),
            r is Ok ==> r->Ok_0.valid(),
    {
        let checked = ManglerConfig::new(buffer_size, max_payload_size, loss_ppb, 0, 0);
        match checked {
            Err(e) => Err(e),
            Ok(base) => {
                let ping = ping_millis.checked_mul(NANOS_PER_MILLI);
                let jitter = jitter_millis.checked_mul(NANOS_PER_MILLI);
                match (ping, jitter) {
                    (Some(ping_nanos), Some(jitter_nanos)) => Ok(
                        ManglerConfig {
                            buffer_size: base.buffer_size,
                            max_payload_size: base.max_payload_size,
                            loss_ppb: base.loss_ppb,
                            ping_nanos,
                            jitter_nanos,
                        },
                    ),
                    _ => Err(ConfigError::Delay),
                }
            },
        }
    }

    /// The fixed delay in whole milliseconds, rounded down.
    pub fn ping_millis(&self) -> (ms: u64)
        ensures
            ms == self.ping_nanos / NANOS_PER_MILLI,
    {
        self.ping_nanos / NANOS_PER_MILLI
    }

    /// The jitter bound in whole milliseconds, rounded down.
    pub fn jitter_millis(&self) -> (ms: u64)
        ensures
            ms == self.jitter_nanos / NANOS_PER_MILLI,
    {
        self.jitter_nanos / NANOS_PER_MILLI
    }
}

impl Default for ManglerConfig {
    fn default() -> (c: ManglerConfig)
        ensures
            c == ManglerConfig::spec_default(),
            c.valid(),
    {
        ManglerConfig {
            buffer_size: 65535,
            max_payload_size: 1472,
            loss_ppb: 5_000_000,
            ping_nanos: 50_000_000,
            jitter_nanos: 20_000_000,
        }
    }
}

} // verus!

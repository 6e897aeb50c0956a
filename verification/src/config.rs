//! Operator-facing thresholds.

use vstd::prelude::*;

verus! {

/// Built-in size, in bytes, of each read chunk pulled from coder stdout.
pub const DEFAULT_READ_CHUNK_SIZE: usize = 64 * 1024;

/// Built-in upper bound, in bytes, on the total rendered console preview (payload plus any
/// truncation marker). Beyond it the pump renders a bounded, lossy preview; the full
/// record always lands in the transcript.
pub const DEFAULT_CONSOLE_PREVIEW_LIMIT: usize = 8 * 1024;

/// Built-in interval, in milliseconds, between periodic status flushes.
pub const DEFAULT_STATUS_FLUSH_INTERVAL_MS: u64 = 1000;

/// A span of time in nanoseconds.
#[derive(Debug, Clone, Copy, PartialEq, Eq, Structural)]
pub struct FlushInterval {
    pub nanos: u128,
}

impl FlushInterval {
    pub fn from_millis(millis: u64) -> (interval: Self)
        ensures
            interval.nanos == millis * 1_000_000,
    {
        FlushInterval { nanos: (millis as u128) * 1_000_000 }
    }
}

/// Operator-facing thresholds that shape console previews and status flushes. They are
/// resolved once per launch and threaded into the capture as an immutable value, so a
/// concurrent launch cannot overwrite another capture's thresholds.
#[derive(Debug, Clone, Copy, PartialEq, Eq, Structural)]
pub struct TranscriptPumpConfig {
    /// Bytes read per stdout chunk.
    pub read_chunk_size: usize,
    /// Maximum bytes of the total rendered console preview for one record, with any
    /// truncation marker.
    pub console_preview_limit: usize,
    /// Minimum interval between periodic `Running` status flushes.
    pub status_flush_interval: FlushInterval,
}

impl TranscriptPumpConfig {
    /// The built-in thresholds, with this preview limit and flush interval.
    pub open spec fn built_in(console_preview_limit: usize, millis: nat) -> Self {
        TranscriptPumpConfig {
            read_chunk_size: DEFAULT_READ_CHUNK_SIZE,
            console_preview_limit,
            status_flush_interval: FlushInterval { nanos: (millis * 1_000_000) as u128 },
        }
    }
}

impl Default for TranscriptPumpConfig {
    fn default() -> (config: Self)
        ensures
            config == TranscriptPumpConfig::built_in(
                DEFAULT_CONSOLE_PREVIEW_LIMIT,
                DEFAULT_STATUS_FLUSH_INTERVAL_MS as nat,
            ),
    {
        TranscriptPumpConfig {
            read_chunk_size: DEFAULT_READ_CHUNK_SIZE,
            console_preview_limit: DEFAULT_CONSOLE_PREVIEW_LIMIT,
            status_flush_interval: FlushInterval::from_millis(DEFAULT_STATUS_FLUSH_INTERVAL_MS),
        }
    }
}

/// The thresholds that layered configuration can set.
#[derive(Debug, Clone, Copy, PartialEq, Eq, Structural)]
pub struct ResolvedTranscriptPumpConfig {
    pub console_preview_limit: u32,
    pub status_flush_interval_ms: u32,
}

/// Turn the outcome of resolving layered configuration into thresholds. A malformed or
/// unreadable configuration (`None`) fails closed to the built-in defaults, every field,
/// because capture correctness never depends on these diagnostics knobs.
pub fn map_resolved_config(resolved: Option<ResolvedTranscriptPumpConfig>) -> (config:
    TranscriptPumpConfig)
    ensures
        config == match resolved {
            Some(set) => TranscriptPumpConfig::built_in(
                set.console_preview_limit as usize,
                set.status_flush_interval_ms as nat,
            ),
            None => TranscriptPumpConfig::built_in(
                DEFAULT_CONSOLE_PREVIEW_LIMIT,
                DEFAULT_STATUS_FLUSH_INTERVAL_MS as nat,
            ),
        },
{
    match resolved {
        Some(set) => TranscriptPumpConfig {
            read_chunk_size: DEFAULT_READ_CHUNK_SIZE,
            console_preview_limit: set.console_preview_limit as usize,
            status_flush_interval: FlushInterval::from_millis(set.status_flush_interval_ms as u64),
        },
        None => TranscriptPumpConfig::default(),
    }
}

/// Whatever is configured, chunks are read in the built-in size; the preview limit is the
/// configured one, and the flush interval is the configured number of milliseconds.
pub proof fn law_configured_thresholds_are_kept(limit: usize, millis: nat)
    requires
        millis <= u64::MAX,
    ensures
        TranscriptPumpConfig::built_in(limit, millis).read_chunk_size == 65536,
        TranscriptPumpConfig::built_in(limit, millis).console_preview_limit == limit,
        TranscriptPumpConfig::built_in(limit, millis).status_flush_interval.nanos == millis
            * 1_000_000,
        DEFAULT_CONSOLE_PREVIEW_LIMIT == 8192,
        DEFAULT_STATUS_FLUSH_INTERVAL_MS == 1000,
{
    assert(millis * 1_000_000 <= u128::MAX) by (nonlinear_arith)
        requires
            millis <= u64::MAX,
    ;
}
/// Resolved thresholds are taken over, each into its own field; a configuration that could
/// not be resolved gives every built-in value, whatever part of it was at fault.
pub proof fn law_unresolved_configuration_fails_closed(
    resolved: Option<ResolvedTranscriptPumpConfig>,
    config: TranscriptPumpConfig,
)
    requires
        call_ensures(map_resolved_config, (resolved,), config),
    ensures
        config.read_chunk_size == 65536,
        resolved matches Some(set) ==> config.console_preview_limit == set.console_preview_limit
            && config.status_flush_interval.nanos == set.status_flush_interval_ms * 1_000_000,
        resolved is None ==> config.console_preview_limit == 8192
            && config.status_flush_interval.nanos == 1_000_000_000,
{
}
} // verus!

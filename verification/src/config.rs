//! What a resolution is configured with.

use vstd::prelude::*;

verus! {

/// Slots asked on each side of a slot that gave no time, unless configured
/// otherwise.
pub const DEFAULT_PROBE_WIDTH: u64 = 20;

/// Slots scanned past an exact match for a higher slot with the same time,
/// unless configured otherwise.
pub const DEFAULT_SCAN_BUDGET: u64 = 100;

/// Seconds allowed for connecting to the endpoint, unless configured otherwise.
pub const DEFAULT_CONNECT_TIMEOUT_SECS: u64 = 5;

/// Seconds allowed for one call in all, unless configured otherwise.
pub const DEFAULT_TOTAL_TIMEOUT_SECS: u64 = 10;

/// The two bounds that keep a search short.
#[derive(Clone, Copy, Debug, PartialEq, Eq, Structural)]
pub struct SearchLimits {
    /// How many slots a neighbour probe asks on each side of its centre.
    pub probe_width: u64,
    /// How many slots the scan for the highest match may ask.
    pub scan_budget: u64,
}

impl SearchLimits {
    pub fn new(probe_width: u64, scan_budget: u64) -> (limits: SearchLimits)
        ensures
            limits == (SearchLimits { probe_width, scan_budget }),
    {
        SearchLimits { probe_width, scan_budget }
    }
}

impl Default for SearchLimits {
    fn default() -> (limits: SearchLimits)
        ensures
            limits == (SearchLimits {
                probe_width: DEFAULT_PROBE_WIDTH,
                scan_budget: DEFAULT_SCAN_BUDGET,
            }),
    {
        SearchLimits { probe_width: DEFAULT_PROBE_WIDTH, scan_budget: DEFAULT_SCAN_BUDGET }
    }
}

/// Everything a resolution against a real endpoint is given.
#[derive(Clone, Debug)]
pub struct Config {
    pub endpoint: String,
    pub api_key: String,
    pub connect_timeout_secs: u64,
    pub total_timeout_secs: u64,
    pub limits: SearchLimits,
}

impl Config {
    /// A configuration for `endpoint` with the default timeouts and limits.
    pub fn new(endpoint: String, api_key: String) -> (config: Config)
        ensures
            config.endpoint == endpoint,
            config.api_key == api_key,
            config.connect_timeout_secs == DEFAULT_CONNECT_TIMEOUT_SECS,
            config.total_timeout_secs == DEFAULT_TOTAL_TIMEOUT_SECS,
            config.limits == (SearchLimits {
                probe_width: DEFAULT_PROBE_WIDTH,
                scan_budget: DEFAULT_SCAN_BUDGET,
            }),
    {
        Config {
            endpoint,
            api_key,
            connect_timeout_secs: DEFAULT_CONNECT_TIMEOUT_SECS,
            total_timeout_secs: DEFAULT_TOTAL_TIMEOUT_SECS,
            limits: SearchLimits { probe_width: DEFAULT_PROBE_WIDTH, scan_budget: DEFAULT_SCAN_BUDGET },
        }
    }
}

} // verus!

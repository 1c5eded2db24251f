//! Request pacing: the randomized inter-request delay and the periodic
//! long cooldown.
//!
//! A fixed cadence is fingerprintable, so the delay between requests is
//! drawn uniformly from an operator-defined window; every Nth request a
//! single long fixed cooldown is substituted instead, to break up request
//! bursts at a coarser granularity than per-request jitter.

use vstd::prelude::*;

verus! {

/// Operator configuration for the pacing controller. Delays are in
/// seconds; request indices are counted from one in input order.
pub struct PacingConfig {
    /// Smallest randomized inter-request delay.
    pub min_secs: u64,
    /// Largest randomized inter-request delay.
    pub max_secs: u64,
    /// Every this-many-th request gets the long cooldown instead.
    pub cooldown_every: u64,
    /// Length of the long cooldown.
    pub cooldown_secs: u64,
}

impl PacingConfig {
    /// The random window is a real interval and the cooldown cadence is
    /// meaningful.
    pub open spec fn wf(&self) -> bool {
        self.min_secs <= self.max_secs && self.cooldown_every >= 1
    }

    /// The request at this index gets the long cooldown rather than a
    /// random draw.
    pub open spec fn is_cooldown_index(&self, request_index: u64) -> bool {
        request_index % self.cooldown_every == 0
    }
}

/// The observed operator settings: a 125-184 second window, and about
/// half an hour of cooldown after every ninth request, since blocking was
/// seen after ten back-to-back lookups.
pub fn default_pacing() -> (c: PacingConfig)
    ensures
        c == (PacingConfig { min_secs: 125, max_secs: 184, cooldown_every: 9, cooldown_secs: 1805 }),
{
    PacingConfig { min_secs: 125, max_secs: 184, cooldown_every: 9, cooldown_secs: 1805 }
}

/// Relies on rand::random_range over an inclusive integer range: it
/// panics on an empty range and otherwise returns a uniform sample inside
/// the range.
#[verifier::external_body]
fn sample_uniform(min: u64, max: u64) -> (r: u64)
    requires
        min <= max,
    ensures
        min <= r <= max,
{
    rand::random_range(min..=max)
}

/// Compute how long to suspend after the request at `request_index` is
/// fully resolved: the configured cooldown on every cooldown index, and a
/// draw from the configured window otherwise.
pub fn next_delay(cfg: &PacingConfig, request_index: u64) -> (d: u64)
    requires
        cfg.wf(),
    ensures
        cfg.is_cooldown_index(request_index) ==> d == cfg.cooldown_secs,
        !cfg.is_cooldown_index(request_index) ==> cfg.min_secs <= d <= cfg.max_secs,
{
    if request_index % cfg.cooldown_every == 0 {
        cfg.cooldown_secs
    } else {
        sample_uniform(cfg.min_secs, cfg.max_secs)
    }
}

} // verus!

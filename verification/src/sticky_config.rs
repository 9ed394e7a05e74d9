//! The sticky-session policy.

use vstd::prelude::*;

verus! {

/// Longest wait, in seconds, of the default policy.
pub const DEFAULT_MAX_WAIT_SECONDS: u64 = 120;

/// How a request treats the account its session is bound to while that
/// account is rate-limited.
#[derive(Clone, Copy, Debug, PartialEq, Eq, Structural)]
pub enum SchedulingMode {
    /// Wait for the bound account, up to the policy's longest wait.
    CacheFirst,
    /// Never wait: move on to another account.
    Balance,
}

/// The policy: a mode and the longest wait it tolerates.
#[derive(Clone, Copy, Debug, PartialEq, Eq, Structural)]
pub struct StickySessionConfig {
    pub mode: SchedulingMode,
    pub max_wait_seconds: u64,
}

/// The default policy: wait for the bound account, up to two minutes.
pub open spec fn default_policy() -> StickySessionConfig {
    StickySessionConfig { mode: SchedulingMode::CacheFirst, max_wait_seconds: DEFAULT_MAX_WAIT_SECONDS }
}

impl Default for StickySessionConfig {
    fn default() -> (r: Self)
        ensures
            r == default_policy(),
    {
        StickySessionConfig { mode: SchedulingMode::CacheFirst, max_wait_seconds: DEFAULT_MAX_WAIT_SECONDS }
    }
}

} // verus!

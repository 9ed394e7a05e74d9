//! Account selection for a multi-account proxy: tier ordering, rate-limit
//! avoidance, sticky sessions and token refresh bookkeeping.

pub mod account_file;
mod clock;
pub mod json;
pub mod manager;
pub mod rate_limit;
pub mod refresh;
pub mod scheduling;
pub mod session;
pub mod shared_map;
pub mod sticky_config;
pub mod text;
pub mod types;

pub use manager::{
    refreshed_event, AccountFile, RefreshPlan, RequestAction, RequestEvent, RequestPhase,
    TokenManager, TokenRequest,
};
pub use rate_limit::RateLimitTracker;
pub use refresh::{RefreshCoordinator, TokenResponse};
pub use scheduling::{AccountScheduler, SchedulingDecision};
pub use session::SessionManager;
pub use sticky_config::{SchedulingMode, StickySessionConfig};
pub use text::truncate_string;
pub use types::{ProxyToken, SelectedToken, TokenModel};

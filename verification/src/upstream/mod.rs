//! How a routed connection uses the upstream, and how the upstream is judged.
pub mod health;
pub mod hop;
pub mod patrol;

pub use health::{Health, Turnover, VerdictCause};
pub use hop::{
    Attempt, Carried, Next, SocksFailure, UpstreamBudget, KEEPALIVE_IDLE, KEEPALIVE_INTERVAL,
    KEEPALIVE_RETRIES, PREFER_CONNECT_TIMEOUT, REQUIRE_CONNECT_TIMEOUT,
};
pub use patrol::{
    Patrol, Pending, NO_UPSTREAM_EAGER, NO_UPSTREAM_TICK, PROBE_CONFIRM_DELAY, PROBE_INTERVAL,
    PROBE_TIMEOUT,
};

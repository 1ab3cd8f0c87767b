//! What the daemon and its client say to each other.
pub mod command;
pub mod paths;
pub mod view;

pub use command::{
    Command, ErrKind, Host, InvalidLoadId, LoadId, Port, Response, RuleClass, RuleKind, RuleValue,
    UpstreamAddr, LOAD_ID_ENV,
};
pub use paths::{HomeNotFound, Paths};
pub use view::{
    CheckView, DecisionKind, DecisionView, EffectiveHop, EventView, ForwardView, HealthState,
    LastLoadView, LoadOutcome, RuleCountsView, RuleView, StatusView, SystemProxyView, Timestamp,
};

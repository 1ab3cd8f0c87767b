//! The front ends and what they share.
pub mod events;
pub mod http;
pub mod socks5;

pub use events::{
    Begun, Connect, Delivery, Dialled, DialsItself, InvalidUpstream, Listen, Loop, Offered, Routed,
    Subscriber, Target, Upstream, UpstreamDown, SUBSCRIBER_CAPACITY,
};

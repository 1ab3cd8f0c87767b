//! A rule-based local proxy router.
pub mod cli;
pub mod daemon;
pub mod ipc;
pub mod logging;
pub mod names;
pub mod net;
pub mod proxy;
pub mod readback;
pub mod rules;
pub mod text;
pub mod time;
pub mod upstream;

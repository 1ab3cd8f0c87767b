//! What the command-line client asks and prints.
pub mod args;
pub mod client;
pub mod doctor;
pub mod exit;
pub mod explain;
pub mod render;
pub mod status;
pub mod system_proxy;

pub use args::{Destination, InvalidDestination, Plan, ProxyAction, Subcommand};
pub use client::{IoFailure, IoKind, Unreachable};
pub use exit::Exit;
pub use render::{Output, Printed, Rendering};

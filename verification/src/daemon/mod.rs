//! The daemon's state and the decisions it makes.
pub mod init_script;
pub mod ipc_server;
pub mod listen;
pub mod lock;
pub mod open_files;
pub mod staging;
pub mod state;

//! Execution gateway core: transport failure taxonomy, the per-connection
//! session state machine, the connection acceptor state machine, listening
//! configuration and the shared execution context.

pub mod acceptor;
pub mod config;
pub mod context;
pub mod session;
pub mod transport;

pub use config::{Args, Event};

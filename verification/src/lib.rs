//! An on-demand reverse proxy's decision logic: the idle countdown, the
//! supervision of the child process, and the TCP and UDP data planes, each
//! written as a state machine over plain values with a proved contract.
//! Sockets, signals and the async runtime live with the caller.

pub mod child;
pub mod config;
pub mod proxy;
pub mod supervisor;
pub mod timer;

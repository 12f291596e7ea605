//! Native (shared-library) runners: the handshake a library reports, the
//! checks the host applies to it before running it, and the runner's
//! lifecycle.

pub mod handshake;
pub mod runner;

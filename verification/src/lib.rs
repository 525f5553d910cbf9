//! Session and transport multiplexing for remote terminals: the decisions of
//! a session, out-of-band command collection, chunked transfer progress, the
//! session registry, and telemetry parsing.

pub mod content;
pub mod error;
pub mod exec;
pub mod listing;
pub mod metrics;
pub mod netrate;
pub mod number;
pub mod order;
pub mod profile;
pub mod pty;
pub mod registry;
pub mod sampler;
pub mod session;
pub mod size;
pub mod table;
pub mod text;
pub mod transfer;

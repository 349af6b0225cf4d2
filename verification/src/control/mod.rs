//! Host-only control: requests, fenced execution, fair dispatch and both transports.

pub mod conduct;
pub mod dispatch;
pub mod executor;
pub mod handler;
pub mod legacy;
pub mod model;
pub mod redact;
pub mod server;

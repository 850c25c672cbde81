//! A minimal request/response protocol core for a small message service:
//! decoding a job request from a framed text message, dispatching on its
//! job identifier, and driving a per-connection session loop whose every
//! step is specified and verified. The network edge (listening, accepting,
//! the actual framing transport) lives outside this crate and hands the
//! session plain events.

pub mod dispatch;
pub mod request;
pub mod session;

//! Query and deployment orchestration for a device-fleet management server.
//!
//! Every operation is a small state machine: it hands out the HTTP request to
//! perform next and takes the reply back, so that the decisions are made here
//! and the transport stays with the caller.

pub mod census;
pub mod deploy;
pub mod error;
pub mod info;
pub mod json;
pub mod login;
pub mod machine;
pub mod paging;
pub mod parse;
pub mod resolve;
pub mod tally;
pub mod text;
pub mod wire;

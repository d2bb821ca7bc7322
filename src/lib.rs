//! The core of a federation relay: canonical endpoint addresses, the
//! single-flight cache of remote actors and servers, the decision on signed
//! inbound requests, and the ranked directory of connected servers.

pub mod config;
pub mod directory;
pub mod fetch;
pub mod gateway;
pub mod iri;

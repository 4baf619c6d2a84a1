//! An adapter between HTTP and gRPC calls, with the generator of the clients that use it and the
//! test environment of the load-balancing policies beneath it.
//!
//! - [`client`], [`request_pump`], [`response_body`]: HTTP requests become calls, and calls become
//!   HTTP responses.
//! - [`framing`]: messages become frames, and frames become messages.
//! - [`client_grpc`], [`tokens`]: descriptions of services become the source of their clients.
//! - [`test_utils`], [`stub_policy`]: load-balancing policies under test.
mod buffer;
pub mod client;
pub mod client_grpc;
pub mod client_grpc_laws;
pub mod framing;
pub mod framing_laws;
pub mod load_balancing;
pub mod metadata;
pub mod request_pump;
pub mod response_body;
mod sharing;
pub mod status;
pub mod stub_policy;
pub mod test_utils;
pub mod token_laws;
pub mod tokens;

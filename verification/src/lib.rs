//! Client-side transport core for a clustered HTTP search service.
//!
//! The crate verifies the request-dispatch layer of the client:
//! - `codec`: canonical serialization of query parameters,
//! - `pool`: the connection pool with node liveness and backoff,
//! - `http`: the plain request/response data model,
//! - `dispatcher`: the per-call retry state machine,
//! - `client`: the thin root client the endpoint builders call through.

pub mod codec;
pub mod http;
pub mod pool;
pub mod dispatcher;
pub mod client;

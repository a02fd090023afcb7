//! The way of a request: from the model that it names to a route, to the provider, and
//! back.

pub mod bodies;
pub mod body_laws;
pub mod errors;
pub mod failover;
pub mod forward;
pub mod headers;
pub mod replies;
pub mod routing;
pub mod session;
pub mod streams;
pub mod trial;

pub use errors::ProxyError;

//! Routing and caching engine of a text-generation gateway.

pub mod cache;
pub mod error;
pub mod laws;
pub mod model;
pub mod providers;
pub mod router;
pub mod routes;

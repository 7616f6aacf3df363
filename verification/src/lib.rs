//! Account, authentication and registration rules of the progigs user service.
//!
//! The HTTP server and the MongoDB storage live in the application crate; this
//! library holds the decisions that the request handlers make, with their
//! contracts.

pub mod error;
pub mod middleware;
pub mod model;
pub mod connection;
pub mod routes;

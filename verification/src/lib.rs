//! A small, fully specified HTTP service: a health check plus mocked
//! CRUD-style endpoints for users and posts.
//!
//! The crate is pure computation: [`handle_request`] maps a method, a path
//! and a request body to a status code and an optional JSON body, exactly
//! as [`router::spec_handle`] describes.  Transport (sockets, headers) is
//! left to the caller.

pub mod handlers;
pub mod json;
pub mod laws;
pub mod model;
pub mod router;
pub mod text;

pub use router::handle_request;
pub use router::Response;

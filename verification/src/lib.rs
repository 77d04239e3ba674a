//! A cache for an HTTPS server that stands in front of an HTTP backend.
pub mod cache;
pub mod content;
pub mod laws;
pub mod model;
pub mod request;
pub mod settings;
pub mod store;
pub mod tls;

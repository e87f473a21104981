//! Request-processing layer of an HTTP server framework: mutable service
//! envelopes around a request head and its body stream, a layered typed-data
//! registry for per-scope configuration, and a size-limited, encoding-aware
//! extractor that decodes URL encoded form bodies.

pub mod error;
pub mod form;
pub mod http;
pub mod payload;
pub mod registry;
pub mod request;
pub mod service;
pub mod testing;
pub mod text;

//! A small concurrent static file server: request parsing, path resolution,
//! response headers, configuration parsing and the worker pool's job queue.

pub mod text;
pub mod config;
pub mod pool;
pub mod request;
pub mod resolve;
pub mod response;
pub mod service;

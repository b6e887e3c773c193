//! A throughput measurement service: routing, fixed replies, the
//! configuration document and the bounded stream of random chunks that the
//! large download is made of.

pub mod config;
pub mod entropy;
pub mod routes;
pub mod settings;
pub mod stream;

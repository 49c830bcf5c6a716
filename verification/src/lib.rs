//! Request-processing building blocks for a network service: interceptors that
//! wrap a downstream handler, a token guard, and a logging sidecar.
//!
//! Every decision the building blocks take is a verified function over plain
//! values. The transport, the clock and the file system stay with the caller.

pub mod color;
pub mod compare;
pub mod database;
pub mod http;
pub mod interceptor;
pub mod jwt;
pub mod logger;
pub mod resp;
pub mod text;
pub mod tools;

//! Small utilities used around a service.

pub mod address;
pub mod lines;
pub mod multipart;
pub mod query;
pub mod routes;
pub mod unit;
pub mod validate;

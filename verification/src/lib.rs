//! A small client for the HTTP management API of a cluster scheduler.

pub mod base;
pub mod client;
pub mod decode;
pub mod encode;
pub mod jobs;
pub mod json;
pub mod schema;
mod text;

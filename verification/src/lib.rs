//! Core of a URL-shortening service: a record model for {url, key} pairs,
//! a random key generator, a mapping store that enforces key uniqueness,
//! the store's persistence format, and the service's metrics model.

pub mod handler;
pub mod metrics;
pub mod model;
pub mod request;
pub mod setting;
pub mod store;
mod text;

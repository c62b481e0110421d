//! Core of a URL-shortening service: random short-code generation, URL
//! validation, and the bounded-retry allocation protocol that reserves a
//! unique short code in a store with a uniqueness constraint.

pub mod allocator;
pub mod models;
pub mod store;
pub mod utils;

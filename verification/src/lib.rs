//! Client-side marshalling layer for a remote key-value document store.
//!
//! The library normalizes application values into the store's canonical
//! JSON envelope, extracts and injects item keys, accumulates partial
//! updates, and reconciles mixed success/failure batch responses into
//! typed results. Transport (HTTP), credential loading and URL assembly
//! are left to the embedding application; every function here is pure
//! and fully specified.

pub use client::Deta;
pub use error::Error;
pub use item::Item;
pub use json::JsonValue;
pub use update::Update;

pub mod batch;
pub mod client;
pub mod codec;
pub mod error;
pub mod item;
pub mod json;
pub mod update;

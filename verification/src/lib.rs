//! Schema ingestion and object-handle model for binding a statically typed
//! language to a dynamically typed host object runtime.
//!
//! The library turns a loosely typed class/method/enum description into a
//! validated static model (`schema`), derives the transitive inheritance
//! relation and per-class memory policies from it (`generator`), and defines
//! how typed handles reference, share and release instances that live inside
//! the host runtime (`runtime`, `storage`).

pub mod declarer;
pub mod errors;
pub mod generator;
pub mod resource;
pub mod json_models;
pub mod runtime;
pub mod schema;
pub mod traits;

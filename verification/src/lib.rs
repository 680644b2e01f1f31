//! A catalogue of file-backed projects, each holding one table of entries.
//!
//! The library decides; the embedding application performs the file and
//! datastore work and reports how it went. Every function here is a plain
//! function from what is known and what the outside answered to what is
//! returned and what is remembered.

pub mod api;
pub mod counter;
pub mod dal;
pub mod error;
pub mod model;
pub mod relay;
pub mod sql;

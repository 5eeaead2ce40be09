//! Discovery and pinning of plugin packages.
//!
//! Repositories are found under a topic tag, filtered against a blacklist,
//! asked for their manifest, and each package they declare is pinned to a
//! revision and to the content hash of that revision's archive. The result is
//! one record for each package name of each category.
//!
//! The library decides; it does no outside work. [`pipeline::Pipeline`] says
//! which work it waits for, is told what came of it, and goes on. Its
//! behaviour is stated over the state machine of [`model`], and [`laws`] holds
//! what is proved of every run of that machine.

pub mod cache;
pub mod json;
pub mod laws;
pub mod manifest;
pub mod model;
pub mod output;
pub mod pin;
pub mod pipeline;
pub mod protocol;
pub mod repository;
pub mod skip;
pub mod text;

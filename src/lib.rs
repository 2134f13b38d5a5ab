//! Boxedmino: the verified core of a sandboxing launcher.
//!
//! The library holds the decisions of the launcher's asset pipeline: how
//! progress is shown, how a multi-platform archive is flattened, how a
//! download and an unpack proceed from one event to the next, and which
//! versions of the bundle exist. All I/O stays with the caller.
pub mod text;
pub mod resolve;
pub mod download;
pub mod relay;
pub mod unpack;
pub mod json;
pub mod catalog;
pub mod paths;
pub mod config;
pub mod git;

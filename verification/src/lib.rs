//! Planning and formatting logic of a small Docker container manager.
//!
//! The crate computes everything the command-line tool decides: the Engine API
//! paths and query strings it requests, the rows it shows for containers and
//! their resource usage, and the frames it extracts from a log stream. Sending
//! requests and printing stay with the caller.
pub mod cli;
pub mod display;
pub mod docker;
pub mod error;
mod foreign;
pub mod logs;
pub mod query;
pub mod text;

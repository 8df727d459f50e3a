//! Host-side decision core of a data pipeline assembled from dynamically
//! loaded modules.
//!
//! The crate holds every rule of the host: which discovered libraries are
//! loaded, how a definition becomes a pipeline, how components move through
//! their lifecycle, what a record router does with each record, and how the
//! chain shuts down. It performs no call into a module itself. Wherever the
//! host has to call a module, a function here says which calls to make, as
//! values of [`abi::ModuleCall`], and another takes what the module answered
//! and decides what follows.

pub mod abi;
pub mod cli;
pub mod config;
pub mod modules;
pub mod pipeline;
pub mod sequences;
pub mod shutdown;
pub mod text;
pub mod xthread;

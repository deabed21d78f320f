//! The core of a crawler that mirrors a directory-like web site to local
//! storage: which page to visit next, what a page gives to do, how a file
//! is transferred, and when a failed attempt is tried again.
//!
//! The library decides; it neither talks to the network nor touches the
//! disk. The caller does both and hands back what came of it.
//!
//! - [`engine`]: the breadth-first traversal, as a machine driven by events
//! - [`reach`]: what a run of the traversal reaches
//! - [`frontier`], [`ledger`]: the nodes that wait, and the claims on them
//! - [`page`]: the links and labels of a fetched page
//! - [`download`], [`batch`]: the plan for one file, and for a directory of files
//! - [`retry`]: bounded retry and the pause between attempts
//! - [`stats`]: the counters of a run
//! - [`config`]: the settings that the command line gives
//! - [`naming`], [`text`]: names, addresses, paths and the text they are made of

pub mod batch;
pub mod config;
pub mod download;
pub mod engine;
pub mod frontier;
pub mod ledger;
pub mod naming;
pub mod page;
pub mod reach;
pub mod retry;
pub mod stats;
pub mod text;

//! Capture-and-reconcile engine for producing one output image per logical
//! item from an external page renderer.
//!
//! The library computes which items still need an output (set reconciliation
//! over item identifiers parsed from store file names), fills a pop-once task
//! queue with them, and drives a per-worker capture protocol with bounded
//! retries, renderer replacement on repeated failure, and speculative
//! preloading of the next item's page.

pub mod config;
pub mod health;
pub mod ids;
pub mod idset;
pub mod pixels;
pub mod progress;
pub mod protocol;
pub mod queue;
pub mod reconcile;
pub mod render;

//! Core policy engine of a Kubernetes admission webhook.
//!
//! The library evaluates a fixed set of admission policies over an untyped
//! JSON object tree, producing violations and RFC 6902 `add` patches, and
//! aggregates them into a single admission decision.

pub mod admission;
pub mod apply;
pub mod config;
pub mod engine;
pub mod json;
pub mod laws;
pub mod metrics;
pub mod patch;
pub mod policies;
pub mod strutil;
pub mod webhook;

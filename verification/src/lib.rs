//! Dispatcher, client and manifest construction for contract interfaces.
//!
//! An interface is described by a name and a list of declarations: methods,
//! an optional constructor and events. From the description the library
//! builds the interface model, gives every method the selector that its
//! canonical signature hashes to, and derives three artifacts from the
//! model: a dispatcher that routes incoming payloads by selector, an
//! optional client that frames outgoing calls, and a manifest that
//! describes the interface for tooling.
//!
//! - [`args`]: the names the artifacts are published under.
//! - [`types`], [`values`]: the type vocabulary and the plain values.
//! - [`selector`]: canonical signatures and selectors.
//! - [`model`]: the interface model and its builder.
//! - [`endpoint`]: the dispatcher.
//! - [`client`]: the client.
//! - [`manifest`]: the manifest.
//! - [`generate`]: one pass from description to artifacts.
//! - [`laws`]: what holds across the generators.

pub mod args;
pub mod client;
pub mod endpoint;
pub mod generate;
pub mod laws;
pub mod manifest;
pub mod model;
pub mod selector;
pub mod types;
pub mod values;

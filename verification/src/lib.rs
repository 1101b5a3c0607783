//! Request lifecycle management and markup sanitisation for an embedding
//! scripting host.
//!
//! The host drives everything through short, text-based calls. This crate
//! holds the state behind those calls and the rules that govern it; the
//! network round-trip itself is left to the embedding program, which hands
//! each outcome back by handle.

pub mod codec;
pub mod error;
pub mod handle;
pub mod laws;
pub mod manager;
pub mod markup;
pub mod oneshot;
pub mod registry;
pub mod request;
pub mod response;
pub mod text;

//! Pack resolution and synchronization engine for a remote mod catalog.
//!
//! The crate turns a constraint descriptor (platform version, loader,
//! allowed release channels) plus a catalog listing into a concrete
//! artifact selection, expands one level of required dependencies,
//! and keeps a named pack's serialized representation consistent
//! across multi-step mutations.

pub mod config;
pub mod defines;
pub mod download;
pub mod pack;
pub mod resolver;
pub mod store;
pub mod text;
pub mod workflow;

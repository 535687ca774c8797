//! Object read caches that sit in front of a node's object store, and the
//! request handling of the local dry-run IPC endpoint.

pub mod types;

pub mod lookup;
pub mod store;
pub mod input_loader;
pub mod object_cache;

pub mod request;
pub mod connection;

pub mod laws;

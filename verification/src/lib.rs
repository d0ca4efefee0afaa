//! A verified shader hot-reload pipeline: a preprocessor that resolves
//! textual includes with cycle detection and dependency tracking, a
//! best-effort uniform binder, and a service that swaps compiled shader
//! state atomically while retaining the last good build on any failure.
//! The host supplies what the library cannot touch: disk reads, the file
//! watcher thread, and the GPU compiler.

pub mod bytes;
pub mod errors;
pub mod laws;
pub mod locations;
pub mod preprocess;
pub mod service;
pub mod store;

//! Client-side feature-flag resolution: a cached snapshot of flags, refreshed
//! from a remote source under a single-flight lock and a circuit breaker, with
//! local overrides merged over the remote records.
pub mod cache;
pub mod circuit;
pub mod client;
pub mod error;
pub mod flag;
pub mod header;
pub mod local;
pub mod merge;
pub mod text;

pub use client::{ApiResponse, Auth, Client, ClientBuilder, Flag, RefreshStart};
pub use error::FlagError;
pub use local::build_local;

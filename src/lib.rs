//! Keeps an object store in step with a local directory tree by content
//! hashing, and decides the lifecycle of the server that publishes it.
pub mod manifest;
pub mod hashing;
pub mod entry;
pub mod plan;
pub mod publish;
pub mod reload;
pub mod shutdown;

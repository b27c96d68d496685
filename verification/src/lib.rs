//! Decision core of a resumable, verifiable file copier.

pub mod bandwidth;
pub mod buffer_pool;
pub mod checkpoint;
pub mod cli;
pub mod config;
pub mod engine;
pub mod error;
pub mod hash;
pub mod os;
pub mod os_ops;
pub mod path;
pub mod path_map;
pub mod pipeline;
pub mod seqs;
pub mod telemetry;
pub mod text;

pub use bandwidth::Throttle;
pub use buffer_pool::{Buffer, BufferPool};
pub use config::EngineConfig;
pub use error::{CoreError, Result};
pub use os_ops::{NoOpOsOps, OsOps};

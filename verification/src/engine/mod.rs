//! The engine: planning and book-keeping of a copy job.

pub mod agenda;
pub mod block;
pub mod dry_run;
pub mod move_op;
pub mod orchestrator;
pub mod report;
pub mod swarm;

pub use orchestrator::Orchestrator;

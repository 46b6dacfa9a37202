//! Routing of files from a source directory to category-specific removable
//! drives: the record table of completed and deferred transfers, and the
//! decisions of the synchronization engine, with their proofs.

pub mod classifier;
pub mod config;
pub mod digest;
pub mod drive;
pub mod error;
pub mod laws;
pub mod record;
pub mod state;
pub mod summary;
pub mod sync;
pub mod text;
pub mod watcher;

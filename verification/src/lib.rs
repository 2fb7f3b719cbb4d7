//! The index writer of a full-text search engine: the user's entry point for
//! adding documents to an index, with its indexing workers, its segment
//! updater, and the protocol by which changes are committed or rolled back.

pub mod channel;
pub mod count_laws;
pub mod document;
pub mod error;
pub mod file_laws;
pub mod index;
pub mod index_writer;
pub mod indexing_worker;
pub mod register_laws;
pub mod segment;
pub mod segment_manager;
pub mod segment_update;
pub mod segment_updater;
pub mod system;
pub mod system_laws;
pub mod system_steps;
pub mod updater_laws;
pub mod worker_laws;
pub mod writer_laws;

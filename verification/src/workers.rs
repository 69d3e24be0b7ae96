//! The workers of a synchronization: the parts of them that decide.
pub mod progress_worker;
pub mod walk_worker;

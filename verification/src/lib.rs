//! Minimalist rsync: the logic of the synchronization tool.
//!
//! * `duration`: parsing of human-friendly intervals (`10m`, `1h30m`, ...).
//! * `filters`: include and exclude rules over relative paths.
//! * `entry`, `fsops`: what is known of an entry, when a file is copied,
//!   when destination directories are created.
//! * `progress`, `sync`: the messages of the workers, the statistics of a
//!   run, and the callbacks that display progress.
//! * `workers`: the decisions of the walk and progress workers.
//! * `console_info`: the lines displayed on the command line.
//! * `text`: decimal and padding helpers used to render those lines.
pub use duration::parse_duration;
pub use filters::Filters;
pub use sync::{Stats, SyncOptions};

pub mod console_info;
pub mod duration;
pub mod entry;
pub mod filters;
pub mod fsops;
pub mod progress;
pub mod sync;
pub mod text;
pub mod workers;

//! Building blocks of a live overlay compositor: a versioned, hot-reloading
//! file cache and the pixel arithmetic used when layers are blended.

pub mod cache_entry;
pub mod cache_model;
pub mod cache_table;
pub mod canonical_path;
pub mod change_wait;
pub mod file_cache;
pub mod file_cache_internal;
pub mod laws;
pub mod pixel;
pub mod render_buffer;
pub mod text;
pub mod watch_change;
pub mod watch_detector;

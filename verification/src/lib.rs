//! Liveness tracking for mounted filesystems.
//!
//! Every mountpoint carries the verdict of its latest probe. A probe that has
//! not come back by its deadline is remembered, and no further probe is
//! started for that mountpoint until the remembered one has been reaped.

mod entries;
pub mod laws;
pub mod machine;
pub mod probe;
pub mod registry;
pub mod status;
pub mod summary;

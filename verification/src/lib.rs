//! Consistent snapshots of a directory tree that other processes may be
//! writing to.
//!
//! A snapshot claims to show the tree as of one instant, its revision. A pass
//! over the tree holds every modification time against that revision and
//! fails as soon as something turns out to be newer; the driver then retries
//! with a later revision, reusing what earlier passes captured. A pass that
//! goes through yields a flat list of entries, which is written into a tar
//! container whose file payloads are zstd frames.
//!
//! The library touches no file system: a pass is handed what was observed of
//! the tree as plain values, and the archive comes out as bytes.

pub mod archive;
pub mod archiver;
pub mod below;
pub mod calm;
pub mod codec;
pub mod compile;
pub mod confirm;
pub mod driver;
pub mod entry;
pub mod error;
pub mod file;
pub mod laws;
pub mod metadata;
pub mod model;
pub mod path;
pub mod quiet;
pub mod revision;
pub mod scan;
pub mod stamps;
pub mod symlink;
pub mod unique;
pub mod visitor;

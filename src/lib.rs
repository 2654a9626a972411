//! Metadata and namespace layer of a small block file system: inode records,
//! flat directories of fixed-size entries, hard links and byte I/O, with the
//! task-facing calls built on them.
pub mod efs;
pub mod laws;
pub mod layout;
pub mod process;
pub mod syscall;
pub mod vfs;

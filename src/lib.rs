//! Converts comic-book containers (directory, ZIP, RAR, 7z) into a normalized
//! CBZ (ZIP) archive, with a pluggable per-entry transform.
pub mod text;
pub mod path;
pub mod naming;
pub mod container;
pub mod transform;
pub mod entry;
pub mod resize;
pub mod kind;
pub mod session;
pub mod renumber;

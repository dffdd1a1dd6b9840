//! Links a tree of managed dotfiles into place.
//!
//! The crate decides, it does not act: it resolves the paths of each mapping,
//! and tells its caller which file-system operation comes next and what the
//! answer means. All of it is verified with Verus.

pub mod filemap;
pub mod mapping;
pub mod paths;
pub mod prompt;
pub mod protocol;
pub mod target;
pub mod job;
pub mod world;
pub mod laws;

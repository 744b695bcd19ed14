//! Scans directory trees and classifies each subdirectory as a plain
//! directory, a working-tree git repository, a bare repository, or a linked
//! worktree of a bare repository.
//!
//! The filesystem and the external git tool are collaborators: their
//! observations arrive as plain values in a [`model::DirNode`] snapshot, and
//! every decision taken over those values — probe interpretation,
//! classification, worktree-listing parsing, the depth-bounded walk with its
//! kind-conditional recursion, and home-relative path expansion — lives here.
pub mod classify;
pub mod model;
pub mod paths;
pub mod text;
pub mod walk;
pub mod worktrees;

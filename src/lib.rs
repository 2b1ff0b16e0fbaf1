//! Deploys a tree of dotfiles: mirrors a source tree into an output tree,
//! rendering template files on the way, and plans the symlinks that point
//! from the home directory into the output tree.

pub mod error;
pub mod paths;
pub mod scan;
pub mod plan;
pub mod values;
pub mod link;

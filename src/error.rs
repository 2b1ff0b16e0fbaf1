//! The errors that the deployment logic reports.

use vstd::prelude::*;

verus! {

/// Why a deployment cannot go on.
#[derive(Debug, Clone, Copy, PartialEq, Eq, Structural)]
pub enum DeployError {
    /// Templates are present but the values document is absent.
    ConfigMissing,
    /// The values document is not a well-formed table.
    ConfigParse,
    /// An entry met while walking the source tree could not be read.
    Traversal,
    /// A scanned file does not lie strictly below the source root.
    OutsideRoot,
    /// A template could not be rendered.
    Template,
    /// A link target is a directory that still holds entries.
    UnsafeOverwrite,
}

impl DeployError {
    /// A sentence that describes the error.
    pub fn message(&self) -> (r: String) {
        match self {
            DeployError::ConfigMissing => String::from_str("template files are present, but the values file was not found"),
            DeployError::ConfigParse => String::from_str("the values file is not a valid table"),
            DeployError::Traversal => String::from_str("an entry of the source tree could not be read"),
            DeployError::OutsideRoot => String::from_str("a scanned file lies outside the source root"),
            DeployError::Template => String::from_str("a template could not be rendered"),
            DeployError::UnsafeOverwrite => String::from_str("a link target is a directory that is not empty"),
        }
    }
}

} // verus!

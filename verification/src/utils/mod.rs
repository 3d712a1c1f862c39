//! What the index takes from a walk of the workspace.

pub mod path;

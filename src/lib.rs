//! Interpretation of a package descriptor: decoding the generic tree into
//! typed entries, resolving where each dependency comes from, and
//! normalizing the declared build targets.
pub mod decode;
pub mod descriptor;
pub mod document;
pub mod error;
pub mod laws;
pub mod manifest;
pub mod package;
pub mod source;
pub mod target;
pub mod text;
pub mod tree;

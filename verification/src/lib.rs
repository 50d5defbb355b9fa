//! Resolution of symbolic contract references against a project manifest and a
//! local artifact cache, and the name registry that records published versions.

pub mod binding;
pub mod document;
pub mod locator;
pub mod manifest;
pub mod registry;
pub mod resolver;
pub mod text;

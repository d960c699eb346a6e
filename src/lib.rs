//! A lint for markup templates: it finds `data-*` directive attributes whose
//! plugin is one of a fixed set of restricted plugins, and reports each use.

pub mod text;
pub mod dialect;
pub mod directive;
pub mod syntax;
pub mod lint;
pub mod report;
pub mod discovery;

//! A project scaffolding library: given a configuration of tool choices and a
//! catalog of text templates, it resolves the set of files a new project is
//! made of, substituting placeholder tokens in paths and contents.

pub mod casing;
pub mod catalog;
pub mod config;
pub mod templates;
pub mod text;

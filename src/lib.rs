//! Organises local clones of remote repositories: classifies a repository
//! identifier, extracts its identity, builds the address to clone from and
//! expands a path template into the local directory for it.

pub mod text;
pub mod address;
pub mod template;
pub mod config;
pub mod clone;
pub mod projects;
pub mod laws;

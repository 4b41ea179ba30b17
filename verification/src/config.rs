//! Typed configuration documents and their helpers.

pub mod compose;
pub mod docker_file;
pub mod env_vars;
pub mod health;
pub mod volume;
pub mod requirements;
pub mod resolve;

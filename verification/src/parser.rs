//! Parsers for the two text formats and the environment resolver.

pub mod compose;
pub mod docker_file;
pub mod dockerfile;
pub mod env;

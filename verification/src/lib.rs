//! Verified core of a container-deployment toolkit.
//!
//! The crate turns two loosely specified text formats — an imperative,
//! Dockerfile-like build script and a declarative, Compose-like multi-service
//! manifest — into validated, strongly typed documents, and resolves
//! cross-references between the manifest's services: environment-variable
//! interpolation and dependency ordering.  All parsing, normalization,
//! substitution and graph logic is verified; calls into outside crates
//! (YAML structure, shell-style word splitting, JSON arrays) stand behind
//! small trusted wrappers whose contracts name what those crates return.

pub mod config;
pub mod container;
pub mod error;
pub mod parser;
pub mod text;
pub mod words;
pub mod yaml;

pub use config::docker_file::{DockerCommand, DockerfileConfig};
pub use config::compose::{BuildConfig, ComposeConfig, Service};
pub use config::env_vars::EnvironmentVars;
pub use config::health::{HealthCheck, Method};
pub use config::requirements::{SystemRequirements, parse_memory_string};
pub use config::volume::Volume;
pub use container::ContainerStatus;
pub use error::DockerError;
pub use parser::compose::ComposeParser;
pub use parser::dockerfile::DockerfileParser;

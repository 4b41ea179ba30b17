//! Container status values, as a runtime reports them.
//!
//! Creating, starting and inspecting containers is the deployment
//! collaborator's work; the core owns only the closed set of status words and
//! the two predicates that decisions are made on.

use vstd::prelude::*;

use crate::config::env_vars::str_eq;
use crate::error::DockerError;

verus! {

/// The status of a container.
#[derive(Copy, Clone, Debug, PartialEq, Eq, Structural)]
pub enum ContainerStatus {
    /// Created, but never started.
    Created,
    /// Actively running.
    Running,
    /// Paused.
    Paused,
    /// Restarting according to the restart policy.
    Restarting,
    /// Started once, no longer running.
    Exited,
    /// In the process of being removed.
    Removing,
    /// Defunct, partially removed.
    Dead,
}

/// The status named by a runtime's status word, if any.
pub open spec fn status_of(s: Seq<char>) -> Option<ContainerStatus> {
    if s == "created"@ {
        Some(ContainerStatus::Created)
    } else if s == "running"@ {
        Some(ContainerStatus::Running)
    } else if s == "paused"@ {
        Some(ContainerStatus::Paused)
    } else if s == "restarting"@ {
        Some(ContainerStatus::Restarting)
    } else if s == "exited"@ {
        Some(ContainerStatus::Exited)
    } else if s == "removing"@ {
        Some(ContainerStatus::Removing)
    } else if s == "dead"@ {
        Some(ContainerStatus::Dead)
    } else {
        None
    }
}

impl ContainerStatus {
    /// Parse a runtime's status word; an unknown word is an error naming it.
    pub fn from_str(s: &str) -> (r: Result<ContainerStatus, DockerError>)
        ensures
            match r {
                Ok(st) => status_of(s@) == Some(st),
                Err(e) => status_of(s@) is None && e is ValidationError && e.text()
                    == "Found an invalid status for the container: `"@ + s@ + "`"@,
            },
    {
        if str_eq(s, "created") {
            Ok(ContainerStatus::Created)
        } else if str_eq(s, "running") {
            Ok(ContainerStatus::Running)
        } else if str_eq(s, "paused") {
            Ok(ContainerStatus::Paused)
        } else if str_eq(s, "restarting") {
            Ok(ContainerStatus::Restarting)
        } else if str_eq(s, "exited") {
            Ok(ContainerStatus::Exited)
        } else if str_eq(s, "removing") {
            Ok(ContainerStatus::Removing)
        } else if str_eq(s, "dead") {
            Ok(ContainerStatus::Dead)
        } else {
            let mut msg = String::new();
            msg.append("Found an invalid status for the container: `");
            msg.append(s);
            msg.append("`");
            proof {
                reveal_strlit("Found an invalid status for the container: `");
                reveal_strlit("`");
                reveal_strlit("");
            }
            Err(DockerError::ValidationError(msg))
        }
    }

    /// Whether the container is actively running.
    pub fn is_active(self) -> (r: bool)
        ensures
            r == (self is Running),
    {
        matches!(self, ContainerStatus::Running)
    }

    /// Whether the container can still be used (it is not being removed and
    /// is not defunct).
    pub fn is_usable(self) -> (r: bool)
        ensures
            r == !(self is Removing || self is Dead),
    {
        !matches!(self, ContainerStatus::Removing | ContainerStatus::Dead)
    }
}

} // verus!

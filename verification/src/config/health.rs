//! HTTP health-check configuration.
//!
//! Probing an endpoint is the deployment collaborator's work; the core owns
//! the typed configuration: what to call, what to expect, and how often.

use vstd::prelude::*;

verus! {

/// The HTTP method of a health probe.
#[derive(Copy, Clone, Debug, PartialEq, Eq, Structural)]
pub enum Method {
    Get,
    Post,
}

impl Method {
    /// The method's name on the wire.
    pub fn name(&self) -> (r: &'static str)
        ensures
            r@ == (if self is Get {
                "GET"@
            } else {
                "POST"@
            }),
    {
        match self {
            Method::Get => "GET",
            Method::Post => "POST",
        }
    }
}

/// One HTTP health check: endpoint, method, expected status, optional body,
/// and its schedule.  The interval and timeout are in nanoseconds.
pub struct HealthCheck {
    pub endpoint: String,
    pub method: Method,
    pub expected_status: u16,
    pub body: Option<String>,
    pub interval: u64,
    pub timeout: u64,
    pub retries: u32,
}

/// The mathematical form of a health check.
pub struct HealthCheckView {
    pub endpoint: Seq<char>,
    pub method: Method,
    pub expected_status: u16,
    pub body: Option<Seq<char>>,
    pub interval: u64,
    pub timeout: u64,
    pub retries: u32,
}

impl View for HealthCheck {
    type V = HealthCheckView;

    open spec fn view(&self) -> HealthCheckView {
        HealthCheckView {
            endpoint: self.endpoint@,
            method: self.method,
            expected_status: self.expected_status,
            body: crate::config::volume::opt_str_view(self.body),
            interval: self.interval,
            timeout: self.timeout,
            retries: self.retries,
        }
    }
}

} // verus!

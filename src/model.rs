use vstd::prelude::*;

verus! {

/// Query parameters of the probe results endpoint.
#[derive(Debug, Clone, Copy, PartialEq, Eq, Structural)]
pub struct ProbeQueryParams {
    pub show_response: Option<bool>,
}

/// Latest status of one probe as the HTTP API reports it.
#[derive(Debug, Clone, PartialEq, Eq)]
pub struct ProbeResponse {
    pub name: String,
    pub status: String,
    /// Completion time of the latest execution, in milliseconds since the Unix epoch.
    pub last_probed_ms: i64,
}

/// Names of the configured monitors.
#[derive(Debug, Clone, PartialEq, Eq)]
pub struct MonitorsResponse {
    pub probes: Vec<String>,
    pub stories: Vec<String>,
}

/// Outcome of a successful reload.
#[derive(Debug, Clone, PartialEq, Eq)]
pub struct ReloadResponse {
    pub reloaded: bool,
    pub probes: Vec<String>,
    pub stories: Vec<String>,
}

/// Error body of the HTTP API.
#[derive(Debug, Clone, PartialEq, Eq)]
pub struct ErrorResponse {
    pub error: String,
}

} // verus!

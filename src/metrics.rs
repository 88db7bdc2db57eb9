use vstd::prelude::*;

use crate::history::CheckResult;
use crate::status::MonitorStatus;

verus! {

/// What one execution contributes to the metrics of its definition.
#[derive(Debug, Clone, Copy, PartialEq, Eq, Structural)]
pub struct MetricSample {
    /// Execution time, in milliseconds, for the duration histogram.
    pub duration_ms: u64,
    /// Increment of the run counter.
    pub runs: u64,
    /// Increment of the error counter.
    pub errors: u64,
    /// Value of the status gauge.
    pub status: u64,
    /// Value of the protocol status-code gauge; 0 when the request failed.
    pub status_code: u64,
}

/// Whether an OTLP exporter speaks gRPC, given the value of
/// `OTEL_EXPORTER_OTLP_PROTOCOL` (absent when unset); HTTP otherwise.
pub fn otlp_uses_grpc(protocol: &Option<String>) -> (r: bool)
    ensures
        r == (protocol is Some && protocol->0@ == "grpc"@),
{
    match protocol {
        Some(p) => p.eq(&"grpc".to_owned()),
        None => false,
    }
}

/// The metrics of one execution that produced `result` in `duration_ms`:
/// one run, one error where it failed, the status gauge, and the status code.
pub fn metric_sample(result: &CheckResult, duration_ms: u64) -> (r: MetricSample)
    ensures
        r.duration_ms == duration_ms,
        r.runs == 1,
        r.errors == (if result.status == MonitorStatus::Error {
            1u64
        } else {
            0u64
        }),
        r.status == result.status.gauge(),
        r.status_code == result.status_code as u64,
{
    let errors: u64 = match result.status {
        MonitorStatus::Error => 1,
        MonitorStatus::Success => 0,
    };
    MetricSample {
        duration_ms,
        runs: 1,
        errors,
        status: result.status.as_u64(),
        status_code: result.status_code as u64,
    }
}

} // verus!

//! The health report of the service.
use vstd::prelude::*;

verus! {

/// The health report: the service runs, its version, the database answers,
/// whether the queue is paused and the printer's status.
#[derive(Debug, Clone)]
pub struct HealthResponse {
    pub ok: bool,
    pub version: &'static str,
    pub database: &'static str,
    pub queue_paused: bool,
    pub printer_status: String,
}

/// The health report of a service whose database answered.
pub fn health_response(version: &'static str, queue_paused: bool, printer_status: String) -> (r: HealthResponse)
    ensures
        r.ok,
        r.version == version,
        r.database@ == "ok"@,
        r.queue_paused == queue_paused,
        r.printer_status == printer_status,
{
    HealthResponse { ok: true, version, database: "ok", queue_paused, printer_status }
}

} // verus!

//! The liveness probe's status decision: how the result of one connection
//! attempt against the streaming endpoint is reported.

use vstd::prelude::*;
use vstd::string::StringExecFns;

verus! {

/// The HTTP status code reported when the streaming endpoint is reachable.
pub const HTTP_OK: u16 = 200;

/// The HTTP status code reported when the probe found the endpoint
/// degraded.
pub const HTTP_SERVICE_UNAVAILABLE: u16 = 503;

/// What one probe of the streaming endpoint reports.
pub struct HealthOutcome {
    /// `healthy` or `degraded`.
    pub status: String,
    pub websocket_available: bool,
    pub http_code: u16,
    /// The failure text when the connection attempt failed or timed out.
    pub error: Option<String>,
}

/// Folds the probe's connection attempt into the reported health: a
/// reachable endpoint is healthy with code 200; a failed or timed-out
/// attempt is degraded with code 503 and carries the failure text, rather
/// than failing the probe itself.
pub fn health_outcome(ws_check: Result<bool, String>) -> (r: HealthOutcome)
    ensures
        (ws_check matches Ok(a) ==> r.websocket_available == a && r.error is None),
        (ws_check matches Err(e) ==> r.websocket_available == false && (r.error matches Some(m)
            && m@ == e@)),
        r.websocket_available ==> r.http_code == HTTP_OK && r.status@ == "healthy"@,
        !r.websocket_available ==> r.http_code == HTTP_SERVICE_UNAVAILABLE && r.status@
            == "degraded"@,
{
    match ws_check {
        Ok(a) => {
            if a {
                HealthOutcome {
                    status: String::from_str("healthy"),
                    websocket_available: true,
                    http_code: HTTP_OK,
                    error: None,
                }
            } else {
                HealthOutcome {
                    status: String::from_str("degraded"),
                    websocket_available: false,
                    http_code: HTTP_SERVICE_UNAVAILABLE,
                    error: None,
                }
            }
        },
        Err(e) => {
            HealthOutcome {
                status: String::from_str("degraded"),
                websocket_available: false,
                http_code: HTTP_SERVICE_UNAVAILABLE,
                error: Some(e),
            }
        },
    }
}

} // verus!

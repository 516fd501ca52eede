use stt_stream::health::{health_outcome, HTTP_OK, HTTP_SERVICE_UNAVAILABLE};

#[test]
fn reachable_endpoint_reports_healthy() {
    let r = health_outcome(Ok(true));
    assert_eq!(r.http_code, HTTP_OK);
    assert_eq!(r.status, "healthy");
    assert!(r.websocket_available);
    assert!(r.error.is_none());
}

#[test]
fn failed_connection_reports_degraded_with_cause() {
    let r = health_outcome(Err("WebSocket connection timeout".to_string()));
    assert_eq!(r.http_code, HTTP_SERVICE_UNAVAILABLE);
    assert_eq!(r.status, "degraded");
    assert!(!r.websocket_available);
    assert_eq!(r.error.as_deref(), Some("WebSocket connection timeout"));
}

#[test]
fn unavailable_endpoint_reports_degraded_without_cause() {
    let r = health_outcome(Ok(false));
    assert_eq!(r.http_code, HTTP_SERVICE_UNAVAILABLE);
    assert_eq!(r.status, "degraded");
    assert!(!r.websocket_available);
    assert!(r.error.is_none());
}

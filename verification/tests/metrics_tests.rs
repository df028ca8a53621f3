use lucastra::metrics::Metrics;

#[test]
fn test_metrics_creation() {
    let metrics = Metrics::new();
    let snapshot = metrics.snapshot();
    assert_eq!(snapshot.command_count, 0);
    assert_eq!(snapshot.tool_success_count, 0);
}

#[test]
fn test_record_command() {
    let mut metrics = Metrics::new();
    metrics.record_command();
    metrics.record_command();
    let snapshot = metrics.snapshot();
    assert_eq!(snapshot.command_count, 2);
}

#[test]
fn test_record_tool_success_failure() {
    let mut metrics = Metrics::new();
    metrics.record_tool_success();
    metrics.record_tool_success();
    metrics.record_tool_failure();
    let snapshot = metrics.snapshot();
    assert_eq!(snapshot.tool_success_count, 2);
    assert_eq!(snapshot.tool_failure_count, 1);
}

#[test]
fn test_search_latency() {
    let mut metrics = Metrics::new();
    metrics.record_search(100);
    metrics.record_search(200);
    metrics.record_search(300);
    let snapshot = metrics.snapshot();
    assert_eq!(snapshot.search_queries, 3);
    assert_eq!(snapshot.average_search_latency_ms, 200);
}

#[test]
fn test_reset_metrics() {
    let mut metrics = Metrics::new();
    metrics.record_command();
    metrics.record_tool_success();
    metrics.reset();
    let snapshot = metrics.snapshot();
    assert_eq!(snapshot.command_count, 0);
    assert_eq!(snapshot.tool_success_count, 0);
}

use lucastra::obs_config::{parse_log_level, MetricsConfig, TracingConfig};

#[test]
fn test_log_level_parsing() {
    let test_cases = vec![
        ("trace", "TRACE"),
        ("debug", "DEBUG"),
        ("info", "INFO"),
        ("warn", "WARN"),
        ("error", "ERROR"),
        ("invalid", "INFO"),
    ];

    for (input, expected) in test_cases {
        let level_str = parse_log_level(input);
        assert!(!level_str.is_empty());
        assert_eq!(level_str, expected);
    }
}

#[test]
fn test_tracing_config_default() {
    let config = TracingConfig::default();
    assert_eq!(config.level, "info");
    assert!(config.file_logging);
    assert!(config.console_output);
    assert!(!config.json_format);
}

#[test]
fn test_metrics_config_default() {
    let config = MetricsConfig::default();
    assert!(config.enabled);
    assert!(!config.export_to_file);
    assert_eq!(config.export_interval_secs, 60);
}

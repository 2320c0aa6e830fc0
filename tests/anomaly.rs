use llamaloganalyzer_mlx::ml::anomaly::{
    findings_from_payloads, AnomalyDetector, AnomalyType, FindingPayload, PayloadField,
    DEFAULT_ERROR_THRESHOLD,
};
use llamaloganalyzer_mlx::parsers::LogEntry;
use llamaloganalyzer_mlx::report::{build_report, build_report_with, resolve_findings, BackendOutcome};
use llamaloganalyzer_mlx::utils::time::Timestamp;

fn entry(i: i64, level: &str, message: String) -> LogEntry {
    LogEntry {
        timestamp: Some(Timestamp { seconds: 1_700_000_000 + 60 * i }),
        level: level.to_string(),
        message,
        source: Some("test".to_string()),
    }
}

fn generate_test_logs_with_anomaly() -> Vec<LogEntry> {
    let mut entries = Vec::new();
    for i in 0..20 {
        entries.push(entry(i, "INFO", format!("Normal log message {}", i)));
    }
    for i in 0..10 {
        entries.push(entry(20 + i, "ERROR", format!("Error occurred: Connection timeout #{}", i)));
    }
    for i in 0..15 {
        entries.push(entry(30 + i, "INFO", format!("Back to normal log message {}", i)));
    }
    entries
}

const NOW: Timestamp = Timestamp { seconds: 1_800_000_000 };

#[test]
fn test_heuristic_anomaly_detection() {
    let detector = AnomalyDetector::new(DEFAULT_ERROR_THRESHOLD);
    let entries = generate_test_logs_with_anomaly();
    let anomalies = detector.detect_anomalies(&entries, NOW);
    assert!(!anomalies.is_empty(), "Expected to detect at least one anomaly");
    let has_frequency_anomaly =
        anomalies.iter().any(|a| matches!(a.anomaly_type, AnomalyType::FrequencyAnomaly));
    assert!(has_frequency_anomaly, "Expected to detect a frequency anomaly");
}

#[test]
fn error_burst_gives_one_exact_spike() {
    let detector = AnomalyDetector::new(3);
    let entries = generate_test_logs_with_anomaly();
    assert_eq!(entries.len(), 45);
    let anomalies = detector.detect_anomalies(&entries, NOW);
    assert_eq!(anomalies.len(), 1);
    let a = &anomalies[0];
    assert!(matches!(a.anomaly_type, AnomalyType::FrequencyAnomaly));
    assert_eq!(a.related_entries, (20..30).collect::<Vec<usize>>());
    assert_eq!(a.confidence_permille as f64 / 1000.0, 0.85);
    assert_eq!(a.severity, 4);
    assert_eq!(a.timestamp, NOW);
    assert_eq!(a.description, "Unusual spike in ERROR logs detected (10 occurrences)");
}

#[test]
fn too_few_entries_give_no_findings() {
    let detector = AnomalyDetector::new(0);
    let entries: Vec<LogEntry> = (0..9).map(|i| entry(i, "ERROR", "x".to_string())).collect();
    assert!(detector.detect_anomalies(&entries, NOW).is_empty());
    assert!(detector.detect_anomalies(&[], NOW).is_empty());
}

#[test]
fn threshold_is_exclusive() {
    let mut entries: Vec<LogEntry> = (0..7).map(|i| entry(i, "INFO", "ok".to_string())).collect();
    for i in 7..10 {
        entries.push(entry(i, "ERROR", "bad".to_string()));
    }
    let detector = AnomalyDetector::new(3);
    assert!(detector.detect_anomalies(&entries, NOW).is_empty());
    entries[0].level = "ERROR".to_string();
    let found = detector.detect_anomalies(&entries, NOW);
    assert_eq!(found.len(), 1);
    assert_eq!(found[0].related_entries, vec![0, 7, 8, 9]);
    entries[1].level = "error".to_string();
    assert_eq!(detector.detect_anomalies(&entries, NOW)[0].related_entries.len(), 4);
}

#[test]
fn tags_name_kinds() {
    assert!(matches!(AnomalyType::from("frequency_anomaly".to_string()), AnomalyType::FrequencyAnomaly));
    assert!(matches!(AnomalyType::from("content_anomaly".to_string()), AnomalyType::ContentAnomaly));
    assert!(matches!(AnomalyType::from("time_pattern_anomaly".to_string()), AnomalyType::TimePatternAnomaly));
    assert!(matches!(AnomalyType::from("window_anomaly".to_string()), AnomalyType::WindowAnomaly));
    assert!(matches!(AnomalyType::from("repeating_error".to_string()), AnomalyType::RepeatingError));
    match AnomalyType::from("burst".to_string()) {
        AnomalyType::Custom(s) => assert_eq!(s, "burst"),
        _ => panic!("expected a custom kind"),
    }
}

fn payload(tag: &str) -> FindingPayload {
    FindingPayload {
        anomaly_type: Some(tag.to_string()),
        confidence_permille: Some(700),
        description: Some("odd".to_string()),
        related_entries: Some(vec![1, 2]),
        severity: Some(3),
    }
}

#[test]
fn complete_payloads_are_taken_in() {
    let found = findings_from_payloads(&[payload("content_anomaly"), payload("x")], NOW).unwrap();
    assert_eq!(found.len(), 2);
    assert!(matches!(found[0].anomaly_type, AnomalyType::ContentAnomaly));
    assert_eq!(found[1].related_entries, vec![1, 2]);
    assert_eq!(found[1].confidence_permille, 700);
    assert_eq!(found[1].severity, 3);
    assert_eq!(found[1].description, "odd");
    assert_eq!(found[1].timestamp, NOW);
}

#[test]
fn malformed_payload_fails_the_batch() {
    let mut bad = payload("content_anomaly");
    bad.description = None;
    bad.severity = None;
    let err = findings_from_payloads(&[payload("a"), bad], NOW).unwrap_err();
    assert_eq!(err.index, 1);
    assert_eq!(err.missing, PayloadField::Description);
    let mut bad = payload("a");
    bad.anomaly_type = None;
    let err = findings_from_payloads(&[bad], NOW).unwrap_err();
    assert_eq!((err.index, err.missing), (0, PayloadField::AnomalyType));
}

#[test]
fn backend_failure_falls_back_on_rules() {
    let entries = generate_test_logs_with_anomaly();
    let detector = AnomalyDetector::new(3);
    let found = resolve_findings(&BackendOutcome::Unavailable, &entries, &detector, NOW);
    assert_eq!(found.len(), 1);
    let mut bad = payload("a");
    bad.confidence_permille = None;
    let found = resolve_findings(&BackendOutcome::Findings(vec![bad]), &entries, &detector, NOW);
    assert_eq!(found[0].related_entries.len(), 10);
    let found = resolve_findings(&BackendOutcome::Findings(vec![]), &entries, &detector, NOW);
    assert!(found.is_empty());
}

#[test]
fn report_gathers_all_engines() {
    let entries = generate_test_logs_with_anomaly();
    let detector = AnomalyDetector::new(3);
    let report = build_report(&entries, &detector, NOW);
    assert_eq!(report.statistics.total_entries, 45);
    assert_eq!(report.statistics.count_for("ERROR"), Some(10));
    assert_eq!(report.anomalies.len(), 1);
    assert_eq!(report.patterns.top_patterns[0], ("Normal".to_string(), 20));
    let report = build_report_with(&BackendOutcome::Findings(vec![payload("x")]), &entries, &detector, NOW);
    assert_eq!(report.anomalies.len(), 1);
    assert!(matches!(report.anomalies[0].anomaly_type, AnomalyType::Custom(_)));
}

use vstd::prelude::*;
use crate::parsers::{LogEntry, EntryView};
use crate::utils::time::Timestamp;
use crate::analyzer::frequency::{counts_view, tally};
use crate::analyzer::statistics::{
    LogStatistics, compute_statistics, entries_view, levels, instants, span_matches, mean_matches,
};
use crate::analyzer::patterns::{PatternAnalysis, summarize, summarizes};
use crate::ml::anomaly::{
    AnomalyDetector, AnomalyResult, FindingPayload, findings_from_payloads, detected, all_complete,
    findings_match,
};

verus! {

/// Everything one analysis run reports.
pub struct AnalysisReport {
    pub statistics: LogStatistics,
    pub patterns: PatternAnalysis,
    pub anomalies: Vec<AnomalyResult>,
}

/// What an outside scoring backend answered, if it answered at all.
pub enum BackendOutcome {
    /// The backend returned this batch of findings.
    Findings(Vec<FindingPayload>),
    /// The backend could not be reached or failed.
    Unavailable,
}

/// `findings` are the ones to report: the backend's when it answered with a well-formed
/// batch, else those of the rule-based detector with `threshold`.
pub open spec fn resolved(
    findings: Seq<AnomalyResult>,
    outcome: BackendOutcome,
    es: Seq<EntryView>,
    threshold: nat,
    at: Timestamp,
) -> bool {
    match outcome {
        BackendOutcome::Findings(ps) => if all_complete(ps@) {
            findings_match(findings, ps@, at)
        } else {
            detected(findings, es, threshold, at)
        },
        BackendOutcome::Unavailable => detected(findings, es, threshold, at),
    }
}

/// The findings to report: the backend's when it answered with a well-formed batch, else
/// those of the rule-based `detector`.
pub fn resolve_findings(
    outcome: &BackendOutcome,
    entries: &[LogEntry],
    detector: &AnomalyDetector,
    detected_at: Timestamp,
) -> (r: Vec<AnomalyResult>)
    ensures
        resolved(r@, *outcome, entries_view(entries@), detector.error_threshold as nat, detected_at),
{
    match outcome {
        BackendOutcome::Findings(ps) => match findings_from_payloads(ps.as_slice(), detected_at) {
            Ok(v) => v,
            Err(_) => detector.detect_anomalies(entries, detected_at),
        },
        BackendOutcome::Unavailable => detector.detect_anomalies(entries, detected_at),
    }
}

/// What a report states of entries `es`, with `anomalies` as found.
pub open spec fn report_matches(r: AnalysisReport, entries: Seq<LogEntry>) -> bool {
    let es = entries_view(entries);
    &&& r.statistics.total_entries == es.len()
    &&& counts_view(r.statistics.level_counts@) == tally(levels(es))
    &&& span_matches(r.statistics.time_span, instants(es))
    &&& mean_matches(r.statistics.average_time_diff, instants(es))
    &&& summarizes(es, r.patterns)
}

/// Runs the statistics, the pattern search and the rule-based detector over the same
/// entries and puts their results together.
pub fn build_report(
    entries: &[LogEntry],
    detector: &AnomalyDetector,
    detected_at: Timestamp,
) -> (r: AnalysisReport)
    ensures
        report_matches(r, entries@),
        detected(r.anomalies@, entries_view(entries@), detector.error_threshold as nat, detected_at),
{
    AnalysisReport {
        statistics: compute_statistics(entries),
        patterns: summarize(entries),
        anomalies: detector.detect_anomalies(entries, detected_at),
    }
}

/// Puts together a report whose findings come from `outcome`, falling back on the rule-based
/// `detector` when the backend gave no usable answer.
pub fn build_report_with(
    outcome: &BackendOutcome,
    entries: &[LogEntry],
    detector: &AnomalyDetector,
    detected_at: Timestamp,
) -> (r: AnalysisReport)
    ensures
        report_matches(r, entries@),
        resolved(
            r.anomalies@,
            *outcome,
            entries_view(entries@),
            detector.error_threshold as nat,
            detected_at,
        ),
{
    AnalysisReport {
        statistics: compute_statistics(entries),
        patterns: summarize(entries),
        anomalies: resolve_findings(outcome, entries, detector, detected_at),
    }
}

} // verus!

use vstd::prelude::*;
use crate::parsers::{LogEntry, EntryView};
use crate::analyzer::statistics::entries_view;
use crate::text::{decimal, decimal_text, text_is};
use crate::utils::time::Timestamp;

verus! {

/// The kinds of anomaly a detector can report.
#[derive(Clone, Debug)]
pub enum AnomalyType {
    FrequencyAnomaly,
    ContentAnomaly,
    TimePatternAnomaly,
    WindowAnomaly,
    RepeatingError,
    Custom(String),
}

/// One anomaly found in a sequence of entries.
#[derive(Clone, Debug)]
pub struct AnomalyResult {
    pub anomaly_type: AnomalyType,
    /// Confidence in thousandths: 1000 is certainty.
    pub confidence_permille: u16,
    pub description: String,
    /// When the finding was made, not a time read from the log.
    pub timestamp: Timestamp,
    /// Positions, in the analysed sequence, of the entries behind the finding.
    pub related_entries: Vec<usize>,
    /// From 1 (minor) to 5 (critical).
    pub severity: u8,
}

/// The rule-based detector: a burst of `ERROR` entries above a threshold is an anomaly.
#[derive(Clone, Copy, Debug)]
pub struct AnomalyDetector {
    pub error_threshold: usize,
}

/// Fewer entries than this are too few to judge.
pub const MIN_ENTRIES: usize = 10;

/// The number of `ERROR` entries that a detector tolerates unless told otherwise.
pub const DEFAULT_ERROR_THRESHOLD: usize = 3;

/// The confidence of a frequency spike, in thousandths.
pub const SPIKE_CONFIDENCE_PERMILLE: u16 = 850;

/// The severity of a frequency spike.
pub const SPIKE_SEVERITY: u8 = 4;

/// Positions of the entries whose level is exactly `ERROR`, ascending.
pub open spec fn error_positions(es: Seq<EntryView>) -> Seq<int>
    decreases es.len(),
{
    if es.len() == 0 {
        Seq::empty()
    } else {
        let before = error_positions(es.drop_last());
        if es.last().level == "ERROR"@ {
            before.push(es.len() - 1)
        } else {
            before
        }
    }
}

/// How a frequency spike of `n` errors is described.
pub open spec fn spike_description(n: nat) -> Seq<char> {
    "Unusual spike in ERROR logs detected ("@ + decimal(n as int) + " occurrences)"@
}

/// Positions held in a vector, as integers.
pub open spec fn positions_view(v: Seq<usize>) -> Seq<int> {
    v.map_values(|i: usize| i as int)
}

/// `f` is the frequency-spike finding for errors at `pos`, made at `at`.
pub open spec fn is_spike(f: AnomalyResult, pos: Seq<int>, at: Timestamp) -> bool {
    &&& f.anomaly_type is FrequencyAnomaly
    &&& f.confidence_permille == SPIKE_CONFIDENCE_PERMILLE
    &&& f.severity == SPIKE_SEVERITY
    &&& f.timestamp == at
    &&& positions_view(f.related_entries@) == pos
    &&& f.description@ == spike_description(pos.len())
}

/// What the rule-based detector reports for entries `es`: nothing for fewer than
/// `MIN_ENTRIES` entries, else one spike exactly when the errors outnumber `threshold`.
pub open spec fn detected(
    findings: Seq<AnomalyResult>,
    es: Seq<EntryView>,
    threshold: nat,
    at: Timestamp,
) -> bool {
    if es.len() < MIN_ENTRIES || error_positions(es).len() <= threshold {
        findings.len() == 0
    } else {
        findings.len() == 1 && is_spike(findings[0], error_positions(es), at)
    }
}

impl AnomalyDetector {
    /// A detector that reports a spike above `error_threshold` errors.
    pub fn new(error_threshold: usize) -> (d: Self)
        ensures
            d.error_threshold == error_threshold,
    {
        AnomalyDetector { error_threshold }
    }

    /// Looks for anomalies among `entries`; `detected_at` stamps each finding.
    pub fn detect_anomalies(&self, entries: &[LogEntry], detected_at: Timestamp) -> (r: Vec<AnomalyResult>)
        ensures
            detected(r@, entries_view(entries@), self.error_threshold as nat, detected_at),
    {
        let ghost ev = entries_view(entries@);
        let mut findings: Vec<AnomalyResult> = Vec::new();
        if entries.len() < MIN_ENTRIES {
            return findings;
        }
        let mut related: Vec<usize> = Vec::new();
        let mut i: usize = 0;
        while i < entries.len()
            invariant
                i <= entries@.len(),
                ev == entries_view(entries@),
                positions_view(related@) == error_positions(ev.take(i as int)),
                related@.len() <= i,
            decreases entries@.len() - i,
        {
            assert(ev.take(i + 1).drop_last() =~= ev.take(i as int));
            assert(ev.take(i + 1).last() == entries@[i as int]@);
            if text_is(&entries[i].level, "ERROR") {
                related.push(i);
                assert(positions_view(related@) =~= error_positions(ev.take(i as int)).push(i as int));
            }
            i = i + 1;
        }
        assert(ev.take(i as int) =~= ev);
        let n = related.len();
        if n > self.error_threshold {
            let count = decimal_text(n as i128);
            let description = "Unusual spike in ERROR logs detected (".to_owned().concat(count.as_str()).concat(" occurrences)");
            findings.push(AnomalyResult {
                anomaly_type: AnomalyType::FrequencyAnomaly,
                confidence_permille: SPIKE_CONFIDENCE_PERMILLE,
                description,
                timestamp: detected_at,
                related_entries: related,
                severity: SPIKE_SEVERITY,
            });
        }
        findings
    }
}

/// The kind that a backend's type tag names; an unknown tag is kept as a custom kind.
pub open spec fn kind_of_tag(tag: String) -> AnomalyType {
    if tag@ == "frequency_anomaly"@ {
        AnomalyType::FrequencyAnomaly
    } else if tag@ == "content_anomaly"@ {
        AnomalyType::ContentAnomaly
    } else if tag@ == "time_pattern_anomaly"@ {
        AnomalyType::TimePatternAnomaly
    } else if tag@ == "window_anomaly"@ {
        AnomalyType::WindowAnomaly
    } else if tag@ == "repeating_error"@ {
        AnomalyType::RepeatingError
    } else {
        AnomalyType::Custom(tag)
    }
}

impl From<String> for AnomalyType {
    fn from(s: String) -> AnomalyType {
        if text_is(&s, "frequency_anomaly") {
            AnomalyType::FrequencyAnomaly
        } else if text_is(&s, "content_anomaly") {
            AnomalyType::ContentAnomaly
        } else if text_is(&s, "time_pattern_anomaly") {
            AnomalyType::TimePatternAnomaly
        } else if text_is(&s, "window_anomaly") {
            AnomalyType::WindowAnomaly
        } else if text_is(&s, "repeating_error") {
            AnomalyType::RepeatingError
        } else {
            AnomalyType::Custom(s)
        }
    }
}

impl vstd::std_specs::convert::FromSpecImpl<String> for AnomalyType {
    open spec fn obeys_from_spec() -> bool {
        true
    }

    open spec fn from_spec(s: String) -> AnomalyType {
        kind_of_tag(s)
    }
}

/// One finding as an outside scoring backend hands it over; a field is `None` where the
/// backend left it out or gave it in a form that does not read.
pub struct FindingPayload {
    pub anomaly_type: Option<String>,
    pub confidence_permille: Option<u16>,
    pub description: Option<String>,
    pub related_entries: Option<Vec<usize>>,
    pub severity: Option<u8>,
}

/// The fields that every payload must carry.
#[derive(Clone, Copy, Debug, PartialEq, Eq, Structural)]
pub enum PayloadField {
    AnomalyType,
    Confidence,
    Description,
    RelatedEntries,
    Severity,
}

/// A payload that lacks a field: its position in the batch and the first field missing.
#[derive(Clone, Copy, Debug, PartialEq, Eq, Structural)]
pub struct MalformedFinding {
    pub index: usize,
    pub missing: PayloadField,
}

/// The first field, in declaration order, that a payload lacks.
pub open spec fn missing_field(p: FindingPayload) -> Option<PayloadField> {
    if p.anomaly_type is None {
        Some(PayloadField::AnomalyType)
    } else if p.confidence_permille is None {
        Some(PayloadField::Confidence)
    } else if p.description is None {
        Some(PayloadField::Description)
    } else if p.related_entries is None {
        Some(PayloadField::RelatedEntries)
    } else if p.severity is None {
        Some(PayloadField::Severity)
    } else {
        None
    }
}

/// `f` is the finding that a complete payload `p` describes, stamped `at`.
pub open spec fn is_finding_of(f: AnomalyResult, p: FindingPayload, at: Timestamp) -> bool {
    &&& f.anomaly_type == kind_of_tag(p.anomaly_type->0)
    &&& f.confidence_permille == p.confidence_permille->0
    &&& f.description@ == p.description->0@
    &&& f.timestamp == at
    &&& f.related_entries@ == p.related_entries->0@
    &&& f.severity == p.severity->0
}

/// Every payload of the batch carries every field.
pub open spec fn all_complete(payloads: Seq<FindingPayload>) -> bool {
    forall|i: int| 0 <= i < payloads.len() ==> #[trigger] missing_field(payloads[i]) is None
}

/// `v` holds, in order, the finding of each payload, stamped `at`.
pub open spec fn findings_match(v: Seq<AnomalyResult>, payloads: Seq<FindingPayload>, at: Timestamp) -> bool {
    &&& v.len() == payloads.len()
    &&& forall|i: int| 0 <= i < payloads.len() ==> is_finding_of(v[i], #[trigger] payloads[i], at)
}

/// `findings` is what a batch of payloads yields: every payload complete, each turned into
/// its finding in order; or the first payload that lacks a field, with that field.
pub open spec fn ingested(
    r: Result<Vec<AnomalyResult>, MalformedFinding>,
    payloads: Seq<FindingPayload>,
    at: Timestamp,
) -> bool {
    match r {
        Ok(v) => all_complete(payloads) && findings_match(v@, payloads, at),
        Err(e) => {
            &&& e.index < payloads.len()
            &&& missing_field(payloads[e.index as int]) == Some(e.missing)
            &&& forall|j: int| 0 <= j < e.index ==> #[trigger] missing_field(payloads[j]) is None
        },
    }
}

/// Copies positions one by one.
fn copy_positions(v: &Vec<usize>) -> (r: Vec<usize>)
    ensures
        r@ == v@,
{
    let mut out: Vec<usize> = Vec::new();
    let mut i: usize = 0;
    while i < v.len()
        invariant
            i <= v@.len(),
            out@ == v@.take(i as int),
        decreases v@.len() - i,
    {
        out.push(v[i]);
        assert(out@ =~= v@.take(i + 1));
        i = i + 1;
    }
    assert(v@.take(i as int) =~= v@);
    out
}

/// Takes in the findings of an outside scoring backend: all of them, or none when any payload
/// lacks a field.
pub fn findings_from_payloads(payloads: &[FindingPayload], detected_at: Timestamp) -> (r: Result<
    Vec<AnomalyResult>,
    MalformedFinding,
>)
    ensures
        ingested(r, payloads@, detected_at),
{
    let mut out: Vec<AnomalyResult> = Vec::new();
    let mut i: usize = 0;
    while i < payloads.len()
        invariant
            i <= payloads@.len(),
            out@.len() == i,
            forall|j: int| 0 <= j < i ==> #[trigger] missing_field(payloads@[j]) is None,
            forall|j: int| 0 <= j < i ==> is_finding_of(out@[j], #[trigger] payloads@[j], detected_at),
        decreases payloads@.len() - i,
    {
        let p = &payloads[i];
        let tag = match &p.anomaly_type {
            Some(t) => t.clone(),
            None => return Err(MalformedFinding { index: i, missing: PayloadField::AnomalyType }),
        };
        let confidence = match p.confidence_permille {
            Some(c) => c,
            None => return Err(MalformedFinding { index: i, missing: PayloadField::Confidence }),
        };
        let description = match &p.description {
            Some(d) => d.clone(),
            None => return Err(MalformedFinding { index: i, missing: PayloadField::Description }),
        };
        let related = match &p.related_entries {
            Some(r) => copy_positions(r),
            None => return Err(MalformedFinding { index: i, missing: PayloadField::RelatedEntries }),
        };
        let severity = match p.severity {
            Some(s) => s,
            None => return Err(MalformedFinding { index: i, missing: PayloadField::Severity }),
        };
        let finding = AnomalyResult {
            anomaly_type: AnomalyType::from(tag),
            confidence_permille: confidence,
            description,
            timestamp: detected_at,
            related_entries: related,
            severity,
        };
        assert(is_finding_of(finding, payloads@[i as int], detected_at));
        out.push(finding);
        i = i + 1;
    }
    Ok(out)
}

} // verus!

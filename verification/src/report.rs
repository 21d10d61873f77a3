//! The summary records of an analysis report: counts, completion and limitations, the
//! filter that was applied, and the verdict of a capture validation.

use vstd::prelude::*;
use crate::analysis::{result_partial, AnalysisResult};
use crate::capture::{CaptureCompletion, CaptureReadOutcome};
use crate::domain::{confidence_name, severity_name, Confidence, DetectorId, MitreAttackId, ProtocolKind, Severity};
use crate::flow::ProtocolObservation;
use crate::input::DetectionInputLimitation;
use crate::text::{decimal, decimal_string};

verus! {

broadcast use vstd::string::group_string_axioms;

/// Completion of an analysis as reported.
#[derive(Debug, Clone, PartialEq, Eq)]
pub struct ReportCompletionRecord {
    /// `complete` or `partial`.
    pub status: String,
    /// The input limitations, by token, in the order they were recorded.
    pub limitations: Vec<String>,
}

/// Counts of an analysis as reported.
#[derive(Debug, Clone, PartialEq, Eq)]
pub struct AnalysisSummaryRecord {
    /// Capture records processed.
    pub total_packets: String,
    /// Flows reconstructed.
    pub total_flows: String,
    /// DNS observations.
    pub total_dns_observations: String,
    /// HTTP observations.
    pub total_http_observations: String,
    /// TLS observations.
    pub total_tls_observations: String,
    /// Findings reported.
    pub total_findings: String,
    /// Evidence records reported.
    pub total_evidence_records: String,
}

/// The finding filter of a report, by the text of each criterion.
#[derive(Debug, Clone, PartialEq, Eq)]
pub struct FindingFilterRecord {
    /// Minimum severity.
    pub min_severity: Option<String>,
    /// Minimum confidence.
    pub min_confidence: Option<String>,
    /// Detector identifier.
    pub detector_id: Option<String>,
    /// MITRE ATT&CK technique identifier.
    pub mitre_attack_id: Option<String>,
}

/// The token of an input limitation in a report.
pub open spec fn limitation_token(l: DetectionInputLimitation) -> Seq<char> {
    match l {
        DetectionInputLimitation::CaptureTruncated => "capture_truncated"@,
        DetectionInputLimitation::PacketCountBudgetReached => "packet_count_budget_reached"@,
        DetectionInputLimitation::FlowBudgetReached => "flow_budget_reached"@,
        DetectionInputLimitation::ObservationBudgetReached => "observation_budget_reached"@,
    }
}

fn limitation_token_string(l: DetectionInputLimitation) -> (s: String)
    ensures
        s@ == limitation_token(l),
{
    match l {
        DetectionInputLimitation::CaptureTruncated => String::from_str("capture_truncated"),
        DetectionInputLimitation::PacketCountBudgetReached => String::from_str("packet_count_budget_reached"),
        DetectionInputLimitation::FlowBudgetReached => String::from_str("flow_budget_reached"),
        DetectionInputLimitation::ObservationBudgetReached => String::from_str("observation_budget_reached"),
    }
}

/// The completion record of an analysis: `partial` exactly when the analysis was partial in
/// any way, and its input limitations by token.
pub fn report_completion(result: &AnalysisResult) -> (r: ReportCompletionRecord)
    ensures
        r.status@ == (if result_partial(*result) {
            "partial"@
        } else {
            "complete"@
        }),
        r.limitations@.len() == result.detection_input_limitations@.len(),
        forall|i: int|
            0 <= i < r.limitations@.len() ==> (#[trigger] r.limitations@[i])@ == limitation_token(
                result.detection_input_limitations@[i],
            ),
{
    let status = if result.is_partial() {
        String::from_str("partial")
    } else {
        String::from_str("complete")
    };
    let lims = &result.detection_input_limitations;
    let n = lims.len();
    let mut tokens: Vec<String> = Vec::new();
    let mut i: usize = 0;
    while i < n
        invariant
            n == lims@.len(),
            i <= n,
            tokens@.len() == i,
            forall|k: int| 0 <= k < i ==> (#[trigger] tokens@[k])@ == limitation_token(lims@[k]),
        decreases n - i,
    {
        tokens.push(limitation_token_string(lims[i]));
        i = i + 1;
    }
    ReportCompletionRecord { status, limitations: tokens }
}

/// The number of observations of protocol `p`.
pub open spec fn protocol_count(obs: Seq<ProtocolObservation>, p: ProtocolKind) -> nat
    decreases obs.len(),
{
    if obs.len() == 0 {
        0
    } else {
        protocol_count(obs.drop_last(), p) + if obs.last().reference.protocol == p {
            1nat
        } else {
            0nat
        }
    }
}

proof fn lemma_protocol_count_bound(obs: Seq<ProtocolObservation>, p: ProtocolKind)
    ensures
        protocol_count(obs, p) <= obs.len(),
    decreases obs.len(),
{
    if obs.len() > 0 {
        lemma_protocol_count_bound(obs.drop_last(), p);
    }
}

fn count_protocol(obs: &Vec<ProtocolObservation>, p: ProtocolKind) -> (n: usize)
    ensures
        n == protocol_count(obs@, p),
{
    let len = obs.len();
    let mut n: usize = 0;
    let mut i: usize = 0;
    while i < len
        invariant
            len == obs@.len(),
            i <= len,
            n == protocol_count(obs@.take(i as int), p),
        decreases len - i,
    {
        proof {
            let t = obs@.take(i + 1);
            assert(t.drop_last() =~= obs@.take(i as int));
            lemma_protocol_count_bound(obs@.take(i as int), p);
        }
        if obs[i].protocol_kind() == p {
            n = n + 1;
        }
        i = i + 1;
    }
    assert(obs@.take(len as int) =~= obs@);
    n
}

/// The counts of an analysis report: records processed, flows, observations of each
/// protocol, and the findings and evidence records the report holds.
pub fn analysis_summary(result: &AnalysisResult, findings: usize, evidence: usize) -> (r: AnalysisSummaryRecord)
    ensures
        r.total_packets@ == decimal(result.total_records_processed as nat),
        r.total_flows@ == decimal(result.flows@.len()),
        r.total_dns_observations@ == decimal(protocol_count(result.observations@, ProtocolKind::Dns)),
        r.total_http_observations@ == decimal(protocol_count(result.observations@, ProtocolKind::Http)),
        r.total_tls_observations@ == decimal(protocol_count(result.observations@, ProtocolKind::Tls)),
        r.total_findings@ == decimal(findings as nat),
        r.total_evidence_records@ == decimal(evidence as nat),
{
    AnalysisSummaryRecord {
        total_packets: decimal_string(result.total_records_processed as u128),
        total_flows: decimal_string(result.flows.len() as u128),
        total_dns_observations: decimal_string(count_protocol(&result.observations, ProtocolKind::Dns) as u128),
        total_http_observations: decimal_string(count_protocol(&result.observations, ProtocolKind::Http) as u128),
        total_tls_observations: decimal_string(count_protocol(&result.observations, ProtocolKind::Tls) as u128),
        total_findings: decimal_string(findings as u128),
        total_evidence_records: decimal_string(evidence as u128),
    }
}

/// The text of an optional string.
pub open spec fn opt_string_text(o: Option<String>) -> Option<Seq<char>> {
    match o {
        Some(s) => Some(s@),
        None => None,
    }
}

/// The filter record of a report: none when no criterion is set, else each criterion by its
/// canonical text.
pub fn build_finding_filter_record(
    min_severity: Option<Severity>,
    min_confidence: Option<Confidence>,
    detector_id: Option<&DetectorId>,
    mitre_id: Option<&MitreAttackId>,
) -> (r: Option<FindingFilterRecord>)
    ensures
        (min_severity is None && min_confidence is None && detector_id is None && mitre_id is None) <==> r is None,
        r matches Some(f) ==> {
            &&& opt_string_text(f.min_severity) == match min_severity {
                Some(s) => Some(severity_name(s)),
                None => None,
            }
            &&& opt_string_text(f.min_confidence) == match min_confidence {
                Some(c) => Some(confidence_name(c)),
                None => None,
            }
            &&& opt_string_text(f.detector_id) == match detector_id {
                Some(d) => Some(d@),
                None => None,
            }
            &&& opt_string_text(f.mitre_attack_id) == match mitre_id {
                Some(m) => Some(m@),
                None => None,
            }
        },
{
    if min_severity.is_none() && min_confidence.is_none() && detector_id.is_none() && mitre_id.is_none() {
        return None;
    }
    Some(
        FindingFilterRecord {
            min_severity: match min_severity {
                Some(s) => Some(String::from_str(s.as_str())),
                None => None,
            },
            min_confidence: match min_confidence {
                Some(c) => Some(String::from_str(c.as_str())),
                None => None,
            },
            detector_id: match detector_id {
                Some(d) => Some(String::from_str(d.as_str())),
                None => None,
            },
            mitre_attack_id: match mitre_id {
                Some(m) => Some(String::from_str(m.as_str())),
                None => None,
            },
        },
    )
}

/// The verdict of a capture validation: a capture that gave no useful record is a fatal
/// error naming the reader's error; otherwise the exit code is 0 for a complete read without
/// stream error and 3 for anything less.
pub fn validation_verdict(outcome: &CaptureReadOutcome, had_stream_error: bool) -> (r: Result<u8, String>)
    ensures
        match outcome.completion {
            CaptureCompletion::FailedBeforeUsefulRecords { terminal_error } => r matches Err(m) && m@
                == "capture validation failed before useful records: "@ + terminal_error.message@,
            CaptureCompletion::Complete => r == Ok::<u8, String>(
                if had_stream_error {
                    3u8
                } else {
                    0u8
                },
            ),
            CaptureCompletion::Partial { .. } => r == Ok::<u8, String>(3u8),
        },
{
    match &outcome.completion {
        CaptureCompletion::FailedBeforeUsefulRecords { terminal_error } => {
            let mut m = String::from_str("capture validation failed before useful records: ");
            m.append(terminal_error.message.as_str());
            Err(m)
        },
        _ => {
            if outcome.is_complete() && !had_stream_error {
                Ok(0)
            } else {
                Ok(3)
            }
        },
    }
}

} // verus!

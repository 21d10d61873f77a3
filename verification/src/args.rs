//! Command-line configuration as plain values, and what each command asks of the analysis.

use vstd::prelude::*;
use crate::analysis::AnalysisOptions;
use crate::domain::{Confidence, DetectorId, MitreAttackId, Severity};
use crate::input::DetectionInputLimitation;

verus! {

/// Requested report format.
#[derive(Debug, Clone, Copy, PartialEq, Eq, Structural)]
pub enum ReportFormat {
    /// Aligned text table.
    Table,
    /// One JSON document.
    Json,
    /// Newline-delimited JSON.
    Ndjson,
    /// Comma-separated values.
    Csv,
}

/// The format named by a `--format` value; anything unrecognised is a table.
pub open spec fn format_named(name: Seq<char>) -> ReportFormat {
    if name == "json"@ {
        ReportFormat::Json
    } else if name == "ndjson"@ {
        ReportFormat::Ndjson
    } else if name == "csv"@ {
        ReportFormat::Csv
    } else {
        ReportFormat::Table
    }
}

impl ReportFormat {
    /// The format named by a `--format` value.
    pub fn from_name(name: &str) -> (f: ReportFormat)
        ensures
            f == format_named(name@),
    {
        if crate::text::str_equal(name, "json") {
            ReportFormat::Json
        } else if crate::text::str_equal(name, "ndjson") {
            ReportFormat::Ndjson
        } else if crate::text::str_equal(name, "csv") {
            ReportFormat::Csv
        } else {
            ReportFormat::Table
        }
    }
}

/// Parsed top-level command-line configuration.
#[derive(Debug, PartialEq, Eq)]
pub struct CliArgs {
    /// Whether to suppress nonfatal diagnostics.
    pub quiet: bool,
    /// The requested output format.
    pub format: ReportFormat,
    /// Optional output file path.
    pub output: Option<String>,
    /// The requested subcommand.
    pub command: Subcommand,
}

/// Requested subcommand and its parameters.
#[derive(Debug, PartialEq, Eq)]
pub enum Subcommand {
    /// Validate capture container integrity and metadata.
    Validate(ValidateArgs),
    /// Reconstruct flows.
    Flows(FlowsArgs),
    /// Inspect DNS observations.
    Dns(DnsArgs),
    /// Inspect HTTP/1.x headers.
    Http(HttpArgs),
    /// Inspect TLS handshake metadata.
    Tls(TlsArgs),
    /// Inspect findings with filtering.
    Findings(FindingsArgs),
    /// Full analysis across all layers.
    Analyze(AnalyzeArgs),
}

/// Arguments for `validate`.
#[derive(Debug, Clone, PartialEq, Eq)]
pub struct ValidateArgs {
    /// Path of the capture file.
    pub capture_path: String,
    /// Maximum capture records to process.
    pub max_records: Option<u64>,
}

/// Arguments for `dns`.
#[derive(Debug, Clone, PartialEq, Eq)]
pub struct DnsArgs {
    /// Path of the capture file.
    pub capture_path: String,
    /// Maximum capture records to process.
    pub max_records: Option<u64>,
}

/// Arguments for `http`.
#[derive(Debug, Clone, PartialEq, Eq)]
pub struct HttpArgs {
    /// Path of the capture file.
    pub capture_path: String,
    /// Maximum capture records to process.
    pub max_records: Option<u64>,
}

/// Arguments for `tls`.
#[derive(Debug, Clone, PartialEq, Eq)]
pub struct TlsArgs {
    /// Path of the capture file.
    pub capture_path: String,
    /// Maximum capture records to process.
    pub max_records: Option<u64>,
}

/// Arguments for `flows`.
#[derive(Debug, Clone, PartialEq, Eq)]
pub struct FlowsArgs {
    /// Path of the capture file.
    pub capture_path: String,
    /// Maximum capture records to process.
    pub max_records: Option<u64>,
    /// Maximum simultaneous active flows to track.
    pub max_flows: Option<usize>,
    /// Maximum total flow instances.
    pub max_flow_instances: Option<usize>,
    /// TCP idle timeout in seconds.
    pub tcp_idle_timeout: Option<u32>,
    /// UDP idle timeout in seconds.
    pub udp_idle_timeout: Option<u32>,
}

/// Arguments for `findings`.
#[derive(Debug, PartialEq, Eq)]
pub struct FindingsArgs {
    /// Path of the capture file.
    pub capture_path: String,
    /// Maximum capture records to process.
    pub max_records: Option<u64>,
    /// Maximum simultaneous active flows to track.
    pub max_flows: Option<usize>,
    /// Maximum total flow instances.
    pub max_flow_instances: Option<usize>,
    /// Maximum protocol observations to retain.
    pub max_observations: Option<usize>,
    /// TCP idle timeout in seconds.
    pub tcp_idle_timeout: Option<u32>,
    /// UDP idle timeout in seconds.
    pub udp_idle_timeout: Option<u32>,
    /// Minimum severity filter.
    pub min_severity: Option<Severity>,
    /// Minimum confidence filter.
    pub min_confidence: Option<Confidence>,
    /// Detector identifier filter.
    pub detector_id: Option<DetectorId>,
    /// MITRE ATT&CK technique filter.
    pub mitre_id: Option<MitreAttackId>,
}

/// Arguments for `analyze`.
#[derive(Debug, PartialEq, Eq)]
pub struct AnalyzeArgs {
    /// Path of the capture file.
    pub capture_path: String,
    /// Maximum capture records to process.
    pub max_records: Option<u64>,
    /// Maximum simultaneous active flows to track.
    pub max_flows: Option<usize>,
    /// Maximum total flow instances.
    pub max_flow_instances: Option<usize>,
    /// Maximum protocol observations to retain.
    pub max_observations: Option<usize>,
    /// TCP idle timeout in seconds.
    pub tcp_idle_timeout: Option<u32>,
    /// UDP idle timeout in seconds.
    pub udp_idle_timeout: Option<u32>,
    /// Minimum severity filter.
    pub min_severity: Option<Severity>,
    /// Minimum confidence filter.
    pub min_confidence: Option<Confidence>,
    /// Detector identifier filter.
    pub detector_id: Option<DetectorId>,
    /// MITRE ATT&CK technique filter.
    pub mitre_id: Option<MitreAttackId>,
}

/// The analysis `flows` runs: flow reconstruction only.
pub fn flows_options(args: FlowsArgs) -> (o: AnalysisOptions)
    ensures
        o.capture_path@ == args.capture_path@,
        o.max_records == args.max_records,
        o.max_flows == args.max_flows,
        o.max_flow_instances == args.max_flow_instances,
        o.max_observations is None,
        o.tcp_idle_timeout == args.tcp_idle_timeout,
        o.udp_idle_timeout == args.udp_idle_timeout,
        !o.parse_dns && !o.parse_http && !o.parse_tls && !o.run_detectors,
{
    AnalysisOptions {
        capture_path: args.capture_path,
        max_records: args.max_records,
        max_flows: args.max_flows,
        max_flow_instances: args.max_flow_instances,
        max_observations: None,
        tcp_idle_timeout: args.tcp_idle_timeout,
        udp_idle_timeout: args.udp_idle_timeout,
        parse_dns: false,
        parse_http: false,
        parse_tls: false,
        run_detectors: false,
    }
}

/// The analysis a single-protocol command runs: that protocol's parser, default limits.
pub fn protocol_options(capture_path: String, max_records: Option<u64>, dns: bool, http: bool, tls: bool) -> (o: AnalysisOptions)
    ensures
        o.capture_path@ == capture_path@,
        o.max_records == max_records,
        o.max_flows is None && o.max_flow_instances is None && o.max_observations is None,
        o.tcp_idle_timeout is None && o.udp_idle_timeout is None,
        o.parse_dns == dns && o.parse_http == http && o.parse_tls == tls,
        !o.run_detectors,
{
    AnalysisOptions {
        capture_path,
        max_records,
        max_flows: None,
        max_flow_instances: None,
        max_observations: None,
        tcp_idle_timeout: None,
        udp_idle_timeout: None,
        parse_dns: dns,
        parse_http: http,
        parse_tls: tls,
        run_detectors: false,
    }
}

/// The analysis `findings` and `analyze` run: every parser and the detectors.
pub fn detection_options(
    capture_path: String,
    max_records: Option<u64>,
    max_flows: Option<usize>,
    max_flow_instances: Option<usize>,
    max_observations: Option<usize>,
    tcp_idle_timeout: Option<u32>,
    udp_idle_timeout: Option<u32>,
) -> (o: AnalysisOptions)
    ensures
        o.capture_path@ == capture_path@,
        o.max_records == max_records,
        o.max_flows == max_flows,
        o.max_flow_instances == max_flow_instances,
        o.max_observations == max_observations,
        o.tcp_idle_timeout == tcp_idle_timeout,
        o.udp_idle_timeout == udp_idle_timeout,
        o.parse_dns && o.parse_http && o.parse_tls && o.run_detectors,
{
    AnalysisOptions {
        capture_path,
        max_records,
        max_flows,
        max_flow_instances,
        max_observations,
        tcp_idle_timeout,
        udp_idle_timeout,
        parse_dns: true,
        parse_http: true,
        parse_tls: true,
        run_detectors: true,
    }
}

/// The message for a CSV request to `analyze`.
pub open spec fn csv_analysis_rejection_text() -> Seq<char> {
    "hierarchical multi-section analysis report cannot be represented as a single flat CSV table; use table, json, or ndjson"@
}

/// Why `analyze` cannot produce a format, if it cannot: its report has several sections, which
/// a single CSV table cannot hold.
pub fn analyze_format_rejection(format: ReportFormat) -> (r: Option<&'static str>)
    ensures
        r is Some <==> format == ReportFormat::Csv,
        r matches Some(m) ==> m@ == csv_analysis_rejection_text(),
{
    match format {
        ReportFormat::Csv => Some(
            "hierarchical multi-section analysis report cannot be represented as a single flat CSV table; use table, json, or ndjson",
        ),
        _ => None,
    }
}

/// The report label of an input limitation.
pub fn limitation_label(l: DetectionInputLimitation) -> (s: &'static str)
    ensures
        s@ == (match l {
            DetectionInputLimitation::CaptureTruncated => "capture_truncated"@,
            DetectionInputLimitation::PacketCountBudgetReached => "packet_count_budget_reached"@,
            DetectionInputLimitation::FlowBudgetReached => "flow_budget_reached"@,
            DetectionInputLimitation::ObservationBudgetReached => "observation_budget_reached"@,
        }),
{
    match l {
        DetectionInputLimitation::CaptureTruncated => "capture_truncated",
        DetectionInputLimitation::PacketCountBudgetReached => "packet_count_budget_reached",
        DetectionInputLimitation::FlowBudgetReached => "flow_budget_reached",
        DetectionInputLimitation::ObservationBudgetReached => "observation_budget_reached",
    }
}

/// The report label of a run's completion.
pub fn completion_label(partial: bool) -> (s: &'static str)
    ensures
        s@ == (if partial {
            "partial"@
        } else {
            "complete"@
        }),
{
    if partial {
        "partial"
    } else {
        "complete"
    }
}

} // verus!

//! The records of a capture validation report: container metadata, counts, completion and
//! one record per reader diagnostic, every value in the text form the report shows.

use vstd::prelude::*;
use crate::capture::{
    count_interfaces, format_resolution, interface_totals, kind_token, resolution_text, saturated, stage_token,
    ByteOrder, CaptureCompletion, CaptureDiagnostic, CaptureFormat, CaptureMetadata, CaptureReadOutcome,
};
use crate::text::{decimal, decimal_string};

verus! {

broadcast use vstd::string::group_string_axioms;

/// Container metadata as reported.
#[derive(Debug, Clone, PartialEq, Eq)]
pub struct ValidationMetadataRecord {
    /// `pcap`, `pcapng` or `unknown`.
    pub format: String,
    /// `little_endian`, `big_endian` or `unknown`.
    pub byte_order: String,
    /// Major format version, where known.
    pub version_major: Option<u16>,
    /// Minor format version, where known.
    pub version_minor: Option<u16>,
    /// Link-layer type of a classic capture.
    pub linktype: Option<u32>,
    /// Snapshot length of a classic capture.
    pub snaplen: Option<u32>,
    /// Timestamp resolution of a classic capture.
    pub timestamp_resolution: Option<String>,
    /// Number of sections of a block-structured capture.
    pub section_count: Option<String>,
    /// Number of interface descriptions of a block-structured capture.
    pub interface_count: Option<String>,
    /// How many of them are usable.
    pub usable_interfaces: Option<String>,
    /// How many of them are not.
    pub unusable_interfaces: Option<String>,
}

/// Record and diagnostic counts as reported.
#[derive(Debug, Clone, PartialEq, Eq)]
pub struct ValidationSummaryRecord {
    /// Records emitted.
    pub records_emitted: String,
    /// Diagnostics raised.
    pub total_diagnostics: String,
    /// Whether any diagnostic was raised.
    pub had_diagnostics: bool,
}

/// Completion as reported.
#[derive(Debug, Clone, PartialEq, Eq)]
pub struct ValidationCompletionRecord {
    /// `complete`, `partial` or `failed`.
    pub status: String,
    /// Whether the whole capture was read.
    pub is_complete: bool,
    /// The text of the error that stopped the reader, if one did.
    pub terminal_error: Option<String>,
}

/// A reader diagnostic as reported.
#[derive(Debug, Clone, PartialEq, Eq)]
pub struct ValidationDiagnosticRecord {
    /// Position among the diagnostics.
    pub index: String,
    /// Stage token.
    pub stage: String,
    /// Kind token.
    pub kind: String,
    /// The diagnostic's description.
    pub message: String,
    /// Byte offset in the capture.
    pub byte_offset: Option<String>,
}

/// The token of a byte order.
pub open spec fn byte_order_token(b: ByteOrder) -> Seq<char> {
    match b {
        ByteOrder::Little => "little_endian"@,
        ByteOrder::Big => "big_endian"@,
    }
}

/// The text of an optional string.
pub open spec fn opt_text(o: Option<String>) -> Option<Seq<char>> {
    match o {
        Some(s) => Some(s@),
        None => None,
    }
}

/// The metadata record reports `m`: format and byte order always; for a classic capture its
/// header, for a block-structured one its sections, the first section's version and the
/// interface counts (saturated); nothing else.
pub open spec fn metadata_reports(r: ValidationMetadataRecord, m: CaptureMetadata) -> bool {
    match m.format {
        CaptureFormat::LegacyPcap => {
            &&& r.format@ == "pcap"@
            &&& r.section_count is None && r.interface_count is None && r.usable_interfaces is None
                && r.unusable_interfaces is None
            &&& match m.legacy {
                Some(l) => {
                    &&& r.byte_order@ == byte_order_token(l.byte_order)
                    &&& r.version_major == Some(l.version_major) && r.version_minor == Some(l.version_minor)
                    &&& r.linktype == Some(l.linktype) && r.snaplen == Some(l.snaplen)
                    &&& opt_text(r.timestamp_resolution) == Some(resolution_text(l.timestamp_resolution))
                },
                None => {
                    &&& r.byte_order@ == "unknown"@
                    &&& r.version_major is None && r.version_minor is None && r.linktype is None
                        && r.snaplen is None && r.timestamp_resolution is None
                },
            }
        },
        CaptureFormat::PcapNg => {
            let (t, u, n) = interface_totals(m.sections@);
            &&& r.format@ == "pcapng"@
            &&& opt_text(r.section_count) == Some(decimal(m.sections@.len()))
            &&& opt_text(r.interface_count) == Some(decimal(saturated(t)))
            &&& opt_text(r.usable_interfaces) == Some(decimal(saturated(u)))
            &&& opt_text(r.unusable_interfaces) == Some(decimal(saturated(n)))
            &&& r.linktype is None && r.snaplen is None && r.timestamp_resolution is None
            &&& if m.sections@.len() > 0 {
                &&& r.byte_order@ == byte_order_token(m.sections@[0].byte_order)
                &&& r.version_major == Some(m.sections@[0].version_major)
                &&& r.version_minor == Some(m.sections@[0].version_minor)
            } else {
                &&& r.byte_order@ == "unknown"@
                &&& r.version_major is None && r.version_minor is None
            }
        },
        CaptureFormat::Unknown => {
            &&& r.format@ == "unknown"@ && r.byte_order@ == "unknown"@
            &&& r.version_major is None && r.version_minor is None && r.linktype is None && r.snaplen is None
            &&& r.timestamp_resolution is None && r.section_count is None && r.interface_count is None
            &&& r.usable_interfaces is None && r.unusable_interfaces is None
        },
    }
}

/// The completion record reports `c`.
pub open spec fn completion_reports(r: ValidationCompletionRecord, c: CaptureCompletion) -> bool {
    match c {
        CaptureCompletion::Complete => r.status@ == "complete"@ && r.is_complete && r.terminal_error is None,
        CaptureCompletion::Partial { terminal_error } => r.status@ == "partial"@ && !r.is_complete && opt_text(
            r.terminal_error,
        ) == match terminal_error {
            Some(e) => Some(e.message@),
            None => None,
        },
        CaptureCompletion::FailedBeforeUsefulRecords { terminal_error } => r.status@ == "failed"@
            && !r.is_complete && opt_text(r.terminal_error) == Some(terminal_error.message@),
    }
}

/// The diagnostic record reports the diagnostic at position `i`.
pub open spec fn diagnostic_reports(r: ValidationDiagnosticRecord, d: CaptureDiagnostic, i: nat) -> bool {
    &&& r.index@ == decimal(i)
    &&& r.stage@ == stage_token(d.stage)
    &&& r.kind@ == kind_token(d.kind)
    &&& r.message@ == d.message@
    &&& opt_text(r.byte_offset) == Some(decimal(d.location.offset as nat))
}

fn byte_order_string(b: ByteOrder) -> (s: String)
    ensures
        s@ == byte_order_token(b),
{
    match b {
        ByteOrder::Little => String::from_str("little_endian"),
        ByteOrder::Big => String::from_str("big_endian"),
    }
}

fn metadata_record(m: &CaptureMetadata) -> (r: ValidationMetadataRecord)
    ensures
        metadata_reports(r, *m),
{
    let mut r = ValidationMetadataRecord {
        format: String::new(),
        byte_order: String::new(),
        version_major: None,
        version_minor: None,
        linktype: None,
        snaplen: None,
        timestamp_resolution: None,
        section_count: None,
        interface_count: None,
        usable_interfaces: None,
        unusable_interfaces: None,
    };
    match m.format {
        CaptureFormat::LegacyPcap => {
            r.format = String::from_str("pcap");
            match &m.legacy {
                Some(l) => {
                    r.byte_order = byte_order_string(l.byte_order);
                    r.version_major = Some(l.version_major);
                    r.version_minor = Some(l.version_minor);
                    r.linktype = Some(l.linktype);
                    r.snaplen = Some(l.snaplen);
                    r.timestamp_resolution = Some(format_resolution(l.timestamp_resolution));
                },
                None => {
                    r.byte_order = String::from_str("unknown");
                },
            }
        },
        CaptureFormat::PcapNg => {
            r.format = String::from_str("pcapng");
            r.section_count = Some(decimal_string(m.sections.len() as u128));
            let (total, usable, unusable) = count_interfaces(&m.sections);
            r.interface_count = Some(decimal_string(total as u128));
            r.usable_interfaces = Some(decimal_string(usable as u128));
            r.unusable_interfaces = Some(decimal_string(unusable as u128));
            if m.sections.len() > 0 {
                r.byte_order = byte_order_string(m.sections[0].byte_order);
                r.version_major = Some(m.sections[0].version_major);
                r.version_minor = Some(m.sections[0].version_minor);
            } else {
                r.byte_order = String::from_str("unknown");
            }
        },
        CaptureFormat::Unknown => {
            r.format = String::from_str("unknown");
            r.byte_order = String::from_str("unknown");
        },
    }
    r
}

fn completion_record(c: &CaptureCompletion) -> (r: ValidationCompletionRecord)
    ensures
        completion_reports(r, *c),
{
    match c {
        CaptureCompletion::Complete => ValidationCompletionRecord {
            status: String::from_str("complete"),
            is_complete: true,
            terminal_error: None,
        },
        CaptureCompletion::Partial { terminal_error } => ValidationCompletionRecord {
            status: String::from_str("partial"),
            is_complete: false,
            terminal_error: match terminal_error {
                Some(e) => Some(e.message.clone()),
                None => None,
            },
        },
        CaptureCompletion::FailedBeforeUsefulRecords { terminal_error } => ValidationCompletionRecord {
            status: String::from_str("failed"),
            is_complete: false,
            terminal_error: Some(terminal_error.message.clone()),
        },
    }
}

fn diagnostic_record(d: &CaptureDiagnostic, i: usize) -> (r: ValidationDiagnosticRecord)
    ensures
        diagnostic_reports(r, *d, i as nat),
{
    ValidationDiagnosticRecord {
        index: decimal_string(i as u128),
        stage: String::from_str(d.stage.token()),
        kind: String::from_str(d.kind.token()),
        message: String::from_str(d.message),
        byte_offset: Some(decimal_string(d.location.offset as u128)),
    }
}

/// The records of the validation report of a capture: its metadata, the record and
/// diagnostic counts, its completion, and one record per diagnostic in order.
pub fn convert_validation_outcome(
    outcome: &CaptureReadOutcome,
    records_emitted: u64,
) -> (r: (ValidationMetadataRecord, ValidationSummaryRecord, ValidationCompletionRecord, Vec<ValidationDiagnosticRecord>))
    ensures
        metadata_reports(r.0, outcome.metadata),
        r.1.records_emitted@ == decimal(records_emitted as nat),
        r.1.total_diagnostics@ == decimal(outcome.diagnostics@.len()),
        r.1.had_diagnostics == (outcome.diagnostics@.len() > 0),
        completion_reports(r.2, outcome.completion),
        r.3@.len() == outcome.diagnostics@.len(),
        forall|i: int| 0 <= i < r.3@.len() ==> diagnostic_reports(#[trigger] r.3@[i], outcome.diagnostics@[i], i as nat),
{
    let meta = metadata_record(&outcome.metadata);
    let summary = ValidationSummaryRecord {
        records_emitted: decimal_string(records_emitted as u128),
        total_diagnostics: decimal_string(outcome.diagnostics.len() as u128),
        had_diagnostics: outcome.diagnostics.len() > 0,
    };
    let completion = completion_record(&outcome.completion);
    let n = outcome.diagnostics.len();
    let mut records: Vec<ValidationDiagnosticRecord> = Vec::new();
    let mut i: usize = 0;
    while i < n
        invariant
            n == outcome.diagnostics@.len(),
            i <= n,
            records@.len() == i,
            forall|k: int| 0 <= k < i ==> diagnostic_reports(#[trigger] records@[k], outcome.diagnostics@[k], k as nat),
        decreases n - i,
    {
        records.push(diagnostic_record(&outcome.diagnostics[i], i));
        i = i + 1;
    }
    (meta, summary, completion, records)
}

} // verus!

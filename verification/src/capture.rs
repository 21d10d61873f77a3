//! Capture reader diagnostics as the library reports them: their kind, the reader stage that
//! raised them, where in the capture they arose, and the text and tokens they are shown with.

use vstd::prelude::*;
use crate::text::{decimal, pad_right_spec, push_decimal, push_padded_right};

verus! {

broadcast use vstd::string::group_string_axioms;

/// What went wrong while reading a capture.
#[derive(Debug, Clone, Copy, PartialEq, Eq, Structural)]
pub enum CaptureDiagnosticKind {
    /// A format feature the reader does not support.
    Unsupported,
    /// Bytes that do not follow the format.
    Malformed,
    /// The capture ends inside a structure.
    Incomplete,
    /// A reference to something the capture does not define.
    InvalidReference,
    /// A reader limit was reached.
    ResourceLimit,
    /// Reading the input failed.
    Io,
    /// An internal reader error.
    Internal,
}

/// The reader stage at which a diagnostic arose.
#[derive(Debug, Clone, Copy, PartialEq, Eq, Structural)]
pub enum CaptureDiagnosticStage {
    /// Format detection.
    Format,
    /// File or section header.
    Header,
    /// A block of a block-structured capture.
    Block,
    /// An interface description.
    Interface,
    /// A packet record.
    Packet,
    /// The reader as a whole.
    Reader,
}

/// Where in the capture a diagnostic arose.
#[derive(Debug, Clone, Copy, PartialEq, Eq)]
pub struct CaptureLocation {
    /// Byte offset from the start of the capture.
    pub offset: u64,
    /// Ordinal of the section, where the format has sections.
    pub section_ordinal: Option<u64>,
    /// Ordinal of the interface, where one is involved.
    pub interface_ordinal: Option<u64>,
    /// Type of the block, where the format has blocks.
    pub block_type: Option<u32>,
    /// Ordinal of the packet, where one is involved.
    pub packet_ordinal: Option<u64>,
}

/// A diagnostic raised while reading a capture.
#[derive(Debug, Clone, Copy, PartialEq, Eq)]
pub struct CaptureDiagnostic {
    /// What went wrong.
    pub kind: CaptureDiagnosticKind,
    /// The stage that raised it.
    pub stage: CaptureDiagnosticStage,
    /// Where it arose.
    pub location: CaptureLocation,
    /// Fixed description of the problem.
    pub message: &'static str,
    /// Whether the reader went on after it.
    pub recovered: bool,
}

/// The name of a kind as it appears in a diagnostic line.
pub open spec fn kind_name(k: CaptureDiagnosticKind) -> Seq<char> {
    match k {
        CaptureDiagnosticKind::Unsupported => "Unsupported"@,
        CaptureDiagnosticKind::Malformed => "Malformed"@,
        CaptureDiagnosticKind::Incomplete => "Incomplete"@,
        CaptureDiagnosticKind::InvalidReference => "InvalidReference"@,
        CaptureDiagnosticKind::ResourceLimit => "ResourceLimit"@,
        CaptureDiagnosticKind::Io => "Io"@,
        CaptureDiagnosticKind::Internal => "Internal"@,
    }
}

/// The token of a kind in a validation report.
pub open spec fn kind_token(k: CaptureDiagnosticKind) -> Seq<char> {
    match k {
        CaptureDiagnosticKind::Unsupported => "unsupported"@,
        CaptureDiagnosticKind::Malformed => "malformed"@,
        CaptureDiagnosticKind::Incomplete => "incomplete"@,
        CaptureDiagnosticKind::InvalidReference => "invalid_reference"@,
        CaptureDiagnosticKind::ResourceLimit => "resource_limit"@,
        CaptureDiagnosticKind::Io => "io"@,
        CaptureDiagnosticKind::Internal => "internal"@,
    }
}

/// The token of a stage in a validation report.
pub open spec fn stage_token(s: CaptureDiagnosticStage) -> Seq<char> {
    match s {
        CaptureDiagnosticStage::Format => "format"@,
        CaptureDiagnosticStage::Header => "header"@,
        CaptureDiagnosticStage::Block => "block"@,
        CaptureDiagnosticStage::Interface => "interface"@,
        CaptureDiagnosticStage::Packet => "packet"@,
        CaptureDiagnosticStage::Reader => "reader"@,
    }
}

/// The message a capture diagnostic is emitted with: `[Kind] message at byte N`.
pub open spec fn capture_message(d: CaptureDiagnostic) -> Seq<char> {
    "["@ + kind_name(d.kind) + "] "@ + d.message@ + " at byte "@ + decimal(d.location.offset as nat)
}

impl CaptureDiagnosticKind {
    /// The name of the kind as it appears in a diagnostic line.
    pub fn name(&self) -> (s: &'static str)
        ensures
            s@ == kind_name(*self),
    {
        match self {
            CaptureDiagnosticKind::Unsupported => "Unsupported",
            CaptureDiagnosticKind::Malformed => "Malformed",
            CaptureDiagnosticKind::Incomplete => "Incomplete",
            CaptureDiagnosticKind::InvalidReference => "InvalidReference",
            CaptureDiagnosticKind::ResourceLimit => "ResourceLimit",
            CaptureDiagnosticKind::Io => "Io",
            CaptureDiagnosticKind::Internal => "Internal",
        }
    }

    /// The token of the kind in a validation report.
    pub fn token(&self) -> (s: &'static str)
        ensures
            s@ == kind_token(*self),
    {
        match self {
            CaptureDiagnosticKind::Unsupported => "unsupported",
            CaptureDiagnosticKind::Malformed => "malformed",
            CaptureDiagnosticKind::Incomplete => "incomplete",
            CaptureDiagnosticKind::InvalidReference => "invalid_reference",
            CaptureDiagnosticKind::ResourceLimit => "resource_limit",
            CaptureDiagnosticKind::Io => "io",
            CaptureDiagnosticKind::Internal => "internal",
        }
    }
}

impl CaptureDiagnosticStage {
    /// The token of the stage in a validation report.
    pub fn token(&self) -> (s: &'static str)
        ensures
            s@ == stage_token(*self),
    {
        match self {
            CaptureDiagnosticStage::Format => "format",
            CaptureDiagnosticStage::Header => "header",
            CaptureDiagnosticStage::Block => "block",
            CaptureDiagnosticStage::Interface => "interface",
            CaptureDiagnosticStage::Packet => "packet",
            CaptureDiagnosticStage::Reader => "reader",
        }
    }
}

/// The message a capture diagnostic is emitted with.
pub fn capture_diagnostic_message(d: &CaptureDiagnostic) -> (s: String)
    ensures
        s@ == capture_message(*d),
{
    let mut s = String::from_str("[");
    s.append(d.kind.name());
    s.append("] ");
    s.append(d.message);
    s.append(" at byte ");
    push_decimal(&mut s, d.location.offset as u128);
    s
}

// ----- capture outcome -----

/// Byte order of a capture header or section.
#[derive(Debug, Clone, Copy, PartialEq, Eq, Structural)]
pub enum ByteOrder {
    /// Little-endian.
    Little,
    /// Big-endian.
    Big,
}

/// Container format of a capture.
#[derive(Debug, Clone, Copy, PartialEq, Eq, Structural)]
pub enum CaptureFormat {
    /// The classic single-header packet capture format.
    LegacyPcap,
    /// The block-structured next-generation format.
    PcapNg,
    /// Not recognised.
    Unknown,
}

/// How finely packet timestamps are resolved.
#[derive(Debug, Clone, Copy, PartialEq, Eq, Structural)]
pub enum CaptureTimestampResolution {
    /// `10^-exponent` seconds per unit.
    Decimal {
        /// Decimal exponent.
        exponent: u8,
        /// Units per second.
        units_per_second: u64,
    },
    /// `2^-exponent` seconds per unit.
    Binary {
        /// Binary exponent.
        exponent: u8,
        /// Units per second.
        units_per_second: u64,
    },
}

/// The file header of a classic capture.
#[derive(Debug, Clone, Copy, PartialEq, Eq, Structural)]
pub struct LegacyCaptureHeader {
    /// Byte order of the file.
    pub byte_order: ByteOrder,
    /// Major format version.
    pub version_major: u16,
    /// Minor format version.
    pub version_minor: u16,
    /// Link-layer type of every packet.
    pub linktype: u32,
    /// Largest captured length of a packet.
    pub snaplen: u32,
    /// Timestamp resolution.
    pub timestamp_resolution: CaptureTimestampResolution,
}

/// An interface description of a block-structured capture.
#[derive(Debug, Clone, Copy, PartialEq, Eq, Structural)]
pub struct CaptureInterface {
    /// Whether the reader could use the description to decode packets.
    pub usable: bool,
}

impl CaptureInterface {
    /// Whether the description is usable.
    pub fn is_valid(&self) -> (b: bool)
        ensures
            b == self.usable,
    {
        self.usable
    }
}

/// A section of a block-structured capture.
#[derive(Debug, Clone, PartialEq, Eq)]
pub struct CaptureSection {
    /// Byte order of the section.
    pub byte_order: ByteOrder,
    /// Major format version of the section.
    pub version_major: u16,
    /// Minor format version of the section.
    pub version_minor: u16,
    /// The section's interface descriptions.
    pub interfaces: Vec<CaptureInterface>,
}

/// What the reader learned of the container.
#[derive(Debug, Clone, PartialEq, Eq)]
pub struct CaptureMetadata {
    /// Container format.
    pub format: CaptureFormat,
    /// The file header of a classic capture.
    pub legacy: Option<LegacyCaptureHeader>,
    /// The sections of a block-structured capture.
    pub sections: Vec<CaptureSection>,
}

/// A reader limit.
#[derive(Debug, Clone, Copy, PartialEq, Eq, Structural)]
pub enum ReaderLimit {
    /// The maximum number of capture records.
    MaximumRecords,
    /// Any other reader limit.
    Other,
}

/// The error that stopped the reader.
#[derive(Debug, Clone, PartialEq, Eq)]
pub struct CaptureReaderError {
    /// What went wrong.
    pub kind: CaptureDiagnosticKind,
    /// The limit that was reached, for a resource limit error.
    pub limit: Option<ReaderLimit>,
    /// The error's text.
    pub message: String,
}

/// How far reading the capture got.
#[derive(Debug, Clone, PartialEq, Eq)]
pub enum CaptureCompletion {
    /// Read to the end.
    Complete,
    /// Stopped after some useful records, possibly on an error.
    Partial {
        /// The error that stopped the reader, if one did.
        terminal_error: Option<CaptureReaderError>,
    },
    /// Stopped before any useful record.
    FailedBeforeUsefulRecords {
        /// The error that stopped the reader.
        terminal_error: CaptureReaderError,
    },
}

/// The outcome of reading a capture, as far as its summary is concerned.
#[derive(Debug, Clone, PartialEq, Eq)]
pub struct CaptureReadOutcome {
    /// Container metadata.
    pub metadata: CaptureMetadata,
    /// Every diagnostic the reader raised.
    pub diagnostics: Vec<CaptureDiagnostic>,
    /// How far reading got.
    pub completion: CaptureCompletion,
}

impl CaptureReadOutcome {
    /// Whether the reader read the whole capture.
    pub fn is_complete(&self) -> (b: bool)
        ensures
            b == (self.completion is Complete),
    {
        match self.completion {
            CaptureCompletion::Complete => true,
            _ => false,
        }
    }
}

/// A summary line: the label left-aligned in fourteen columns, then the value.
pub open spec fn field_line(label: Seq<char>, value: Seq<char>) -> Seq<char> {
    pad_right_spec(label, 14) + value
}

/// The byte-order qualifier of a format name.
pub open spec fn byte_order_suffix(b: ByteOrder) -> Seq<char> {
    match b {
        ByteOrder::Little => " (little-endian)"@,
        ByteOrder::Big => " (big-endian)"@,
    }
}

/// The format shown in a summary.
pub open spec fn format_text(m: CaptureMetadata) -> Seq<char> {
    match m.format {
        CaptureFormat::LegacyPcap => match m.legacy {
            Some(l) => "PCAP"@ + byte_order_suffix(l.byte_order),
            None => "PCAP"@,
        },
        CaptureFormat::PcapNg => if m.sections@.len() > 0 {
            "PCAPNG"@ + byte_order_suffix(m.sections@[0].byte_order)
        } else {
            "PCAPNG"@
        },
        CaptureFormat::Unknown => "Unknown"@,
    }
}

/// The completion shown in a summary.
pub open spec fn completion_text(c: CaptureCompletion) -> Seq<char> {
    match c {
        CaptureCompletion::Complete => "complete"@,
        CaptureCompletion::Partial { .. } => "partial"@,
        CaptureCompletion::FailedBeforeUsefulRecords { .. } => "failed"@,
    }
}

/// The timestamp resolution shown in a summary.
pub open spec fn resolution_text(r: CaptureTimestampResolution) -> Seq<char> {
    match r {
        CaptureTimestampResolution::Decimal { exponent, units_per_second } => "10^"@ + decimal(exponent as nat)
            + " units/s ("@ + decimal(units_per_second as nat) + " Hz)"@,
        CaptureTimestampResolution::Binary { exponent, units_per_second } => "2^"@ + decimal(exponent as nat)
            + " units/s ("@ + decimal(units_per_second as nat) + " Hz)"@,
    }
}

/// The number of usable interface descriptions.
pub open spec fn usable_count(ifs: Seq<CaptureInterface>) -> nat
    decreases ifs.len(),
{
    if ifs.len() == 0 {
        0
    } else {
        usable_count(ifs.drop_last()) + if ifs.last().usable { 1nat } else { 0nat }
    }
}

/// The number of interface descriptions over all sections, usable ones, and the others.
pub open spec fn interface_totals(secs: Seq<CaptureSection>) -> (nat, nat, nat)
    decreases secs.len(),
{
    if secs.len() == 0 {
        (0, 0, 0)
    } else {
        let (t, u, n) = interface_totals(secs.drop_last());
        let ifs = secs.last().interfaces@;
        let good = usable_count(ifs);
        (t + ifs.len(), u + good, n + (ifs.len() - good) as nat)
    }
}

/// A count as shown: saturated at the largest machine count.
pub open spec fn saturated(n: nat) -> nat {
    if n <= usize::MAX {
        n
    } else {
        usize::MAX as nat
    }
}

/// The header lines of a summary after the common ones.
pub open spec fn detail_lines(m: CaptureMetadata) -> Seq<Seq<char>> {
    match m.legacy {
        Some(l) => seq![
            field_line("Version"@, decimal(l.version_major as nat) + "."@ + decimal(l.version_minor as nat)),
            field_line("Linktype"@, decimal(l.linktype as nat)),
            field_line("Snaplen"@, decimal(l.snaplen as nat)),
            field_line("TimestampRes"@, resolution_text(l.timestamp_resolution)),
        ],
        None => if m.sections@.len() > 0 {
            let (t, u, n) = interface_totals(m.sections@);
            seq![
                field_line("Sections"@, decimal(m.sections@.len())),
                field_line(
                    "Interfaces"@,
                    decimal(saturated(t)) + " (usable: "@ + decimal(saturated(u)) + ", unusable: "@ + decimal(
                        saturated(n),
                    ) + ")"@,
                ),
            ]
        } else {
            Seq::empty()
        },
    }
}

/// The lines of a capture validation summary.
pub open spec fn validate_summary_lines(o: CaptureReadOutcome, records_emitted: u64) -> Seq<Seq<char>> {
    seq![
        "Capture"@,
        field_line("Format"@, format_text(o.metadata)),
        field_line("Completion"@, completion_text(o.completion)),
        field_line("Records"@, decimal(records_emitted as nat)),
        field_line("Diagnostics"@, decimal(o.diagnostics@.len())),
    ] + detail_lines(o.metadata)
}

fn field(label: &str, value: &str) -> (s: String)
    ensures
        s@ == field_line(label@, value@),
{
    let mut s = String::new();
    push_padded_right(&mut s, label, 14);
    s.append(value);
    s
}

fn byte_order_name(prefix: &str, b: ByteOrder) -> (s: String)
    ensures
        s@ == prefix@ + byte_order_suffix(b),
{
    let mut s = String::from_str(prefix);
    match b {
        ByteOrder::Little => s.append(" (little-endian)"),
        ByteOrder::Big => s.append(" (big-endian)"),
    }
    s
}

fn format_name(m: &CaptureMetadata) -> (s: String)
    ensures
        s@ == format_text(*m),
{
    match m.format {
        CaptureFormat::LegacyPcap => match &m.legacy {
            Some(l) => byte_order_name("PCAP", l.byte_order),
            None => String::from_str("PCAP"),
        },
        CaptureFormat::PcapNg => if m.sections.len() > 0 {
            byte_order_name("PCAPNG", m.sections[0].byte_order)
        } else {
            String::from_str("PCAPNG")
        },
        CaptureFormat::Unknown => String::from_str("Unknown"),
    }
}

fn completion_name(c: &CaptureCompletion) -> (s: &'static str)
    ensures
        s@ == completion_text(*c),
{
    match c {
        CaptureCompletion::Complete => "complete",
        CaptureCompletion::Partial { .. } => "partial",
        CaptureCompletion::FailedBeforeUsefulRecords { .. } => "failed",
    }
}

pub(crate) fn format_resolution(r: CaptureTimestampResolution) -> (s: String)
    ensures
        s@ == resolution_text(r),
{
    let (base, exponent, units) = match r {
        CaptureTimestampResolution::Decimal { exponent, units_per_second } => ("10^", exponent, units_per_second),
        CaptureTimestampResolution::Binary { exponent, units_per_second } => ("2^", exponent, units_per_second),
    };
    let mut s = String::from_str(base);
    push_decimal(&mut s, exponent as u128);
    s.append(" units/s (");
    push_decimal(&mut s, units as u128);
    s.append(" Hz)");
    s
}

proof fn lemma_usable_count_bound(ifs: Seq<CaptureInterface>)
    ensures
        usable_count(ifs) <= ifs.len(),
    decreases ifs.len(),
{
    if ifs.len() > 0 {
        lemma_usable_count_bound(ifs.drop_last());
    }
}

fn saturating_add(a: usize, b: usize) -> (r: usize)
    ensures
        r as nat == saturated((a + b) as nat),
{
    if a > usize::MAX - b {
        usize::MAX
    } else {
        a + b
    }
}

/// The interface totals of the sections, each saturated.
pub(crate) fn count_interfaces(sections: &Vec<CaptureSection>) -> (r: (usize, usize, usize))
    ensures
        r.0 as nat == saturated(interface_totals(sections@).0),
        r.1 as nat == saturated(interface_totals(sections@).1),
        r.2 as nat == saturated(interface_totals(sections@).2),
{
    let mut total: usize = 0;
    let mut usable: usize = 0;
    let mut unusable: usize = 0;
    let n = sections.len();
    let mut i: usize = 0;
    while i < n
        invariant
            n == sections@.len(),
            i <= n,
            total as nat == saturated(interface_totals(sections@.take(i as int)).0),
            usable as nat == saturated(interface_totals(sections@.take(i as int)).1),
            unusable as nat == saturated(interface_totals(sections@.take(i as int)).2),
        decreases n - i,
    {
        let ifs = &sections[i].interfaces;
        let ghost before = sections@.take(i as int);
        let ghost after = sections@.take(i + 1);
        proof {
            assert(after.drop_last() =~= before);
            assert(after.last() == sections@[i as int]);
        }
        total = saturating_add(total, ifs.len());
        let m = ifs.len();
        let mut j: usize = 0;
        let ghost u0 = usable as nat;
        let ghost x0 = unusable as nat;
        let ghost (t0, ub, xb) = interface_totals(before);
        while j < m
            invariant
                m == ifs@.len(),
                j <= m,
                u0 == saturated(ub),
                x0 == saturated(xb),
                usable as nat == saturated(ub + usable_count(ifs@.take(j as int))),
                unusable as nat == saturated((xb + (j - usable_count(ifs@.take(j as int)))) as nat),
            decreases m - j,
        {
            proof {
                let t = ifs@.take(j + 1);
                assert(t.drop_last() =~= ifs@.take(j as int));
                assert(t.last() == ifs@[j as int]);
                lemma_usable_count_bound(ifs@.take(j as int));
            }
            if ifs[j].is_valid() {
                usable = saturating_add(usable, 1);
            } else {
                unusable = saturating_add(unusable, 1);
            }
            j = j + 1;
        }
        proof {
            assert(ifs@.take(m as int) =~= ifs@);
            lemma_usable_count_bound(ifs@);
        }
        i = i + 1;
    }
    assert(sections@.take(n as int) =~= sections@);
    (total, usable, unusable)
}

/// The lines of the validation summary of a capture.
pub fn validate_summary(outcome: &CaptureReadOutcome, records_emitted: u64) -> (lines: Vec<String>)
    ensures
        lines@.map_values(|l: String| l@) == validate_summary_lines(*outcome, records_emitted),
{
    let mut lines: Vec<String> = Vec::new();
    lines.push(String::from_str("Capture"));
    lines.push(field("Format", format_name(&outcome.metadata).as_str()));
    lines.push(field("Completion", completion_name(&outcome.completion)));
    lines.push(field("Records", crate::text::decimal_string(records_emitted as u128).as_str()));
    lines.push(field("Diagnostics", crate::text::decimal_string(outcome.diagnostics.len() as u128).as_str()));
    let m = &outcome.metadata;
    match &m.legacy {
        Some(l) => {
            let mut version = crate::text::decimal_string(l.version_major as u128);
            version.append(".");
            push_decimal(&mut version, l.version_minor as u128);
            lines.push(field("Version", version.as_str()));
            lines.push(field("Linktype", crate::text::decimal_string(l.linktype as u128).as_str()));
            lines.push(field("Snaplen", crate::text::decimal_string(l.snaplen as u128).as_str()));
            lines.push(field("TimestampRes", format_resolution(l.timestamp_resolution).as_str()));
        },
        None => {
            if m.sections.len() > 0 {
                lines.push(field("Sections", crate::text::decimal_string(m.sections.len() as u128).as_str()));
                let (total, usable, unusable) = count_interfaces(&m.sections);
                let mut text = crate::text::decimal_string(total as u128);
                text.append(" (usable: ");
                push_decimal(&mut text, usable as u128);
                text.append(", unusable: ");
                push_decimal(&mut text, unusable as u128);
                text.append(")");
                lines.push(field("Interfaces", text.as_str()));
            }
        },
    }
    proof {
        assert(lines@.map_values(|l: String| l@) =~= validate_summary_lines(*outcome, records_emitted));
    }
    lines
}

} // verus!

use pcapraven::presentation::{
    diagnostic_line, dns_table_header, fatal_line, flow_table_header, http_table_header,
    render_dns_table_header, render_flow_table_header, render_http_table_header,
    render_tls_table_header, suppression_line, tls_table_header, truncate_escaped_presentation,
    DiagnosticEmitter, LineBuffer, LineSink, SinkError, DEFAULT_DIAGNOSTIC_BUDGET,
};

use pcapraven::capture::{
    capture_diagnostic_message, ByteOrder, CaptureCompletion, CaptureDiagnostic, CaptureDiagnosticKind,
    CaptureDiagnosticStage, CaptureFormat, CaptureInterface, CaptureLocation, CaptureMetadata,
    CaptureReadOutcome, CaptureReaderError, CaptureSection, CaptureTimestampResolution, LegacyCaptureHeader,
};
use pcapraven::presentation::render_validate_summary;

struct FailingWriter;

impl LineSink for FailingWriter {
    fn write_line(&mut self, _line: &str) -> Result<(), SinkError> {
        Err(SinkError)
    }
}

#[test]
fn test_diagnostic_emitter_propagates_io_error() {
    let mut emitter = DiagnosticEmitter::with_writer(FailingWriter, false, 10);
    let res = emitter.emit_diagnostic("test message");
    assert!(res.is_err());
    assert!(emitter.had_io_error());
}

#[test]
fn test_diagnostic_emitter_fatal_propagates_io_error() {
    let mut emitter = DiagnosticEmitter::with_writer(FailingWriter, false, 10);
    let res = emitter.emit_fatal("fatal error");
    assert!(res.is_err());
    assert!(emitter.had_io_error());
}

#[test]
fn test_diagnostic_emitter_finish_propagates_io_error() {
    let mut emitter = DiagnosticEmitter::with_writer(LineBuffer::new(), false, 1);
    assert!(emitter.emit_diagnostic("msg 1").is_ok());
    assert!(emitter.emit_diagnostic("msg 2").is_ok()); // suppressed
    assert_eq!(emitter.suppressed_count(), 1);

    let mut failing_emitter = DiagnosticEmitter::with_writer(FailingWriter, false, 0);
    assert!(failing_emitter.emit_diagnostic("msg 1").is_ok()); // suppressed (budget 0)
    let finish_res = failing_emitter.finish();
    assert!(finish_res.is_err());
    assert!(failing_emitter.had_io_error());
}

#[test]
fn test_diagnostic_emitter_budget_and_suppression() {
    let mut emitter = DiagnosticEmitter::with_writer(LineBuffer::new(), false, 2);
    assert!(emitter.emit_diagnostic("msg 1").is_ok());
    assert!(emitter.emit_diagnostic("msg 2").is_ok());
    assert!(emitter.emit_diagnostic("msg 3").is_ok());
    assert!(emitter.emit_diagnostic("msg 4").is_ok());
    assert!(emitter.finish().is_ok());
    let output = emitter.into_writer().text();
    assert!(output.contains("diagnostic: msg 1\n"));
    assert!(output.contains("diagnostic: msg 2\n"));
    assert!(!output.contains("diagnostic: msg 3\n"));
    assert!(output.contains("warning: suppressed 2 additional diagnostic messages (budget: 2)\n"));
}

#[test]
fn test_render_flow_table_header_propagates_writer_error() {
    let mut writer = FailingWriter;
    assert!(render_flow_table_header(&mut writer).is_err());
}

#[test]
fn test_render_dns_table_header_propagates_writer_error() {
    let mut writer = FailingWriter;
    assert!(render_dns_table_header(&mut writer).is_err());
}

#[test]
fn test_render_http_table_header_propagates_writer_error() {
    let mut writer = FailingWriter;
    assert!(render_http_table_header(&mut writer).is_err());
}

#[test]
fn test_truncate_escaped_presentation() {
    assert_eq!(truncate_escaped_presentation("hello", 10), "hello");
    assert_eq!(truncate_escaped_presentation("hello world", 8), "hello...");
    assert_eq!(truncate_escaped_presentation("hello\\x00world", 10), "hello...");
    assert_eq!(truncate_escaped_presentation("hello\\\\world", 9), "hello...");
    assert_eq!(truncate_escaped_presentation("abc", 2), "..");
}

#[test]
fn quiet_emitter_writes_nothing_and_reports_no_error() {
    let mut emitter = DiagnosticEmitter::with_writer(LineBuffer::new(), true, 10);
    assert!(emitter.emit_diagnostic("silent message").is_ok());
    assert!(emitter.finish().is_ok());
    assert!(!emitter.had_io_error());
    assert_eq!(emitter.emitted_count(), 0);
    assert!(emitter.into_writer().is_empty());
}

#[test]
fn quiet_emitter_still_reports_fatal_errors() {
    let mut emitter = DiagnosticEmitter::with_writer(LineBuffer::new(), true, 10);
    assert!(emitter.emit_fatal("cannot open capture").is_ok());
    let buffer = emitter.into_writer();
    assert_eq!(buffer.len(), 1);
    assert_eq!(buffer.line(0), "error: cannot open capture");
}

#[test]
fn emitter_counts_emitted_and_suppressed_lines() {
    let mut emitter = DiagnosticEmitter::with_writer(LineBuffer::new(), false, 3);
    for i in 0..5 {
        assert!(emitter.emit_diagnostic(&format!("m{i}")).is_ok());
    }
    assert_eq!(emitter.emitted_count(), 3);
    assert_eq!(emitter.suppressed_count(), 2);
    assert!(emitter.finish().is_ok());
    let buffer = emitter.into_writer();
    assert_eq!(buffer.len(), 4);
    assert_eq!(buffer.line(2), "diagnostic: m2");
    assert_eq!(
        buffer.line(3),
        "warning: suppressed 2 additional diagnostic messages (budget: 3)"
    );
}

#[test]
fn emitter_without_suppression_finishes_silently() {
    let mut emitter = DiagnosticEmitter::with_writer(FailingWriter, false, 5);
    assert!(emitter.finish().is_ok());
    assert!(!emitter.had_io_error());
}

#[test]
fn failed_diagnostic_write_is_not_counted() {
    let mut emitter = DiagnosticEmitter::with_writer(FailingWriter, false, 5);
    assert!(emitter.emit_diagnostic("x").is_err());
    assert_eq!(emitter.emitted_count(), 0);
    assert_eq!(emitter.suppressed_count(), 0);
}

#[test]
fn default_diagnostic_budget_is_one_hundred() {
    assert_eq!(DEFAULT_DIAGNOSTIC_BUDGET, 100);
}

#[test]
fn diagnostic_lines_have_fixed_prefixes() {
    assert_eq!(diagnostic_line("abc"), "diagnostic: abc");
    assert_eq!(fatal_line("boom"), "error: boom");
    assert_eq!(
        suppression_line(17, 100),
        "warning: suppressed 17 additional diagnostic messages (budget: 100)"
    );
}

#[test]
fn flow_header_matches_column_layout() {
    let expected = format!(
        "{:<6} {:<5} {:<21} {:<21} {:>6} {:>6} {:>6} {:>6} {:>10} {:>10} {:<10} {:<16}",
        "ID", "PROTO", "ENDPOINT_A", "ENDPOINT_B", "PKTS", "A>B", "B>A", "SELF", "CAP_BYTES",
        "WIRE_BYTES", "DURATION", "END"
    );
    assert_eq!(flow_table_header(), expected);
}

#[test]
fn dns_header_matches_column_layout() {
    let expected = format!(
        "{:<6} {:<5} {:<21} {:<21} {:>5} {:<8} {:>6} {:>5} {:>3} {:>3} {:>3} {:>3} {:<30} {:<6} {:<4}",
        "PKT", "XPORT", "SRC", "DST", "ID", "KIND", "OPCODE", "RCODE", "QD", "AN", "NS", "AR",
        "QNAME", "QTYPE", "EDNS"
    );
    assert_eq!(dns_table_header(), expected);
}

#[test]
fn http_header_matches_column_layout() {
    let expected = format!(
        "{:<6} {:<8} {:<21} {:<21} {:<8} {:<8} {:>6} {:<24} {:<20} {:<20} {:>10} {:<10}",
        "PKT", "KIND", "SRC", "DST", "VER", "METHOD", "STATUS", "TARGET", "HOST", "CONTENT-TYPE",
        "CL", "TE"
    );
    assert_eq!(http_table_header(), expected);
}

#[test]
fn tls_header_matches_column_layout() {
    let expected = format!(
        "{:<6} {:<17} {:<21} {:<21} {:<8} {:<8} {:<8} {:<24} {:<12} {:>7} {:>4}",
        "PKT", "KIND", "SRC", "DST", "REC_VER", "TLS_VER", "CIPHER", "SNI", "ALPN", "CIPHERS",
        "EXTS"
    );
    assert_eq!(tls_table_header(), expected);
}

#[test]
fn rendered_header_reaches_the_sink() {
    let mut buffer = LineBuffer::new();
    assert!(render_tls_table_header(&mut buffer).is_ok());
    assert!(render_flow_table_header(&mut buffer).is_ok());
    assert_eq!(buffer.len(), 2);
    assert_eq!(buffer.line(0), tls_table_header());
    assert_eq!(buffer.text(), format!("{}\n{}\n", tls_table_header(), flow_table_header()));
}

#[test]
fn truncation_keeps_whole_escapes_and_fits_width() {
    assert_eq!(truncate_escaped_presentation("ab\\x41cd", 7), "ab...");
    assert_eq!(truncate_escaped_presentation("ab\\x41cdef", 9), "ab\\x41...");
    assert_eq!(truncate_escaped_presentation("abcdef", 3), "...");
    assert_eq!(truncate_escaped_presentation("abcdef", 0), "");
    assert_eq!(truncate_escaped_presentation("", 0), "");
    assert_eq!(truncate_escaped_presentation("\\", 5), "\\");
    for width in 0..12 {
        assert!(truncate_escaped_presentation("x\\x00y\\\\z\\x7fw", width).len() <= width);
    }
}

#[test]
fn test_diagnostic_emitter_quiet_mode() {
    let mut emitter = DiagnosticEmitter::with_writer(LineBuffer::new(), true, 10);
    assert!(emitter.emit_diagnostic("silent message").is_ok());
    let diag = CaptureDiagnostic {
        kind: CaptureDiagnosticKind::Malformed,
        stage: CaptureDiagnosticStage::Block,
        location: CaptureLocation {
            offset: 42,
            section_ordinal: None,
            interface_ordinal: None,
            block_type: None,
            packet_ordinal: None,
        },
        message: "corrupt block",
        recovered: false,
    };
    assert!(emitter.emit_capture_diagnostic(&diag).is_ok());
    assert!(emitter.finish().is_ok());
    assert!(!emitter.had_io_error());
    assert!(emitter.into_writer().is_empty());
}

fn capture_diag(kind: CaptureDiagnosticKind, offset: u64, message: &'static str) -> CaptureDiagnostic {
    CaptureDiagnostic {
        kind,
        stage: CaptureDiagnosticStage::Packet,
        location: CaptureLocation {
            offset,
            section_ordinal: None,
            interface_ordinal: None,
            block_type: None,
            packet_ordinal: Some(3),
        },
        message,
        recovered: true,
    }
}

#[test]
fn capture_diagnostics_share_the_diagnostic_budget() {
    let mut emitter = DiagnosticEmitter::with_writer(LineBuffer::new(), false, 2);
    assert!(emitter.emit_capture_diagnostic(&capture_diag(CaptureDiagnosticKind::Malformed, 42, "corrupt block")).is_ok());
    assert!(emitter.emit_diagnostic("plain").is_ok());
    assert!(emitter.emit_capture_diagnostic(&capture_diag(CaptureDiagnosticKind::Io, 7, "read failed")).is_ok());
    assert_eq!(emitter.suppressed_count(), 1);
    assert!(emitter.finish().is_ok());
    let buffer = emitter.into_writer();
    assert_eq!(buffer.len(), 3);
    assert_eq!(buffer.line(0), "diagnostic: [Malformed] corrupt block at byte 42");
    assert_eq!(buffer.line(1), "diagnostic: plain");
}

#[test]
fn capture_diagnostic_names_and_tokens() {
    let kinds = [
        (CaptureDiagnosticKind::Unsupported, "Unsupported", "unsupported"),
        (CaptureDiagnosticKind::Malformed, "Malformed", "malformed"),
        (CaptureDiagnosticKind::Incomplete, "Incomplete", "incomplete"),
        (CaptureDiagnosticKind::InvalidReference, "InvalidReference", "invalid_reference"),
        (CaptureDiagnosticKind::ResourceLimit, "ResourceLimit", "resource_limit"),
        (CaptureDiagnosticKind::Io, "Io", "io"),
        (CaptureDiagnosticKind::Internal, "Internal", "internal"),
    ];
    for (kind, name, token) in kinds {
        assert_eq!(kind.name(), name);
        assert_eq!(kind.token(), token);
        assert_eq!(format!("{kind:?}"), name);
    }
    let stages = [
        (CaptureDiagnosticStage::Format, "format"),
        (CaptureDiagnosticStage::Header, "header"),
        (CaptureDiagnosticStage::Block, "block"),
        (CaptureDiagnosticStage::Interface, "interface"),
        (CaptureDiagnosticStage::Packet, "packet"),
        (CaptureDiagnosticStage::Reader, "reader"),
    ];
    for (stage, token) in stages {
        assert_eq!(stage.token(), token);
    }
    assert_eq!(
        capture_diagnostic_message(&capture_diag(CaptureDiagnosticKind::ResourceLimit, 1234567, "too many blocks")),
        "[ResourceLimit] too many blocks at byte 1234567"
    );
}

#[test]
fn test_render_validate_summary_propagates_writer_error() {
    let outcome = CaptureReadOutcome {
        metadata: CaptureMetadata {
            format: CaptureFormat::Unknown,
            legacy: None,
            sections: Vec::new(),
        },
        diagnostics: Vec::new(),
        completion: CaptureCompletion::Complete,
    };
    let mut writer = FailingWriter;
    assert!(render_validate_summary(&outcome, 0, &mut writer).is_err());
}

fn summary_lines(outcome: &CaptureReadOutcome, records: u64) -> Vec<String> {
    let mut buffer = LineBuffer::new();
    assert!(render_validate_summary(outcome, records, &mut buffer).is_ok());
    (0..buffer.len()).map(|i| buffer.line(i).to_string()).collect()
}

fn row(label: &str, value: &str) -> String {
    format!("{:<14}{}", label, value)
}

#[test]
fn validate_summary_of_a_classic_capture() {
    let outcome = CaptureReadOutcome {
        metadata: CaptureMetadata {
            format: CaptureFormat::LegacyPcap,
            legacy: Some(LegacyCaptureHeader {
                byte_order: ByteOrder::Little,
                version_major: 2,
                version_minor: 4,
                linktype: 1,
                snaplen: 65535,
                timestamp_resolution: CaptureTimestampResolution::Decimal { exponent: 6, units_per_second: 1_000_000 },
            }),
            sections: Vec::new(),
        },
        diagnostics: vec![capture_diag(CaptureDiagnosticKind::Incomplete, 40, "truncated record")],
        completion: CaptureCompletion::Partial { terminal_error: None },
    };
    assert_eq!(
        summary_lines(&outcome, 3),
        vec![
            "Capture".to_string(),
            row("Format", "PCAP (little-endian)"),
            row("Completion", "partial"),
            row("Records", "3"),
            row("Diagnostics", "1"),
            row("Version", "2.4"),
            row("Linktype", "1"),
            row("Snaplen", "65535"),
            row("TimestampRes", "10^6 units/s (1000000 Hz)"),
        ]
    );
}

#[test]
fn validate_summary_of_a_block_capture_counts_interfaces() {
    let outcome = CaptureReadOutcome {
        metadata: CaptureMetadata {
            format: CaptureFormat::PcapNg,
            legacy: None,
            sections: vec![
                CaptureSection {
                    byte_order: ByteOrder::Big,
                    version_major: 1,
                    version_minor: 0,
                    interfaces: vec![CaptureInterface { usable: true }, CaptureInterface { usable: false }],
                },
                CaptureSection {
                    byte_order: ByteOrder::Little,
                    version_major: 1,
                    version_minor: 0,
                    interfaces: vec![CaptureInterface { usable: true }],
                },
            ],
        },
        diagnostics: Vec::new(),
        completion: CaptureCompletion::Complete,
    };
    assert_eq!(
        summary_lines(&outcome, 12),
        vec![
            "Capture".to_string(),
            row("Format", "PCAPNG (big-endian)"),
            row("Completion", "complete"),
            row("Records", "12"),
            row("Diagnostics", "0"),
            row("Sections", "2"),
            row("Interfaces", "3 (usable: 2, unusable: 1)"),
        ]
    );
}

#[test]
fn validate_summary_of_an_unrecognised_capture() {
    let outcome = CaptureReadOutcome {
        metadata: CaptureMetadata { format: CaptureFormat::Unknown, legacy: None, sections: Vec::new() },
        diagnostics: Vec::new(),
        completion: CaptureCompletion::FailedBeforeUsefulRecords {
            terminal_error: CaptureReaderError {
                kind: CaptureDiagnosticKind::Malformed,
                limit: None,
                message: "bad magic".to_string(),
            },
        },
    };
    let lines = summary_lines(&outcome, 0);
    assert_eq!(lines.len(), 5);
    assert_eq!(lines[1], row("Format", "Unknown"));
    assert_eq!(lines[2], row("Completion", "failed"));
    let binary = CaptureTimestampResolution::Binary { exponent: 10, units_per_second: 1024 };
    let outcome = CaptureReadOutcome {
        metadata: CaptureMetadata {
            format: CaptureFormat::PcapNg,
            legacy: Some(LegacyCaptureHeader {
                byte_order: ByteOrder::Big,
                version_major: 2,
                version_minor: 4,
                linktype: 101,
                snaplen: 262144,
                timestamp_resolution: binary,
            }),
            sections: Vec::new(),
        },
        diagnostics: Vec::new(),
        completion: CaptureCompletion::Complete,
    };
    let lines = summary_lines(&outcome, 0);
    assert_eq!(lines[1], row("Format", "PCAPNG"));
    assert_eq!(lines[8], row("TimestampRes", "2^10 units/s (1024 Hz)"));
}

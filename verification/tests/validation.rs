use pcapraven::capture::{
    ByteOrder, CaptureCompletion, CaptureDiagnostic, CaptureDiagnosticKind, CaptureDiagnosticStage,
    CaptureFormat, CaptureInterface, CaptureLocation, CaptureMetadata, CaptureReadOutcome, CaptureReaderError,
    CaptureSection, CaptureTimestampResolution, LegacyCaptureHeader,
};
use pcapraven::validation::convert_validation_outcome;

#[test]
fn validation_conversion_maps_every_diagnostic_stage_and_kind() {
    let stages = [
        (CaptureDiagnosticStage::Format, "format"),
        (CaptureDiagnosticStage::Header, "header"),
        (CaptureDiagnosticStage::Block, "block"),
        (CaptureDiagnosticStage::Interface, "interface"),
        (CaptureDiagnosticStage::Packet, "packet"),
        (CaptureDiagnosticStage::Reader, "reader"),
    ];
    let kinds = [
        (CaptureDiagnosticKind::Unsupported, "unsupported"),
        (CaptureDiagnosticKind::Malformed, "malformed"),
        (CaptureDiagnosticKind::Incomplete, "incomplete"),
        (CaptureDiagnosticKind::InvalidReference, "invalid_reference"),
        (CaptureDiagnosticKind::ResourceLimit, "resource_limit"),
        (CaptureDiagnosticKind::Io, "io"),
        (CaptureDiagnosticKind::Internal, "internal"),
    ];

    let mut diagnostics = Vec::new();
    let mut expected_tokens = Vec::new();
    for &(stage, stage_token) in &stages {
        for &(kind, kind_token) in &kinds {
            let offset = diagnostics.len() as u64;
            diagnostics.push(CaptureDiagnostic {
                kind,
                stage,
                message: "synthetic diagnostic",
                location: CaptureLocation {
                    offset,
                    section_ordinal: None,
                    interface_ordinal: None,
                    block_type: None,
                    packet_ordinal: None,
                },
                recovered: true,
            });
            expected_tokens.push((stage_token, kind_token));
        }
    }

    let outcome = CaptureReadOutcome {
        metadata: CaptureMetadata {
            format: CaptureFormat::Unknown,
            legacy: None,
            sections: Vec::new(),
        },
        diagnostics,
        completion: CaptureCompletion::Complete,
    };

    let (_, summary, completion, emitted) = convert_validation_outcome(&outcome, 0);

    assert_eq!(summary.total_diagnostics, "42");
    assert!(summary.had_diagnostics);
    assert_eq!(completion.status, "complete");
    assert!(completion.is_complete);
    assert_eq!(emitted.len(), expected_tokens.len());
    for (index, (expected_stage, expected_kind)) in expected_tokens.iter().enumerate() {
        assert_eq!(emitted[index].index, index.to_string());
        assert_eq!(emitted[index].stage, *expected_stage);
        assert_eq!(emitted[index].kind, *expected_kind);
        assert_eq!(emitted[index].byte_offset, Some(index.to_string()));
    }
}

#[test]
fn validation_metadata_of_a_classic_capture() {
    let outcome = CaptureReadOutcome {
        metadata: CaptureMetadata {
            format: CaptureFormat::LegacyPcap,
            legacy: Some(LegacyCaptureHeader {
                byte_order: ByteOrder::Big,
                version_major: 2,
                version_minor: 4,
                linktype: 1,
                snaplen: 65535,
                timestamp_resolution: CaptureTimestampResolution::Decimal { exponent: 9, units_per_second: 1_000_000_000 },
            }),
            sections: Vec::new(),
        },
        diagnostics: Vec::new(),
        completion: CaptureCompletion::Partial {
            terminal_error: Some(CaptureReaderError {
                kind: CaptureDiagnosticKind::Incomplete,
                limit: None,
                message: "truncated record header".to_string(),
            }),
        },
    };
    let (meta, summary, completion, emitted) = convert_validation_outcome(&outcome, 12);
    assert_eq!(meta.format, "pcap");
    assert_eq!(meta.byte_order, "big_endian");
    assert_eq!(meta.version_major, Some(2));
    assert_eq!(meta.version_minor, Some(4));
    assert_eq!(meta.linktype, Some(1));
    assert_eq!(meta.snaplen, Some(65535));
    assert_eq!(meta.timestamp_resolution.as_deref(), Some("10^9 units/s (1000000000 Hz)"));
    assert_eq!(meta.section_count, None);
    assert_eq!(summary.records_emitted, "12");
    assert_eq!(summary.total_diagnostics, "0");
    assert!(!summary.had_diagnostics);
    assert_eq!(completion.status, "partial");
    assert!(!completion.is_complete);
    assert_eq!(completion.terminal_error.as_deref(), Some("truncated record header"));
    assert!(emitted.is_empty());
}

#[test]
fn validation_metadata_of_a_block_capture() {
    let outcome = CaptureReadOutcome {
        metadata: CaptureMetadata {
            format: CaptureFormat::PcapNg,
            legacy: None,
            sections: vec![CaptureSection {
                byte_order: ByteOrder::Little,
                version_major: 1,
                version_minor: 0,
                interfaces: vec![
                    CaptureInterface { usable: true },
                    CaptureInterface { usable: false },
                    CaptureInterface { usable: false },
                ],
            }],
        },
        diagnostics: Vec::new(),
        completion: CaptureCompletion::FailedBeforeUsefulRecords {
            terminal_error: CaptureReaderError {
                kind: CaptureDiagnosticKind::Unsupported,
                limit: None,
                message: "no usable interface".to_string(),
            },
        },
    };
    let (meta, _, completion, _) = convert_validation_outcome(&outcome, 0);
    assert_eq!(meta.format, "pcapng");
    assert_eq!(meta.byte_order, "little_endian");
    assert_eq!(meta.version_major, Some(1));
    assert_eq!(meta.section_count.as_deref(), Some("1"));
    assert_eq!(meta.interface_count.as_deref(), Some("3"));
    assert_eq!(meta.usable_interfaces.as_deref(), Some("1"));
    assert_eq!(meta.unusable_interfaces.as_deref(), Some("2"));
    assert_eq!(meta.linktype, None);
    assert_eq!(completion.status, "failed");
    assert_eq!(completion.terminal_error.as_deref(), Some("no usable interface"));
}

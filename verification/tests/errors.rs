use pcapraven::domain::{DetectorId, EvidenceReference, ObservationReference, ProtocolKind};
use pcapraven::error::{
    DetectionEngineError, DetectionInputError, DetectionLimitsValidationError, DetectionOutputError,
    DetectorConfigError, DetectorExecutionError, DetectorRegistryError,
};
use pcapraven::input::DetectionInputLimitation;
use pcapraven::config::DetectorParameterKey;
use pcapraven::limits::DetectionLimits;
use pcapraven::correlation::CorrelatorDescription;
use pcapraven::domain::FindingValidationError;
use pcapraven::args::{analyze_format_rejection, ReportFormat};

fn id(text: &str) -> DetectorId {
    DetectorId::try_new(text).unwrap()
}

#[test]
fn config_errors_describe_the_offending_key() {
    assert_eq!(DetectorConfigError::EmptyParameterKey.describe(), "detector parameter key cannot be empty");
    assert_eq!(
        DetectorConfigError::ParameterKeyTooLong { length: 70, max: 64 }.describe(),
        "detector parameter key length (70 bytes) exceeds maximum (64 bytes)"
    );
    assert_eq!(
        DetectorConfigError::InvalidParameterKeyCharacter { character: 'A' }.describe(),
        "detector parameter key contains invalid character 'A'"
    );
    assert_eq!(
        DetectorConfigError::InvalidParameterKeyCharacter { character: 'é' }.describe(),
        "detector parameter key contains invalid character 'é'"
    );
    assert_eq!(
        DetectorConfigError::OutOfOrderParameterKey { previous: "b".to_string(), attempted: "a".to_string() }
            .describe(),
        "out-of-order detector parameter key: attempted 'a' after 'b'"
    );
    assert_eq!(
        DetectorConfigError::InvalidParameterType { key: "min_samples".to_string(), expected: "unsigned" }
            .describe(),
        "parameter 'min_samples' has invalid type, expected unsigned"
    );
    assert_eq!(
        DetectorConfigError::UnregisteredDetector(id("dns.example")).describe(),
        "configuration provided for unregistered detector 'dns.example'"
    );
}

#[test]
fn registry_errors_name_the_components() {
    assert_eq!(
        DetectorRegistryError::MissingRequiredPrimaryDetector {
            correlator_id: id("behavior.possible_c2_multi_signal"),
            required_detector_id: id("dns.possible_tunneling"),
        }
        .describe(),
        "correlator 'behavior.possible_c2_multi_signal' requires unregistered primary detector 'dns.possible_tunneling'"
    );
    assert_eq!(
        DetectorRegistryError::RegistryCapacityExceeded { count: 5, max: 4 }.describe(),
        "detector registry capacity exceeded (5 > 4)"
    );
    assert_eq!(
        DetectorRegistryError::DuplicateDetectorId(id("dns.long_query_name")).describe(),
        "duplicate detector registration with ID 'dns.long_query_name'"
    );
}

#[test]
fn limits_and_input_errors_have_fixed_texts() {
    assert_eq!(
        DetectionLimitsValidationError::LimitAboveHardMaximum { limit_name: "max_total_findings", attempted: 9, max: 8 }
            .describe(),
        "detection limit 'max_total_findings' value (9) exceeds hard maximum (8)"
    );
    assert_eq!(
        DetectionInputError::OutOfOrderFlow { previous: 7, attempted: 3 }.describe(),
        "out-of-order flow reference in detection input: attempted flow:3 after flow:7"
    );
    assert_eq!(
        DetectionInputError::OutOfOrderLimitation {
            previous: DetectionInputLimitation::FlowBudgetReached,
            attempted: DetectionInputLimitation::CaptureTruncated,
        }
        .describe(),
        "out-of-order limitation in detection input: attempted CaptureTruncated after FlowBudgetReached"
    );
    assert_eq!(
        DetectionInputError::DuplicateObservation(ObservationReference {
            packet_ordinal: 12,
            protocol: ProtocolKind::Http,
            sub_index: 1,
        })
        .describe(),
        "duplicate observation reference in detection input: observation:12/http/1"
    );
    assert_eq!(DetectionInputLimitation::ObservationBudgetReached.as_str(), "ObservationBudgetReached");
}

#[test]
fn engine_errors_prefix_the_cause() {
    assert_eq!(
        DetectionEngineError::Output(DetectionOutputError::DanglingEvidenceReference(EvidenceReference { id: 4 }))
            .describe(),
        "output error: dangling evidence reference: 4"
    );
    assert_eq!(
        DetectionEngineError::ResourceLimit { resource: "registered_detectors", capacity: 64 }.describe(),
        "detection resource limit for registered_detectors (64) reached"
    );
    assert_eq!(
        DetectionEngineError::Input(DetectionInputError::PartialInputWithoutLimitations).describe(),
        "input error: partial detection input must specify at least one analysis limitation"
    );
    assert_eq!(
        DetectorExecutionError::internal_error("bad\nstate").describe(),
        "detector execution failed: bad state"
    );
}

#[test]
fn error_messages_are_bounded_and_free_of_control_characters() {
    assert_eq!(DetectorExecutionError::sanitize_message(""), "unspecified error");
    assert_eq!(DetectorExecutionError::sanitize_message("a\tb\u{7f}c"), "a b c");
    let long: String = std::iter::repeat("é").take(400).collect();
    let clean = DetectorExecutionError::sanitize_message(&long);
    assert_eq!(clean.len(), 512);
    assert_eq!(clean.chars().count(), 256);
    let mixed = format!("x{}", "é".repeat(300));
    let clean = DetectorExecutionError::sanitize_message(&mixed);
    assert!(clean.len() <= 512);
    assert_eq!(clean.len(), 511);
    match DetectorExecutionError::resource_limit("line\nbreak") {
        DetectorExecutionError::ResourceLimitExceeded(m) => {
            assert_eq!(m, "line break");
            assert!(!m.chars().any(|c| c.is_control()));
        }
        _ => panic!("expected a resource limit error"),
    }
}

#[test]
fn parameter_keys_report_the_first_violation() {
    assert_eq!(DetectorParameterKey::try_new("").unwrap_err(), DetectorConfigError::EmptyParameterKey);
    assert_eq!(
        DetectorParameterKey::try_new(&"a".repeat(65)).unwrap_err(),
        DetectorConfigError::ParameterKeyTooLong { length: 65, max: 64 }
    );
    assert_eq!(
        DetectorParameterKey::try_new(".a").unwrap_err(),
        DetectorConfigError::InvalidParameterKeyCharacter { character: '.' }
    );
    assert_eq!(
        DetectorParameterKey::try_new("ab C").unwrap_err(),
        DetectorConfigError::InvalidParameterKeyCharacter { character: ' ' }
    );
    assert!(DetectorParameterKey::try_new(&"a".repeat(64)).is_ok());
    assert!(DetectorParameterKey::try_new("0min.max_x-1").is_ok());
}

#[test]
fn limits_builder_reports_what_the_constructor_reports() {
    assert_eq!(
        DetectionLimits::builder().max_registered_detectors(0).build().unwrap_err(),
        DetectionLimitsValidationError::ZeroLimit("max_registered_detectors")
    );
    assert_eq!(
        DetectionLimits::builder().max_total_evidence_records(500_001).build().unwrap_err(),
        DetectionLimitsValidationError::LimitAboveHardMaximum {
            limit_name: "max_total_evidence_records",
            attempted: 500_001,
            max: 500_000,
        }
    );
    assert_eq!(
        DetectionLimits::builder().max_registered_detectors(256).build().unwrap().max_registered_detectors(),
        256
    );
}

#[test]
fn correlator_description_names_the_control_character() {
    assert_eq!(
        CorrelatorDescription::try_new("pairs\tsignals\n").unwrap_err(),
        FindingValidationError::FindingSummaryControlCharacter { byte: 9 }
    );
}

#[test]
fn analyze_rejects_csv_with_its_message() {
    assert_eq!(
        analyze_format_rejection(ReportFormat::Csv),
        Some("hierarchical multi-section analysis report cannot be represented as a single flat CSV table; use table, json, or ndjson")
    );
    assert_eq!(analyze_format_rejection(ReportFormat::Json), None);
}

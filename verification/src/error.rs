//! Error types for detector registration, configuration, evaluation, and engine execution.

use vstd::prelude::*;
use crate::domain::{
    DetectorId, EvidenceReference, FindingReference, FindingValidationError, FlowReference,
    ObservationReference,
};
use crate::input::DetectionInputLimitation;
use crate::text::{decimal, push_char, push_decimal};
use crate::domain::ProtocolKind;

verus! {

broadcast use vstd::string::group_string_axioms;

/// Errors occurring during detector configuration validation.
#[derive(Debug, Clone, PartialEq, Eq)]
pub enum DetectorConfigError {
    /// Parameter key must not be empty.
    EmptyParameterKey,
    /// Parameter key exceeds maximum byte length.
    ParameterKeyTooLong {
        /// Actual byte length.
        length: usize,
        /// Maximum allowed byte length.
        max: usize,
    },
    /// Parameter key contains an invalid character.
    InvalidParameterKeyCharacter {
        /// Invalid character.
        character: char,
    },
    /// Duplicate parameter key in parameter collection.
    DuplicateParameterKey(String),
    /// Parameter keys must be strictly increasing.
    OutOfOrderParameterKey {
        /// Previous parameter key.
        previous: String,
        /// Attempted parameter key.
        attempted: String,
    },
    /// Number of parameters exceeds configured maximum.
    ParametersExceeded {
        /// Current count.
        count: usize,
        /// Maximum allowed count.
        max: usize,
    },
    /// Total detector configurations count exceeds maximum.
    ConfigurationsExceeded {
        /// Current count.
        count: usize,
        /// Maximum allowed count.
        max: usize,
    },
    /// Detector encountered an unknown configuration parameter.
    UnknownParameter(String),
    /// Required detector configuration parameter is missing.
    MissingRequiredParameter(String),
    /// Parameter value has an unexpected type.
    InvalidParameterType {
        /// Parameter key.
        key: String,
        /// Expected type name.
        expected: &'static str,
    },
    /// Parameter value is semantically invalid or out of acceptable range.
    ParameterValueOutOfRange {
        /// Parameter key.
        key: String,
        /// Description of the range violation.
        reason: &'static str,
    },
    /// Configuration provided for an unregistered detector ID.
    UnregisteredDetector(DetectorId),
}

/// Errors occurring during detector registration.
#[derive(Debug, Clone, PartialEq, Eq)]
pub enum DetectorRegistryError {
    /// Built-in component metadata failed its static validation boundary.
    InvalidStaticMetadata {
        /// Name of the built-in component whose metadata was invalid.
        component: &'static str,
    },
    /// Registry capacity must be greater than zero.
    ZeroRegistryCapacity,
    /// Registry capacity exceeds hard maximum.
    RegistryCapacityAboveHardMaximum {
        /// Attempted capacity.
        attempted: usize,
        /// Maximum allowed capacity.
        max: usize,
    },
    /// A detector with the same DetectorId was already registered.
    DuplicateDetectorId(DetectorId),
    /// A detector identifier is registered in both detector and correlator registries.
    CrossRegistryDetectorIdCollision(DetectorId),
    /// Correlator requires a primary detector that is not registered.
    MissingRequiredPrimaryDetector {
        /// Correlator identifier.
        correlator_id: DetectorId,
        /// Required primary detector identifier.
        required_detector_id: DetectorId,
    },
    /// Correlator declares invalid required primary detector IDs.
    InvalidRequiredPrimaryDetectorIds {
        /// Correlator identifier.
        correlator_id: DetectorId,
        /// Description of validation failure.
        reason: &'static str,
    },
    /// Component declares invalid MITRE ATT&CK mapping declarations.
    InvalidMitreMappingDeclarations {
        /// Component identifier.
        component_id: DetectorId,
        /// Description of validation failure.
        reason: &'static str,
    },
    /// Registered detector count exceeds registry capacity.
    RegistryCapacityExceeded {
        /// Current count.
        count: usize,
        /// Maximum capacity.
        max: usize,
    },
    /// Requested detector was not found in registry.
    DetectorNotFound(DetectorId),
}

/// Errors occurring during detection limits validation.
#[derive(Debug, Clone, Copy, PartialEq, Eq)]
pub enum DetectionLimitsValidationError {
    /// A configured detection limit must be greater than zero.
    ZeroLimit(&'static str),
    /// A configured detection limit exceeds its hard maximum.
    LimitAboveHardMaximum {
        /// Limit name.
        limit_name: &'static str,
        /// Attempted value.
        attempted: usize,
        /// Maximum allowed value.
        max: usize,
    },
}

/// Errors occurring during validation of borrowed detection input.
#[derive(Debug, Clone, PartialEq, Eq)]
pub enum DetectionInputError {
    /// Duplicate flow record reference in detection input.
    DuplicateFlow(FlowReference),
    /// Flow record references must be strictly increasing.
    OutOfOrderFlow {
        /// Previous flow ordinal.
        previous: u64,
        /// Attempted flow ordinal.
        attempted: u64,
    },
    /// Duplicate protocol observation reference in detection input.
    DuplicateObservation(ObservationReference),
    /// Protocol observation references must be strictly increasing.
    OutOfOrderObservation {
        /// Previous observation reference.
        previous: ObservationReference,
        /// Attempted observation reference.
        attempted: ObservationReference,
    },
    /// Duplicate input limitation in detection input.
    DuplicateLimitation(DetectionInputLimitation),
    /// Input limitations must be strictly sorted.
    OutOfOrderLimitation {
        /// Previous limitation.
        previous: DetectionInputLimitation,
        /// Attempted limitation.
        attempted: DetectionInputLimitation,
    },
    /// Complete detection input cannot have analysis limitations.
    CompleteInputWithLimitations,
    /// Partial detection input must specify at least one analysis limitation.
    PartialInputWithoutLimitations,
}

/// Maximum byte length for dynamic detector error strings (512 bytes).
pub const MAX_DETECTOR_ERROR_MESSAGE_LENGTH: usize = 512;

/// Unicode general category Cc (what `char::is_control` tests).
pub open spec fn is_control_char(c: char) -> bool {
    (c as u32) <= 0x1f || (0x7f <= (c as u32) && (c as u32) <= 0x9f)
}

/// Number of bytes in the UTF-8 encoding of `c`.
pub open spec fn utf8_width(c: char) -> nat {
    if (c as u32) < 0x80 {
        1
    } else if (c as u32) < 0x800 {
        2
    } else if (c as u32) < 0x10000 {
        3
    } else {
        4
    }
}

/// A control character is replaced by a space; any other character is kept.
pub open spec fn cleaned_char(c: char) -> char {
    if is_control_char(c) {
        ' '
    } else {
        c
    }
}

/// The longest prefix of `raw`, control characters replaced by spaces, whose UTF-8
/// encoding fits in `budget` bytes.
pub open spec fn cleaned_prefix(raw: Seq<char>, budget: nat) -> Seq<char>
    decreases raw.len(),
{
    if raw.len() == 0 {
        Seq::empty()
    } else if utf8_width(cleaned_char(raw[0])) > budget {
        Seq::empty()
    } else {
        seq![cleaned_char(raw[0])] + cleaned_prefix(
            raw.drop_first(),
            (budget - utf8_width(cleaned_char(raw[0]))) as nat,
        )
    }
}

/// The bounded, terminal-safe form of a detector error message.
pub open spec fn sanitized_message(raw: Seq<char>) -> Seq<char> {
    let clean = cleaned_prefix(raw, MAX_DETECTOR_ERROR_MESSAGE_LENGTH as nat);
    if clean.len() == 0 {
        "unspecified error"@
    } else {
        clean
    }
}

fn char_width(c: char) -> (w: usize)
    ensures
        w == utf8_width(c),
{
    if (c as u32) < 0x80 {
        1
    } else if (c as u32) < 0x800 {
        2
    } else if (c as u32) < 0x10000 {
        3
    } else {
        4
    }
}

/// Errors occurring during internal detector evaluation.
#[derive(Debug, Clone, PartialEq, Eq)]
pub enum DetectorExecutionError {
    /// Internal execution failure within the detector.
    InternalError(String),
    /// Detector exceeded its internal resource budget.
    ResourceLimitExceeded(String),
}

impl DetectorExecutionError {
    /// Creates an internal error with a bounded message free of control characters.
    pub fn internal_error(message: &str) -> (e: DetectorExecutionError)
        ensures
            e matches DetectorExecutionError::InternalError(m) && m@ == sanitized_message(message@),
    {
        DetectorExecutionError::InternalError(Self::sanitize_message(message))
    }

    /// Creates a resource limit error with a bounded message free of control characters.
    pub fn resource_limit(message: &str) -> (e: DetectorExecutionError)
        ensures
            e matches DetectorExecutionError::ResourceLimitExceeded(m) && m@ == sanitized_message(
                message@,
            ),
    {
        DetectorExecutionError::ResourceLimitExceeded(Self::sanitize_message(message))
    }

    /// Replaces control characters by spaces and truncates to at most
    /// [`MAX_DETECTOR_ERROR_MESSAGE_LENGTH`] bytes at a character boundary; an empty
    /// result becomes `unspecified error`.
    pub fn sanitize_message(raw: &str) -> (clean: String)
        ensures
            clean@ == sanitized_message(raw@),
    {
        let n = raw.unicode_len();
        let mut clean = String::new();
        let mut used: usize = 0;
        let mut i: usize = 0;
        assert(raw@.skip(0) =~= raw@);
        while i < n
            invariant_except_break
                n == raw@.len(),
                i <= n,
                used <= MAX_DETECTOR_ERROR_MESSAGE_LENGTH,
                clean@ + cleaned_prefix(
                    raw@.skip(i as int),
                    (MAX_DETECTOR_ERROR_MESSAGE_LENGTH - used) as nat,
                ) == cleaned_prefix(raw@, MAX_DETECTOR_ERROR_MESSAGE_LENGTH as nat),
            ensures
                clean@ == cleaned_prefix(raw@, MAX_DETECTOR_ERROR_MESSAGE_LENGTH as nat),
            decreases n - i,
        {
            let c = raw.get_char(i);
            let code = c as u32;
            let control = code <= 0x1f || (0x7f <= code && code <= 0x9f);
            let w = if control {
                1
            } else {
                char_width(c)
            };
            assert(raw@.skip(i as int)[0] == c);
            assert(raw@.skip(i as int).drop_first() =~= raw@.skip(i + 1));
            if w > MAX_DETECTOR_ERROR_MESSAGE_LENGTH - used {
                assert(clean@ =~= cleaned_prefix(raw@, MAX_DETECTOR_ERROR_MESSAGE_LENGTH as nat));
                break;
            }
            if control {
                proof { reveal_strlit(" "); }
                clean.append(" ");
            } else {
                clean.append(raw.substring_char(i, i + 1));
                assert(raw@.subrange(i as int, i + 1) =~= seq![c]);
            }
            used = used + w;
            i = i + 1;
            assert(clean@ + cleaned_prefix(
                raw@.skip(i as int),
                (MAX_DETECTOR_ERROR_MESSAGE_LENGTH - used) as nat,
            ) =~= cleaned_prefix(raw@, MAX_DETECTOR_ERROR_MESSAGE_LENGTH as nat));
        }
        proof {
            if i == n {
                assert(raw@.skip(i as int).len() == 0);
                assert(clean@ =~= cleaned_prefix(raw@, MAX_DETECTOR_ERROR_MESSAGE_LENGTH as nat));
            }
        }
        if clean.unicode_len() == 0 {
            String::from_str("unspecified error")
        } else {
            clean
        }
    }
}

/// Errors validating detector-emitted findings and evidence.
#[derive(Debug, Clone, PartialEq, Eq)]
pub enum DetectionOutputError {
    /// Duplicate finding identity emitted by the same detector for the same subject.
    DuplicateFindingIdentity {
        /// Originating detector identifier.
        detector_id: DetectorId,
    },
    /// Finding emitted without any supporting evidence.
    FindingWithoutEvidence,
    /// Evidence reference does not resolve to an accepted evidence record.
    DanglingEvidenceReference(EvidenceReference),
    /// Subject or evidence references a flow, observation, or packet absent from the input.
    ReferentialIntegrityError(String),
    /// Domain validation error on finding structure.
    FindingValidationError(FindingValidationError),
    /// Detector with AllowWithLimitations emitted finding without limitation evidence on partial input.
    IncompleteDataPolicyViolation {
        /// Detector ID.
        detector_id: DetectorId,
        /// Violation description.
        reason: &'static str,
    },
    /// Correlator emitted a source finding reference that is invalid or absent from the primary snapshot.
    InvalidSourceFindingReference {
        /// Correlator ID.
        correlator_id: DetectorId,
        /// Referenced finding reference.
        finding_reference: FindingReference,
        /// Reason for failure.
        reason: &'static str,
    },
    /// Correlator emitted an evidence reference not owned by declared source findings.
    UnownedCorrelationEvidenceReference {
        /// Correlator ID.
        correlator_id: DetectorId,
        /// Offending evidence reference.
        evidence_reference: EvidenceReference,
    },
    /// Correlator emitted a subject reference not owned by declared source findings.
    UnownedCorrelationSubjectReference {
        /// Correlator ID.
        correlator_id: DetectorId,
        /// Description of subject provenance failure.
        reason: &'static str,
    },
    /// Correlator source finding count violates requirements.
    InvalidCorrelationSourceCardinality {
        /// Correlator ID.
        correlator_id: DetectorId,
        /// Actual count.
        count: usize,
        /// Expected count.
        expected: usize,
    },
    /// Total output resource limit exceeded.
    OutputLimitExceeded {
        /// Resource name.
        resource: &'static str,
        /// Limit reached.
        limit: usize,
    },
}

/// Unified error returned by the detection engine.
#[derive(Debug, Clone, PartialEq, Eq)]
pub enum DetectionEngineError {
    /// Configuration validation error prior to execution.
    Config(DetectorConfigError),
    /// Registry error.
    Registry(DetectorRegistryError),
    /// Limits validation error.
    InvalidLimits(DetectionLimitsValidationError),
    /// Input validation error.
    Input(DetectionInputError),
    /// Detector output validation error.
    Output(DetectionOutputError),
    /// System resource limit reached.
    ResourceLimit {
        /// Resource name.
        resource: &'static str,
        /// Limit.
        capacity: usize,
    },
}

/// The text of an output error: the quoted component identifier where there is one, the
/// offending reference by its decimal number, the reason; a finding validation error is
/// reported by its kind alone.
pub open spec fn output_error_text(e: DetectionOutputError) -> Seq<char> {
    match e {
        DetectionOutputError::DuplicateFindingIdentity { detector_id } => "duplicate finding identity emitted by detector '"@
            + detector_id@ + "' for identical subject"@,
        DetectionOutputError::FindingWithoutEvidence => "detector emitted finding without supporting evidence"@,
        DetectionOutputError::DanglingEvidenceReference(r) => "dangling evidence reference: "@ + decimal(r.id as nat),
        DetectionOutputError::ReferentialIntegrityError(m) => "referential integrity violation: "@ + m@,
        DetectionOutputError::FindingValidationError(_) => "finding validation error"@,
        DetectionOutputError::IncompleteDataPolicyViolation { detector_id, reason } => "detector '"@
            + detector_id@ + "' incomplete data policy violation: "@ + reason@,
        DetectionOutputError::InvalidSourceFindingReference { correlator_id, finding_reference, reason } =>
            "correlator '"@ + correlator_id@ + "' invalid source finding reference "@ + decimal(
            finding_reference.id as nat,
        ) + ": "@ + reason@,
        DetectionOutputError::UnownedCorrelationEvidenceReference { correlator_id, evidence_reference } =>
            "correlator '"@ + correlator_id@ + "' emitted evidence "@ + decimal(evidence_reference.id as nat)
            + " not owned by declared source findings"@,
        DetectionOutputError::UnownedCorrelationSubjectReference { correlator_id, reason } => "correlator '"@
            + correlator_id@ + "' emitted subject outside source finding provenance: "@ + reason@,
        DetectionOutputError::InvalidCorrelationSourceCardinality { correlator_id, count, expected } =>
            "correlator '"@ + correlator_id@ + "' source count ("@ + decimal(count as nat)
            + ") does not match expected ("@ + decimal(expected as nat) + ")"@,
        DetectionOutputError::OutputLimitExceeded { resource, limit } => "detection output limit for "@ + resource@
            + " ("@ + decimal(limit as nat) + ") exceeded"@,
    }
}

impl DetectionOutputError {
    /// Human-readable description of the error.
    pub fn describe(&self) -> (s: String)
        ensures
            s@ == output_error_text(*self),
    {
        let mut s = String::new();
        match self {
            DetectionOutputError::DuplicateFindingIdentity { detector_id } => {
                s.append("duplicate finding identity emitted by detector '");
                s.append(detector_id.as_str());
                s.append("' for identical subject");
            },
            DetectionOutputError::FindingWithoutEvidence => {
                s.append("detector emitted finding without supporting evidence");
            },
            DetectionOutputError::DanglingEvidenceReference(r) => {
                s.append("dangling evidence reference: ");
                push_decimal(&mut s, r.id as u128);
            },
            DetectionOutputError::ReferentialIntegrityError(m) => {
                s.append("referential integrity violation: ");
                s.append(m.as_str());
            },
            DetectionOutputError::FindingValidationError(_) => {
                s.append("finding validation error");
            },
            DetectionOutputError::IncompleteDataPolicyViolation { detector_id, reason } => {
                s.append("detector '");
                s.append(detector_id.as_str());
                s.append("' incomplete data policy violation: ");
                s.append(reason);
            },
            DetectionOutputError::InvalidSourceFindingReference { correlator_id, finding_reference, reason } => {
                s.append("correlator '");
                s.append(correlator_id.as_str());
                s.append("' invalid source finding reference ");
                push_decimal(&mut s, finding_reference.id as u128);
                s.append(": ");
                s.append(reason);
            },
            DetectionOutputError::UnownedCorrelationEvidenceReference { correlator_id, evidence_reference } => {
                s.append("correlator '");
                s.append(correlator_id.as_str());
                s.append("' emitted evidence ");
                push_decimal(&mut s, evidence_reference.id as u128);
                s.append(" not owned by declared source findings");
            },
            DetectionOutputError::UnownedCorrelationSubjectReference { correlator_id, reason } => {
                s.append("correlator '");
                s.append(correlator_id.as_str());
                s.append("' emitted subject outside source finding provenance: ");
                s.append(reason);
            },
            DetectionOutputError::InvalidCorrelationSourceCardinality { correlator_id, count, expected } => {
                s.append("correlator '");
                s.append(correlator_id.as_str());
                s.append("' source count (");
                push_decimal(&mut s, *count as u128);
                s.append(") does not match expected (");
                push_decimal(&mut s, *expected as u128);
                s.append(")");
            },
            DetectionOutputError::OutputLimitExceeded { resource, limit } => {
                s.append("detection output limit for ");
                s.append(resource);
                s.append(" (");
                push_decimal(&mut s, *limit as u128);
                s.append(") exceeded");
            },
        }
        assert(s@ =~= output_error_text(*self));
        s
    }
}

// ----- messages -----

/// The text of a flow reference: `flow:` and the ordinal.
pub open spec fn flow_reference_text(f: FlowReference) -> Seq<char> {
    "flow:"@ + decimal(f.ordinal as nat)
}

/// The lowercase name of a protocol.
pub open spec fn protocol_name(p: ProtocolKind) -> Seq<char> {
    match p {
        ProtocolKind::Dns => "dns"@,
        ProtocolKind::Http => "http"@,
        ProtocolKind::Tls => "tls"@,
    }
}

/// The text of an observation reference: `observation:`, the packet ordinal, the protocol
/// and the index within the packet, separated by `/`.
pub open spec fn observation_reference_text(o: ObservationReference) -> Seq<char> {
    "observation:"@ + decimal(o.packet_ordinal as nat) + "/"@ + protocol_name(o.protocol) + "/"@ + decimal(
        o.sub_index as nat,
    )
}

/// The name of an input limitation.
pub open spec fn limitation_name(l: DetectionInputLimitation) -> Seq<char> {
    match l {
        DetectionInputLimitation::CaptureTruncated => "CaptureTruncated"@,
        DetectionInputLimitation::PacketCountBudgetReached => "PacketCountBudgetReached"@,
        DetectionInputLimitation::FlowBudgetReached => "FlowBudgetReached"@,
        DetectionInputLimitation::ObservationBudgetReached => "ObservationBudgetReached"@,
    }
}

/// The text of a configuration error.
pub open spec fn config_error_text(e: DetectorConfigError) -> Seq<char> {
    match e {
        DetectorConfigError::EmptyParameterKey => "detector parameter key cannot be empty"@,
        DetectorConfigError::ParameterKeyTooLong { length, max } => "detector parameter key length ("@ + decimal(
            length as nat,
        ) + " bytes) exceeds maximum ("@ + decimal(max as nat) + " bytes)"@,
        DetectorConfigError::InvalidParameterKeyCharacter { character } =>
            "detector parameter key contains invalid character '"@ + seq![character] + "'"@,
        DetectorConfigError::DuplicateParameterKey(key) => "duplicate detector parameter key: "@ + key@,
        DetectorConfigError::OutOfOrderParameterKey { previous, attempted } =>
            "out-of-order detector parameter key: attempted '"@ + attempted@ + "' after '"@ + previous@ + "'"@,
        DetectorConfigError::ParametersExceeded { count, max } => "detector parameters count ("@ + decimal(
            count as nat,
        ) + ") exceeds maximum ("@ + decimal(max as nat) + ")"@,
        DetectorConfigError::ConfigurationsExceeded { count, max } => "detector configurations count ("@
            + decimal(count as nat) + ") exceeds maximum ("@ + decimal(max as nat) + ")"@,
        DetectorConfigError::UnknownParameter(key) => "unknown detector parameter: "@ + key@,
        DetectorConfigError::MissingRequiredParameter(key) => "missing required detector parameter: "@ + key@,
        DetectorConfigError::InvalidParameterType { key, expected } => "parameter '"@ + key@
            + "' has invalid type, expected "@ + expected@,
        DetectorConfigError::ParameterValueOutOfRange { key, reason } => "parameter '"@ + key@
            + "' value out of range: "@ + reason@,
        DetectorConfigError::UnregisteredDetector(id) => "configuration provided for unregistered detector '"@
            + id@ + "'"@,
    }
}

impl DetectorConfigError {
    /// Human-readable description of the error.
    pub fn describe(&self) -> (s: String)
        ensures
            s@ == config_error_text(*self),
    {
        let mut s = String::new();
        match self {
            DetectorConfigError::EmptyParameterKey => {
                s.append("detector parameter key cannot be empty");
            },
            DetectorConfigError::ParameterKeyTooLong { length, max } => {
                s.append("detector parameter key length (");
                push_decimal(&mut s, *length as u128);
                s.append(" bytes) exceeds maximum (");
                push_decimal(&mut s, *max as u128);
                s.append(" bytes)");
            },
            DetectorConfigError::InvalidParameterKeyCharacter { character } => {
                s.append("detector parameter key contains invalid character '");
                push_char(&mut s, *character);
                s.append("'");
            },
            DetectorConfigError::DuplicateParameterKey(key) => {
                s.append("duplicate detector parameter key: ");
                s.append(key.as_str());
            },
            DetectorConfigError::OutOfOrderParameterKey { previous, attempted } => {
                s.append("out-of-order detector parameter key: attempted '");
                s.append(attempted.as_str());
                s.append("' after '");
                s.append(previous.as_str());
                s.append("'");
            },
            DetectorConfigError::ParametersExceeded { count, max } => {
                s.append("detector parameters count (");
                push_decimal(&mut s, *count as u128);
                s.append(") exceeds maximum (");
                push_decimal(&mut s, *max as u128);
                s.append(")");
            },
            DetectorConfigError::ConfigurationsExceeded { count, max } => {
                s.append("detector configurations count (");
                push_decimal(&mut s, *count as u128);
                s.append(") exceeds maximum (");
                push_decimal(&mut s, *max as u128);
                s.append(")");
            },
            DetectorConfigError::UnknownParameter(key) => {
                s.append("unknown detector parameter: ");
                s.append(key.as_str());
            },
            DetectorConfigError::MissingRequiredParameter(key) => {
                s.append("missing required detector parameter: ");
                s.append(key.as_str());
            },
            DetectorConfigError::InvalidParameterType { key, expected } => {
                s.append("parameter '");
                s.append(key.as_str());
                s.append("' has invalid type, expected ");
                s.append(expected);
            },
            DetectorConfigError::ParameterValueOutOfRange { key, reason } => {
                s.append("parameter '");
                s.append(key.as_str());
                s.append("' value out of range: ");
                s.append(reason);
            },
            DetectorConfigError::UnregisteredDetector(id) => {
                s.append("configuration provided for unregistered detector '");
                s.append(id.as_str());
                s.append("'");
            },
        }
        assert(s@ =~= config_error_text(*self));
        s
    }
}

/// The text of a registry error.
pub open spec fn registry_error_text(e: DetectorRegistryError) -> Seq<char> {
    match e {
        DetectorRegistryError::InvalidStaticMetadata { component } => "built-in component '"@ + component@
            + "' has invalid static metadata"@,
        DetectorRegistryError::ZeroRegistryCapacity => "detector registry capacity must be greater than zero"@,
        DetectorRegistryError::RegistryCapacityAboveHardMaximum { attempted, max } => "detector registry capacity ("@
            + decimal(attempted as nat) + ") exceeds hard maximum ("@ + decimal(max as nat) + ")"@,
        DetectorRegistryError::DuplicateDetectorId(id) => "duplicate detector registration with ID '"@ + id@
            + "'"@,
        DetectorRegistryError::CrossRegistryDetectorIdCollision(id) => "detector identifier '"@ + id@
            + "' is registered in both detector and correlation registries"@,
        DetectorRegistryError::MissingRequiredPrimaryDetector { correlator_id, required_detector_id } =>
            "correlator '"@ + correlator_id@ + "' requires unregistered primary detector '"@ + required_detector_id@
            + "'"@,
        DetectorRegistryError::InvalidRequiredPrimaryDetectorIds { correlator_id, reason } => "correlator '"@
            + correlator_id@ + "' declares invalid required primary detector IDs: "@ + reason@,
        DetectorRegistryError::InvalidMitreMappingDeclarations { component_id, reason } => "component '"@
            + component_id@ + "' declares invalid MITRE ATT&CK mapping declarations: "@ + reason@,
        DetectorRegistryError::RegistryCapacityExceeded { count, max } => "detector registry capacity exceeded ("@
            + decimal(count as nat) + " > "@ + decimal(max as nat) + ")"@,
        DetectorRegistryError::DetectorNotFound(id) => "detector '"@ + id@ + "' not found in registry"@,
    }
}

impl DetectorRegistryError {
    /// Human-readable description of the error.
    pub fn describe(&self) -> (s: String)
        ensures
            s@ == registry_error_text(*self),
    {
        let mut s = String::new();
        match self {
            DetectorRegistryError::InvalidStaticMetadata { component } => {
                s.append("built-in component '");
                s.append(component);
                s.append("' has invalid static metadata");
            },
            DetectorRegistryError::ZeroRegistryCapacity => {
                s.append("detector registry capacity must be greater than zero");
            },
            DetectorRegistryError::RegistryCapacityAboveHardMaximum { attempted, max } => {
                s.append("detector registry capacity (");
                push_decimal(&mut s, *attempted as u128);
                s.append(") exceeds hard maximum (");
                push_decimal(&mut s, *max as u128);
                s.append(")");
            },
            DetectorRegistryError::DuplicateDetectorId(id) => {
                s.append("duplicate detector registration with ID '");
                s.append(id.as_str());
                s.append("'");
            },
            DetectorRegistryError::CrossRegistryDetectorIdCollision(id) => {
                s.append("detector identifier '");
                s.append(id.as_str());
                s.append("' is registered in both detector and correlation registries");
            },
            DetectorRegistryError::MissingRequiredPrimaryDetector { correlator_id, required_detector_id } => {
                s.append("correlator '");
                s.append(correlator_id.as_str());
                s.append("' requires unregistered primary detector '");
                s.append(required_detector_id.as_str());
                s.append("'");
            },
            DetectorRegistryError::InvalidRequiredPrimaryDetectorIds { correlator_id, reason } => {
                s.append("correlator '");
                s.append(correlator_id.as_str());
                s.append("' declares invalid required primary detector IDs: ");
                s.append(reason);
            },
            DetectorRegistryError::InvalidMitreMappingDeclarations { component_id, reason } => {
                s.append("component '");
                s.append(component_id.as_str());
                s.append("' declares invalid MITRE ATT&CK mapping declarations: ");
                s.append(reason);
            },
            DetectorRegistryError::RegistryCapacityExceeded { count, max } => {
                s.append("detector registry capacity exceeded (");
                push_decimal(&mut s, *count as u128);
                s.append(" > ");
                push_decimal(&mut s, *max as u128);
                s.append(")");
            },
            DetectorRegistryError::DetectorNotFound(id) => {
                s.append("detector '");
                s.append(id.as_str());
                s.append("' not found in registry");
            },
        }
        assert(s@ =~= registry_error_text(*self));
        s
    }
}

/// The text of a limits error.
pub open spec fn limits_error_text(e: DetectionLimitsValidationError) -> Seq<char> {
    match e {
        DetectionLimitsValidationError::ZeroLimit(name) => "detection limit '"@ + name@
            + "' must be greater than zero"@,
        DetectionLimitsValidationError::LimitAboveHardMaximum { limit_name, attempted, max } =>
            "detection limit '"@ + limit_name@ + "' value ("@ + decimal(attempted as nat) + ") exceeds hard maximum ("@
            + decimal(max as nat) + ")"@,
    }
}

impl DetectionLimitsValidationError {
    /// Human-readable description of the error.
    pub fn describe(&self) -> (s: String)
        ensures
            s@ == limits_error_text(*self),
    {
        let mut s = String::from_str("detection limit '");
        match self {
            DetectionLimitsValidationError::ZeroLimit(name) => {
                s.append(name);
                s.append("' must be greater than zero");
            },
            DetectionLimitsValidationError::LimitAboveHardMaximum { limit_name, attempted, max } => {
                s.append(limit_name);
                s.append("' value (");
                push_decimal(&mut s, *attempted as u128);
                s.append(") exceeds hard maximum (");
                push_decimal(&mut s, *max as u128);
                s.append(")");
            },
        }
        assert(s@ =~= limits_error_text(*self));
        s
    }
}

fn push_observation_reference(s: &mut String, o: ObservationReference)
    ensures
        final(s)@ == old(s)@ + observation_reference_text(o),
{
    s.append("observation:");
    push_decimal(s, o.packet_ordinal as u128);
    s.append("/");
    match o.protocol {
        ProtocolKind::Dns => s.append("dns"),
        ProtocolKind::Http => s.append("http"),
        ProtocolKind::Tls => s.append("tls"),
    }
    s.append("/");
    push_decimal(s, o.sub_index as u128);
    assert(final(s)@ =~= old(s)@ + observation_reference_text(o));
}

fn limitation_str(l: DetectionInputLimitation) -> (s: &'static str)
    ensures
        s@ == limitation_name(l),
{
    match l {
        DetectionInputLimitation::CaptureTruncated => "CaptureTruncated",
        DetectionInputLimitation::PacketCountBudgetReached => "PacketCountBudgetReached",
        DetectionInputLimitation::FlowBudgetReached => "FlowBudgetReached",
        DetectionInputLimitation::ObservationBudgetReached => "ObservationBudgetReached",
    }
}

/// The text of an input error.
pub open spec fn input_error_text(e: DetectionInputError) -> Seq<char> {
    match e {
        DetectionInputError::DuplicateFlow(f) => "duplicate flow reference in detection input: "@
            + flow_reference_text(f),
        DetectionInputError::OutOfOrderFlow { previous, attempted } =>
            "out-of-order flow reference in detection input: attempted flow:"@ + decimal(attempted as nat)
            + " after flow:"@ + decimal(previous as nat),
        DetectionInputError::DuplicateObservation(o) => "duplicate observation reference in detection input: "@
            + observation_reference_text(o),
        DetectionInputError::OutOfOrderObservation { previous, attempted } =>
            "out-of-order observation reference in detection input: attempted "@ + observation_reference_text(
            attempted,
        ) + " after "@ + observation_reference_text(previous),
        DetectionInputError::DuplicateLimitation(l) => "duplicate limitation in detection input: "@
            + limitation_name(l),
        DetectionInputError::OutOfOrderLimitation { previous, attempted } =>
            "out-of-order limitation in detection input: attempted "@ + limitation_name(attempted) + " after "@
            + limitation_name(previous),
        DetectionInputError::CompleteInputWithLimitations =>
            "complete detection input must not specify analysis limitations"@,
        DetectionInputError::PartialInputWithoutLimitations =>
            "partial detection input must specify at least one analysis limitation"@,
    }
}

impl DetectionInputError {
    /// Human-readable description of the error.
    pub fn describe(&self) -> (s: String)
        ensures
            s@ == input_error_text(*self),
    {
        let mut s = String::new();
        match self {
            DetectionInputError::DuplicateFlow(f) => {
                s.append("duplicate flow reference in detection input: ");
                s.append("flow:");
                push_decimal(&mut s, f.ordinal as u128);
            },
            DetectionInputError::OutOfOrderFlow { previous, attempted } => {
                s.append("out-of-order flow reference in detection input: attempted flow:");
                push_decimal(&mut s, *attempted as u128);
                s.append(" after flow:");
                push_decimal(&mut s, *previous as u128);
            },
            DetectionInputError::DuplicateObservation(o) => {
                s.append("duplicate observation reference in detection input: ");
                push_observation_reference(&mut s, *o);
            },
            DetectionInputError::OutOfOrderObservation { previous, attempted } => {
                s.append("out-of-order observation reference in detection input: attempted ");
                push_observation_reference(&mut s, *attempted);
                s.append(" after ");
                push_observation_reference(&mut s, *previous);
            },
            DetectionInputError::DuplicateLimitation(l) => {
                s.append("duplicate limitation in detection input: ");
                s.append(limitation_str(*l));
            },
            DetectionInputError::OutOfOrderLimitation { previous, attempted } => {
                s.append("out-of-order limitation in detection input: attempted ");
                s.append(limitation_str(*attempted));
                s.append(" after ");
                s.append(limitation_str(*previous));
            },
            DetectionInputError::CompleteInputWithLimitations => {
                s.append("complete detection input must not specify analysis limitations");
            },
            DetectionInputError::PartialInputWithoutLimitations => {
                s.append("partial detection input must specify at least one analysis limitation");
            },
        }
        assert(s@ =~= input_error_text(*self));
        s
    }
}

/// The text of a detector execution error.
pub open spec fn execution_error_text(e: DetectorExecutionError) -> Seq<char> {
    match e {
        DetectorExecutionError::InternalError(m) => "detector execution failed: "@ + m@,
        DetectorExecutionError::ResourceLimitExceeded(m) => "detector resource limit exceeded: "@ + m@,
    }
}

impl DetectorExecutionError {
    /// Human-readable description of the error.
    pub fn describe(&self) -> (s: String)
        ensures
            s@ == execution_error_text(*self),
    {
        match self {
            DetectorExecutionError::InternalError(m) => {
                let mut s = String::from_str("detector execution failed: ");
                s.append(m.as_str());
                s
            },
            DetectorExecutionError::ResourceLimitExceeded(m) => {
                let mut s = String::from_str("detector resource limit exceeded: ");
                s.append(m.as_str());
                s
            },
        }
    }
}

/// The text of an engine error: the kind of failure, then the text of the cause.
pub open spec fn engine_error_text(e: DetectionEngineError) -> Seq<char> {
    match e {
        DetectionEngineError::Config(c) => "configuration error: "@ + config_error_text(c),
        DetectionEngineError::Registry(r) => "registry error: "@ + registry_error_text(r),
        DetectionEngineError::InvalidLimits(l) => "limits error: "@ + limits_error_text(l),
        DetectionEngineError::Input(i) => "input error: "@ + input_error_text(i),
        DetectionEngineError::Output(o) => "output error: "@ + output_error_text(o),
        DetectionEngineError::ResourceLimit { resource, capacity } => "detection resource limit for "@
            + resource@ + " ("@ + decimal(capacity as nat) + ") reached"@,
    }
}

impl DetectionEngineError {
    /// Human-readable description of the error.
    pub fn describe(&self) -> (s: String)
        ensures
            s@ == engine_error_text(*self),
    {
        match self {
            DetectionEngineError::Config(c) => {
                let mut s = String::from_str("configuration error: ");
                s.append(c.describe().as_str());
                s
            },
            DetectionEngineError::Registry(r) => {
                let mut s = String::from_str("registry error: ");
                s.append(r.describe().as_str());
                s
            },
            DetectionEngineError::InvalidLimits(l) => {
                let mut s = String::from_str("limits error: ");
                s.append(l.describe().as_str());
                s
            },
            DetectionEngineError::Input(i) => {
                let mut s = String::from_str("input error: ");
                s.append(i.describe().as_str());
                s
            },
            DetectionEngineError::Output(o) => {
                let mut s = String::from_str("output error: ");
                s.append(o.describe().as_str());
                s
            },
            DetectionEngineError::ResourceLimit { resource, capacity } => {
                let mut s = String::from_str("detection resource limit for ");
                s.append(resource);
                s.append(" (");
                push_decimal(&mut s, *capacity as u128);
                s.append(") reached");
                assert(s@ =~= engine_error_text(*self));
                s
            },
        }
    }
}

} // verus!

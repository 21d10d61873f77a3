//! Normalized domain facts the detection engine reads and produces: references, identifiers,
//! severity and confidence levels, MITRE ATT&CK mappings, evidence, and findings.

use vstd::prelude::*;
use crate::ratio::{EvidenceRatio, FlowDuration};
use crate::text::{str_equal, compare_str, Order, text_lt};

verus! {

broadcast use vstd::string::group_string_axioms;

/// Reference to a capture record (packet) by its ordinal.
#[derive(Debug, Clone, Copy, PartialEq, Eq, Structural, Hash)]
pub struct PacketReference {
    /// Zero-based capture record ordinal.
    pub capture_record_ordinal: u64,
}

/// Reference to a reconstructed flow by its ordinal.
#[derive(Debug, Clone, Copy, PartialEq, Eq, Structural, Hash)]
pub struct FlowReference {
    /// Zero-based flow ordinal.
    pub ordinal: u64,
}

/// Application protocol of an observation.
#[derive(Debug, Clone, Copy, PartialEq, Eq, Structural, Hash)]
pub enum ProtocolKind {
    /// DNS.
    Dns,
    /// HTTP/1.x.
    Http,
    /// TLS handshake.
    Tls,
}

/// Canonical rank of a protocol kind in observation ordering.
pub open spec fn protocol_rank(p: ProtocolKind) -> nat {
    match p {
        ProtocolKind::Dns => 0,
        ProtocolKind::Http => 1,
        ProtocolKind::Tls => 2,
    }
}

impl ProtocolKind {
    /// Canonical rank (DNS, HTTP, TLS).
    pub fn rank(&self) -> (r: u8)
        ensures
            r == protocol_rank(*self),
    {
        match self {
            ProtocolKind::Dns => 0,
            ProtocolKind::Http => 1,
            ProtocolKind::Tls => 2,
        }
    }
}

/// Reference to a protocol observation: packet ordinal, protocol, and index within the packet.
#[derive(Debug, Clone, Copy, PartialEq, Eq, Structural, Hash)]
pub struct ObservationReference {
    /// Ordinal of the packet carrying the observation.
    pub packet_ordinal: u64,
    /// Protocol of the observation.
    pub protocol: ProtocolKind,
    /// Index of the observation within its packet.
    pub sub_index: u32,
}

/// Strict canonical order on observation references: packet, then protocol, then index.
pub open spec fn observation_lt(a: ObservationReference, b: ObservationReference) -> bool {
    ||| a.packet_ordinal < b.packet_ordinal
    ||| (a.packet_ordinal == b.packet_ordinal && protocol_rank(a.protocol) < protocol_rank(
        b.protocol,
    ))
    ||| (a.packet_ordinal == b.packet_ordinal && a.protocol == b.protocol && a.sub_index
        < b.sub_index)
}

impl ObservationReference {
    /// Whether `self` sorts strictly before `other`.
    pub fn lt(&self, other: &ObservationReference) -> (b: bool)
        ensures
            b == observation_lt(*self, *other),
    {
        if self.packet_ordinal != other.packet_ordinal {
            return self.packet_ordinal < other.packet_ordinal;
        }
        let r1 = self.protocol.rank();
        let r2 = other.protocol.rank();
        if r1 != r2 {
            return r1 < r2;
        }
        if r1 == r2 {
            assert(self.protocol == other.protocol) by {
                assert(protocol_rank(self.protocol) == protocol_rank(other.protocol));
            }
        }
        self.sub_index < other.sub_index
    }
}

/// Reference to an accepted evidence record.
#[derive(Debug, Clone, Copy, PartialEq, Eq, Structural, Hash)]
pub struct EvidenceReference {
    /// Zero-based evidence identifier.
    pub id: u64,
}

/// Reference to an accepted finding record.
#[derive(Debug, Clone, Copy, PartialEq, Eq, Structural, Hash)]
pub struct FindingReference {
    /// Zero-based finding identifier.
    pub id: u64,
}

/// Semantic version of a detector or correlator.
#[derive(Debug, Clone, Copy, PartialEq, Eq, Structural, Hash)]
pub struct DetectorVersion {
    /// Major version.
    pub major: u32,
    /// Minor version.
    pub minor: u32,
    /// Patch version.
    pub patch: u32,
}

impl DetectorVersion {
    /// Creates a version.
    pub fn new(major: u32, minor: u32, patch: u32) -> (v: DetectorVersion)
        ensures
            v == (DetectorVersion { major, minor, patch }),
    {
        DetectorVersion { major, minor, patch }
    }
}

/// Errors validating identifiers, levels, and finding structure.
#[derive(Debug, Clone, PartialEq, Eq)]
pub enum FindingValidationError {
    /// A detector identifier must not be empty.
    EmptyDetectorId,
    /// A detector identifier exceeds its maximum byte length.
    DetectorIdTooLong {
        /// Actual length.
        length: usize,
        /// Maximum length.
        max: usize,
    },
    /// A detector identifier contains a character outside its grammar.
    InvalidDetectorIdCharacter {
        /// Offending character.
        character: char,
    },
    /// A MITRE ATT&CK technique identifier does not match `T####` or `T####.###`.
    InvalidMitreAttackId,
    /// Text is not a severity level name.
    UnknownSeverity,
    /// Text is not a confidence level name.
    UnknownConfidence,
    /// A finding summary must not be empty.
    EmptyFindingSummary,
    /// A finding summary exceeds its maximum byte length.
    FindingSummaryTooLong {
        /// Actual length.
        length: usize,
        /// Maximum length.
        max: usize,
    },
    /// A finding summary contains a control character.
    FindingSummaryControlCharacter {
        /// The character's code, as a byte.
        byte: u8,
    },
    /// A finding carries no evidence.
    FindingWithoutEvidence,
    /// Too many evidence references.
    EvidenceReferencesExceeded {
        /// Actual count.
        count: usize,
        /// Maximum count.
        max: usize,
    },
    /// Too few source finding references for a correlated finding.
    InsufficientSourceFindingReferences {
        /// Actual count.
        count: usize,
        /// Minimum count.
        minimum: usize,
    },
    /// Too many source finding references.
    SourceFindingReferencesExceeded {
        /// Actual count.
        count: usize,
        /// Maximum count.
        max: usize,
    },
    /// Duplicate evidence reference.
    DuplicateEvidenceReference(EvidenceReference),
    /// Evidence references must be strictly increasing.
    OutOfOrderEvidenceReference {
        /// Previous identifier.
        previous: u64,
        /// Attempted identifier.
        attempted: u64,
    },
    /// Duplicate source finding reference.
    DuplicateSourceFindingReference(FindingReference),
    /// Source finding references must be strictly increasing.
    OutOfOrderSourceFindingReference {
        /// Previous identifier.
        previous: u64,
        /// Attempted identifier.
        attempted: u64,
    },
    /// Too many MITRE ATT&CK mappings.
    MitreMappingsExceeded {
        /// Actual count.
        count: usize,
        /// Maximum count.
        max: usize,
    },
    /// Duplicate MITRE ATT&CK technique.
    DuplicateMitreMapping(MitreAttackId),
    /// MITRE ATT&CK mappings must be strictly sorted by technique identifier.
    OutOfOrderMitreMapping,
}

/// Maximum byte length of a detector identifier.
pub const MAX_DETECTOR_ID_LENGTH: usize = 64;

/// Maximum MITRE ATT&CK mappings per finding.
pub const HARD_MAX_MITRE_MAPPINGS_PER_FINDING: usize = 16;

/// Lowercase ASCII letter.
pub open spec fn is_lower_alpha(c: char) -> bool {
    'a' <= c <= 'z'
}

/// ASCII decimal digit.
pub open spec fn is_digit(c: char) -> bool {
    '0' <= c <= '9'
}

/// Characters allowed after the first in a detector identifier.
pub open spec fn is_detector_id_char(c: char) -> bool {
    is_lower_alpha(c) || is_digit(c) || c == '.' || c == '_'
}

/// Grammar of a detector identifier: 1 to 64 characters, a lowercase letter first, then
/// lowercase letters, digits, `.` and `_`.
pub open spec fn valid_detector_id(s: Seq<char>) -> bool {
    &&& 1 <= s.len() <= MAX_DETECTOR_ID_LENGTH
    &&& is_lower_alpha(s[0])
    &&& forall|i: int| 1 <= i < s.len() ==> #[trigger] is_detector_id_char(s[i])
}

/// Stable, namespaced detector identifier (for example `dns.possible_tunneling`).
#[derive(Debug, Clone, PartialEq, Eq, Hash)]
pub struct DetectorId {
    id: String,
}

impl View for DetectorId {
    type V = Seq<char>;

    closed spec fn view(&self) -> Seq<char> {
        self.id@
    }
}

/// Strict order on detector identifiers (by UTF-8 bytes).
pub open spec fn detector_id_lt(a: Seq<char>, b: Seq<char>) -> bool {
    text_lt(a, b)
}

impl DetectorId {
    /// Validates and creates a detector identifier.
    pub fn try_new(raw: &str) -> (r: Result<DetectorId, FindingValidationError>)
        ensures
            r is Ok <==> valid_detector_id(raw@),
            r matches Ok(id) ==> id@ == raw@,
    {
        let n = raw.unicode_len();
        if n == 0 {
            return Err(FindingValidationError::EmptyDetectorId);
        }
        if n > MAX_DETECTOR_ID_LENGTH {
            return Err(FindingValidationError::DetectorIdTooLong { length: n, max: MAX_DETECTOR_ID_LENGTH });
        }
        let first = raw.get_char(0);
        if !('a' <= first && first <= 'z') {
            return Err(FindingValidationError::InvalidDetectorIdCharacter { character: first });
        }
        let mut i: usize = 1;
        while i < n
            invariant
                n == raw@.len(),
                1 <= i <= n,
                forall|j: int| 1 <= j < i ==> #[trigger] is_detector_id_char(raw@[j]),
            decreases n - i,
        {
            let c = raw.get_char(i);
            if !(('a' <= c && c <= 'z') || ('0' <= c && c <= '9') || c == '.' || c == '_') {
                assert(!is_detector_id_char(raw@[i as int]));
                return Err(FindingValidationError::InvalidDetectorIdCharacter { character: c });
            }
            i = i + 1;
        }
        Ok(DetectorId { id: String::from_str(raw) })
    }

    /// An identifier from text known to follow the grammar.
    pub(crate) fn from_valid(raw: &str) -> (id: DetectorId)
        requires
            valid_detector_id(raw@),
        ensures
            id@ == raw@,
    {
        DetectorId { id: String::from_str(raw) }
    }

    /// Returns the identifier text.
    pub fn as_str(&self) -> (s: &str)
        ensures
            s@ == self@,
    {
        self.id.as_str()
    }

    /// A copy of this identifier.
    pub fn duplicate(&self) -> (r: DetectorId)
        ensures
            r@ == self@,
    {
        DetectorId { id: self.id.clone() }
    }

    /// Whether two identifiers are equal.
    pub fn equals(&self, other: &DetectorId) -> (b: bool)
        ensures
            b == (self@ == other@),
    {
        str_equal(self.id.as_str(), other.id.as_str())
    }

    /// Whether this identifier has the given text.
    pub fn is(&self, text: &str) -> (b: bool)
        ensures
            b == (self@ == text@),
    {
        str_equal(self.id.as_str(), text)
    }

    /// Three-way comparison by UTF-8 bytes.
    pub fn compare(&self, other: &DetectorId) -> (o: Order)
        ensures
            (o == Order::Less) == detector_id_lt(self@, other@),
            (o == Order::Greater) == detector_id_lt(other@, self@),
            (o == Order::Equal) == (self@ == other@),
    {
        compare_str(self.id.as_str(), other.id.as_str())
    }
}

/// Grammar of a MITRE ATT&CK technique identifier: `T` and four digits, optionally
/// followed by `.` and three digits (a sub-technique).
pub open spec fn valid_mitre_attack_id(s: Seq<char>) -> bool {
    &&& (s.len() == 5 || s.len() == 9)
    &&& s[0] == 'T'
    &&& forall|i: int| 1 <= i < 5 ==> #[trigger] is_digit(s[i])
    &&& s.len() == 9 ==> (s[5] == '.' && forall|i: int| 6 <= i < 9 ==> #[trigger] is_digit(s[i]))
}

/// MITRE ATT&CK technique or sub-technique identifier (for example `T1071.004`).
#[derive(Debug, Clone, PartialEq, Eq, Hash)]
pub struct MitreAttackId {
    id: String,
}

impl View for MitreAttackId {
    type V = Seq<char>;

    closed spec fn view(&self) -> Seq<char> {
        self.id@
    }
}

impl MitreAttackId {
    /// Validates and creates a technique identifier.
    pub fn try_new(raw: &str) -> (r: Result<MitreAttackId, FindingValidationError>)
        ensures
            r is Ok <==> valid_mitre_attack_id(raw@),
            r matches Ok(id) ==> id@ == raw@,
    {
        let n = raw.unicode_len();
        if n != 5 && n != 9 {
            return Err(FindingValidationError::InvalidMitreAttackId);
        }
        if raw.get_char(0) != 'T' {
            return Err(FindingValidationError::InvalidMitreAttackId);
        }
        let mut i: usize = 1;
        while i < n
            invariant
                n == raw@.len(),
                n == 5 || n == 9,
                1 <= i <= n,
                forall|j: int| 1 <= j < i && j < 5 ==> #[trigger] is_digit(raw@[j]),
                i > 5 ==> raw@[5] == '.',
                forall|j: int| 6 <= j < i ==> #[trigger] is_digit(raw@[j]),
            decreases n - i,
        {
            let c = raw.get_char(i);
            if i == 5 {
                if c != '.' {
                    return Err(FindingValidationError::InvalidMitreAttackId);
                }
            } else if !('0' <= c && c <= '9') {
                assert(!is_digit(raw@[i as int]));
                return Err(FindingValidationError::InvalidMitreAttackId);
            }
            i = i + 1;
        }
        Ok(MitreAttackId { id: String::from_str(raw) })
    }

    /// A technique identifier from text known to follow the grammar.
    pub(crate) fn from_valid(raw: &str) -> (id: MitreAttackId)
        requires
            valid_mitre_attack_id(raw@),
        ensures
            id@ == raw@,
    {
        MitreAttackId { id: String::from_str(raw) }
    }

    /// Returns the identifier text.
    pub fn as_str(&self) -> (s: &str)
        ensures
            s@ == self@,
    {
        self.id.as_str()
    }

    /// A copy of this identifier.
    pub fn duplicate(&self) -> (r: MitreAttackId)
        ensures
            r@ == self@,
    {
        MitreAttackId { id: self.id.clone() }
    }

    /// Whether two identifiers are equal.
    pub fn equals(&self, other: &MitreAttackId) -> (b: bool)
        ensures
            b == (self@ == other@),
    {
        str_equal(self.id.as_str(), other.id.as_str())
    }

    /// Three-way comparison by UTF-8 bytes.
    pub fn compare(&self, other: &MitreAttackId) -> (o: Order)
        ensures
            (o == Order::Less) == text_lt(self@, other@),
            (o == Order::Greater) == text_lt(other@, self@),
            (o == Order::Equal) == (self@ == other@),
    {
        compare_str(self.id.as_str(), other.id.as_str())
    }
}

/// Analytical severity of a finding, ordered `Info < Low < Medium < High < Critical`.
#[derive(Debug, Clone, Copy, PartialEq, Eq, Structural, Hash)]
pub enum Severity {
    /// Informational.
    Info,
    /// Low.
    Low,
    /// Medium.
    Medium,
    /// High.
    High,
    /// Critical.
    Critical,
}

/// Rank of a severity level in its total order.
pub open spec fn severity_rank(s: Severity) -> nat {
    match s {
        Severity::Info => 0,
        Severity::Low => 1,
        Severity::Medium => 2,
        Severity::High => 3,
        Severity::Critical => 4,
    }
}

/// The canonical lowercase name of a severity level.
pub open spec fn severity_name(s: Severity) -> Seq<char> {
    match s {
        Severity::Info => "info"@,
        Severity::Low => "low"@,
        Severity::Medium => "medium"@,
        Severity::High => "high"@,
        Severity::Critical => "critical"@,
    }
}

impl Severity {
    /// Rank in the order `Info < Low < Medium < High < Critical`.
    pub fn rank(&self) -> (r: u8)
        ensures
            r == severity_rank(*self),
    {
        match self {
            Severity::Info => 0,
            Severity::Low => 1,
            Severity::Medium => 2,
            Severity::High => 3,
            Severity::Critical => 4,
        }
    }

    /// Canonical lowercase name.
    pub fn as_str(&self) -> (s: &'static str)
        ensures
            s@ == severity_name(*self),
    {
        match self {
            Severity::Info => "info",
            Severity::Low => "low",
            Severity::Medium => "medium",
            Severity::High => "high",
            Severity::Critical => "critical",
        }
    }

    /// Parses a canonical lowercase severity name.
    pub fn parse(text: &str) -> (r: Result<Severity, FindingValidationError>)
        ensures
            r matches Ok(s) ==> severity_name(s) == text@,
            r is Err ==> forall|s: Severity| severity_name(s) != text@,
    {
        if str_equal(text, "info") {
            Ok(Severity::Info)
        } else if str_equal(text, "low") {
            Ok(Severity::Low)
        } else if str_equal(text, "medium") {
            Ok(Severity::Medium)
        } else if str_equal(text, "high") {
            Ok(Severity::High)
        } else if str_equal(text, "critical") {
            Ok(Severity::Critical)
        } else {
            assert forall|s: Severity| severity_name(s) != text@ by {
                match s {
                    Severity::Info => {},
                    Severity::Low => {},
                    Severity::Medium => {},
                    Severity::High => {},
                    Severity::Critical => {},
                }
            }
            Err(FindingValidationError::UnknownSeverity)
        }
    }
}

/// Analytical confidence of a finding, ordered `Low < Medium < High`.
#[derive(Debug, Clone, Copy, PartialEq, Eq, Structural, Hash)]
pub enum Confidence {
    /// Low.
    Low,
    /// Medium.
    Medium,
    /// High.
    High,
}

/// Rank of a confidence level in its total order.
pub open spec fn confidence_rank(c: Confidence) -> nat {
    match c {
        Confidence::Low => 0,
        Confidence::Medium => 1,
        Confidence::High => 2,
    }
}

/// The canonical lowercase name of a confidence level.
pub open spec fn confidence_name(c: Confidence) -> Seq<char> {
    match c {
        Confidence::Low => "low"@,
        Confidence::Medium => "medium"@,
        Confidence::High => "high"@,
    }
}

impl Confidence {
    /// Rank in the order `Low < Medium < High`.
    pub fn rank(&self) -> (r: u8)
        ensures
            r == confidence_rank(*self),
    {
        match self {
            Confidence::Low => 0,
            Confidence::Medium => 1,
            Confidence::High => 2,
        }
    }

    /// Canonical lowercase name.
    pub fn as_str(&self) -> (s: &'static str)
        ensures
            s@ == confidence_name(*self),
    {
        match self {
            Confidence::Low => "low",
            Confidence::Medium => "medium",
            Confidence::High => "high",
        }
    }

    /// Parses a canonical lowercase confidence name.
    pub fn parse(text: &str) -> (r: Result<Confidence, FindingValidationError>)
        ensures
            r matches Ok(c) ==> confidence_name(c) == text@,
            r is Err ==> forall|c: Confidence| confidence_name(c) != text@,
    {
        if str_equal(text, "low") {
            Ok(Confidence::Low)
        } else if str_equal(text, "medium") {
            Ok(Confidence::Medium)
        } else if str_equal(text, "high") {
            Ok(Confidence::High)
        } else {
            assert forall|c: Confidence| confidence_name(c) != text@ by {
                match c {
                    Confidence::Low => {},
                    Confidence::Medium => {},
                    Confidence::High => {},
                }
            }
            Err(FindingValidationError::UnknownConfidence)
        }
    }
}

/// MITRE ATT&CK tactic.
#[derive(Debug, Clone, Copy, PartialEq, Eq, Structural, Hash)]
pub enum MitreTactic {
    /// TA0011 Command and Control.
    CommandAndControl,
    /// TA0010 Exfiltration.
    Exfiltration,
}

/// Who declared a MITRE ATT&CK mapping.
#[derive(Debug, Clone, PartialEq, Eq)]
pub enum MitreMappingProvenance {
    /// Declared by a primary detector.
    DetectorDeclared {
        /// Detector identifier.
        detector_id: DetectorId,
        /// Detector version.
        detector_version: DetectorVersion,
    },
    /// Declared by a finding correlator.
    CorrelatorDeclared {
        /// Correlator identifier.
        correlator_id: DetectorId,
        /// Correlator version.
        correlator_version: DetectorVersion,
    },
}

/// A detector's or correlator's static declaration of a MITRE ATT&CK technique mapping.
#[derive(Debug, Clone, PartialEq, Eq)]
pub struct MitreMappingDeclaration {
    /// Technique identifier.
    pub technique_id: MitreAttackId,
    /// Technique name.
    pub technique_name: String,
    /// Tactic.
    pub tactic: MitreTactic,
    /// Analytical rationale.
    pub rationale: String,
}

/// A MITRE ATT&CK technique mapping attached to a finding, with provenance.
#[derive(Debug, Clone, PartialEq, Eq)]
pub struct MitreMapping {
    /// Technique identifier.
    pub technique_id: MitreAttackId,
    /// Technique name.
    pub technique_name: String,
    /// Tactic.
    pub tactic: MitreTactic,
    /// Analytical rationale.
    pub rationale: String,
    /// Declaring component.
    pub provenance: MitreMappingProvenance,
}

impl MitreMapping {
    /// Instantiates a declaration with the given provenance.
    pub fn from_declaration(
        declaration: &MitreMappingDeclaration,
        provenance: MitreMappingProvenance,
    ) -> (m: MitreMapping)
        ensures
            m.technique_id@ == declaration.technique_id@,
            m.technique_name@ == declaration.technique_name@,
            m.tactic == declaration.tactic,
            m.rationale@ == declaration.rationale@,
            m.provenance == provenance,
    {
        MitreMapping {
            technique_id: declaration.technique_id.duplicate(),
            technique_name: declaration.technique_name.clone(),
            tactic: declaration.tactic,
            rationale: declaration.rationale.clone(),
            provenance,
        }
    }

    /// A copy of this mapping.
    pub fn duplicate(&self) -> (r: MitreMapping)
        ensures
            crate::views::mapping_view(r) == crate::views::mapping_view(*self),
    {
        let provenance = match &self.provenance {
            MitreMappingProvenance::DetectorDeclared { detector_id, detector_version } => {
                MitreMappingProvenance::DetectorDeclared {
                    detector_id: detector_id.duplicate(),
                    detector_version: *detector_version,
                }
            },
            MitreMappingProvenance::CorrelatorDeclared { correlator_id, correlator_version } => {
                MitreMappingProvenance::CorrelatorDeclared {
                    correlator_id: correlator_id.duplicate(),
                    correlator_version: *correlator_version,
                }
            },
        };
        MitreMapping {
            technique_id: self.technique_id.duplicate(),
            technique_name: self.technique_name.clone(),
            tactic: self.tactic,
            rationale: self.rationale.clone(),
            provenance,
        }
    }
}

/// Category of an evidence record.
#[derive(Debug, Clone, Copy, PartialEq, Eq, Structural, Hash)]
pub enum EvidenceKind {
    /// Exact temporal flow metrics.
    TemporalMetric,
    /// Measurements over a protocol observation.
    ProtocolObservation,
    /// An aggregate proportion compared against a threshold.
    RatioComparison,
}

/// Unit of an evidence measurement.
#[derive(Debug, Clone, Copy, PartialEq, Eq, Structural, Hash)]
pub enum EvidenceUnit {
    /// Dimensionless count.
    Count,
    /// Seconds.
    Seconds,
    /// Dimensionless ratio.
    Ratio,
    /// Octets.
    Bytes,
    /// Packets.
    Packets,
}

/// Comparison of a measured value against its threshold.
#[derive(Debug, Clone, Copy, PartialEq, Eq, Structural, Hash)]
pub enum EvidenceComparison {
    /// The value is at least the threshold.
    GreaterThanOrEqual,
    /// The value is at most the threshold.
    LessThanOrEqual,
}

/// An exact measured value.
#[derive(Debug, Clone, Copy, PartialEq, Eq, Structural, Hash)]
pub enum EvidenceValue {
    /// Unsigned integer.
    Unsigned(u128),
    /// Exact ratio.
    Ratio(EvidenceRatio),
    /// Exact duration.
    Duration(FlowDuration),
}

/// A named measurement, optionally compared against a configured threshold.
#[derive(Debug, Clone, PartialEq, Eq)]
pub struct EvidenceMeasurement {
    /// Metric key.
    pub metric: String,
    /// Measured value.
    pub value: EvidenceValue,
    /// Threshold and how the value compares against it.
    pub threshold: Option<(EvidenceValue, EvidenceComparison)>,
    /// Unit.
    pub unit: EvidenceUnit,
}

impl EvidenceMeasurement {
    /// A measurement without a threshold.
    pub fn new(metric: &str, value: EvidenceValue, unit: EvidenceUnit) -> (m: EvidenceMeasurement)
        ensures
            m.metric@ == metric@,
            m.value == value,
            m.threshold is None,
            m.unit == unit,
    {
        EvidenceMeasurement { metric: String::from_str(metric), value, threshold: None, unit }
    }

    /// A measurement compared against a threshold.
    pub fn with_threshold(
        metric: &str,
        value: EvidenceValue,
        threshold: EvidenceValue,
        comparison: EvidenceComparison,
        unit: EvidenceUnit,
    ) -> (m: EvidenceMeasurement)
        ensures
            m.metric@ == metric@,
            m.value == value,
            m.threshold == Some((threshold, comparison)),
            m.unit == unit,
    {
        EvidenceMeasurement {
            metric: String::from_str(metric),
            value,
            threshold: Some((threshold, comparison)),
            unit,
        }
    }
}

/// A limitation of the analysis that produced a piece of evidence.
#[derive(Debug, Clone, Copy, PartialEq, Eq, Structural, Hash)]
pub enum EvidenceLimitation {
    /// Capture bytes were truncated.
    CaptureTruncated,
    /// The packet budget was reached.
    PacketCountBudgetReached,
    /// The flow budget was reached.
    FlowBudgetReached,
    /// The observation budget was reached.
    ObservationBudgetReached,
}

/// Evidence emitted by a detector before identity assignment.
#[derive(Debug, Clone, PartialEq, Eq)]
pub struct EvidenceDraft {
    /// Category.
    pub kind: EvidenceKind,
    /// Human-readable description.
    pub description: String,
    /// Referenced packets.
    pub packet_references: Vec<PacketReference>,
    /// Referenced flows.
    pub flow_references: Vec<FlowReference>,
    /// Referenced observations.
    pub observation_references: Vec<ObservationReference>,
    /// Measurements in metric key order.
    pub measurements: Vec<EvidenceMeasurement>,
    /// Analysis limitations affecting this evidence.
    pub limitations: Vec<EvidenceLimitation>,
}

/// Accepted evidence with its canonical reference.
#[derive(Debug, Clone, PartialEq, Eq)]
pub struct EvidenceRecord {
    /// Canonical reference.
    pub reference: EvidenceReference,
    /// Evidence content.
    pub evidence: EvidenceDraft,
}

/// The entities a finding is about.
#[derive(Debug, Clone, PartialEq, Eq)]
pub struct FindingSubject {
    /// Referenced packets.
    pub packet_references: Vec<PacketReference>,
    /// Referenced flows.
    pub flow_references: Vec<FlowReference>,
    /// Referenced observations.
    pub observation_references: Vec<ObservationReference>,
}

/// The abstract content of a finding subject.
pub type SubjectView = (Seq<PacketReference>, Seq<FlowReference>, Seq<ObservationReference>);

impl FindingSubject {
    /// The referenced entities as sequences.
    pub open spec fn view_parts(&self) -> SubjectView {
        (self.packet_references@, self.flow_references@, self.observation_references@)
    }

    /// A subject naming exactly one flow.
    pub fn single_flow(flow: FlowReference) -> (s: FindingSubject)
        ensures
            s.view_parts() == (Seq::<PacketReference>::empty(), seq![flow], Seq::<
                ObservationReference,
            >::empty()),
    {
        let mut flows = Vec::new();
        flows.push(flow);
        FindingSubject {
            packet_references: Vec::new(),
            flow_references: flows,
            observation_references: Vec::new(),
        }
    }

    /// A subject naming exactly one observation.
    pub fn single_observation(obs: ObservationReference) -> (s: FindingSubject)
        ensures
            s.view_parts() == (Seq::<PacketReference>::empty(), Seq::<FlowReference>::empty(), seq![obs]),
    {
        let mut observations = Vec::new();
        observations.push(obs);
        FindingSubject {
            packet_references: Vec::new(),
            flow_references: Vec::new(),
            observation_references: observations,
        }
    }

    /// Whether two subjects reference exactly the same entities.
    pub fn same_as(&self, other: &FindingSubject) -> (b: bool)
        ensures
            b == (self.view_parts() == other.view_parts()),
    {
        let b1 = vec_eq_packets(&self.packet_references, &other.packet_references);
        let b2 = vec_eq_flows(&self.flow_references, &other.flow_references);
        let b3 = vec_eq_observations(&self.observation_references, &other.observation_references);
        b1 && b2 && b3
    }

    /// A copy of this subject.
    pub fn duplicate(&self) -> (r: FindingSubject)
        ensures
            r.view_parts() == self.view_parts(),
    {
        FindingSubject {
            packet_references: copy_vec(&self.packet_references),
            flow_references: copy_vec(&self.flow_references),
            observation_references: copy_vec(&self.observation_references),
        }
    }
}

/// A copy of a vector of copyable references.
pub fn copy_vec<T: Copy>(v: &Vec<T>) -> (r: Vec<T>)
    ensures
        r@ == v@,
{
    let mut r = Vec::new();
    let n = v.len();
    let mut i: usize = 0;
    while i < n
        invariant
            n == v@.len(),
            i <= n,
            r@ == v@.take(i as int),
        decreases n - i,
    {
        r.push(v[i]);
        i = i + 1;
        assert(r@ =~= v@.take(i as int));
    }
    assert(v@.take(n as int) =~= v@);
    r
}

fn vec_eq_packets(a: &Vec<PacketReference>, b: &Vec<PacketReference>) -> (r: bool)
    ensures
        r == (a@ == b@),
{
    if a.len() != b.len() {
        return false;
    }
    let n = a.len();
    let mut i: usize = 0;
    while i < n
        invariant
            n == a@.len(),
            n == b@.len(),
            i <= n,
            forall|j: int| 0 <= j < i ==> a@[j] == b@[j],
        decreases n - i,
    {
        if a[i] != b[i] {
            return false;
        }
        i = i + 1;
    }
    assert(a@ =~= b@);
    true
}

fn vec_eq_flows(a: &Vec<FlowReference>, b: &Vec<FlowReference>) -> (r: bool)
    ensures
        r == (a@ == b@),
{
    if a.len() != b.len() {
        return false;
    }
    let n = a.len();
    let mut i: usize = 0;
    while i < n
        invariant
            n == a@.len(),
            n == b@.len(),
            i <= n,
            forall|j: int| 0 <= j < i ==> a@[j] == b@[j],
        decreases n - i,
    {
        if a[i].ordinal != b[i].ordinal {
            return false;
        }
        i = i + 1;
    }
    assert(a@ =~= b@);
    true
}

fn vec_eq_observations(a: &Vec<ObservationReference>, b: &Vec<ObservationReference>) -> (r: bool)
    ensures
        r == (a@ == b@),
{
    if a.len() != b.len() {
        return false;
    }
    let n = a.len();
    let mut i: usize = 0;
    while i < n
        invariant
            n == a@.len(),
            n == b@.len(),
            i <= n,
            forall|j: int| 0 <= j < i ==> a@[j] == b@[j],
        decreases n - i,
    {
        if a[i] != b[i] {
            return false;
        }
        i = i + 1;
    }
    assert(a@ =~= b@);
    true
}

/// A finding emitted by a detector before identity assignment.
#[derive(Debug, Clone, PartialEq, Eq)]
pub struct FindingDraft {
    /// Subject.
    pub subject: FindingSubject,
    /// Title.
    pub title: String,
    /// Summary.
    pub summary: String,
    /// Rationale.
    pub rationale: String,
    /// Severity.
    pub severity: Severity,
    /// Confidence.
    pub confidence: Confidence,
    /// Supporting evidence.
    pub evidence: Vec<EvidenceDraft>,
    /// MITRE ATT&CK mappings.
    pub mitre_mappings: Vec<MitreMapping>,
}

/// An accepted finding with its canonical reference.
#[derive(Debug, Clone, PartialEq, Eq)]
pub struct FindingRecord {
    /// Canonical reference.
    pub reference: FindingReference,
    /// Originating detector or correlator.
    pub detector_id: DetectorId,
    /// Originating component version.
    pub detector_version: DetectorVersion,
    /// Subject.
    pub subject: FindingSubject,
    /// Title.
    pub title: String,
    /// Summary.
    pub summary: String,
    /// Rationale.
    pub rationale: String,
    /// Severity.
    pub severity: Severity,
    /// Confidence.
    pub confidence: Confidence,
    /// Supporting evidence references.
    pub evidence_references: Vec<EvidenceReference>,
    /// Source findings (correlated findings only).
    pub source_finding_references: Vec<FindingReference>,
    /// MITRE ATT&CK mappings.
    pub mitre_mappings: Vec<MitreMapping>,
}

} // verus!

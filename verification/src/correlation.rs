//! Cross-detector finding correlation: correlator metadata, correlation drafts and their
//! sink, the correlator trait, and the correlator registry.
//!
//! Correlated findings reuse existing evidence records without generating new evidence.

use vstd::prelude::*;
use crate::domain::{
    Confidence, DetectorId, DetectorVersion, EvidenceReference, FindingRecord, FindingReference,
    FindingSubject, FindingValidationError, MitreMapping, Severity, SubjectView,
    HARD_MAX_MITRE_MAPPINGS_PER_FINDING, EvidenceRecord,
};
use crate::error::{is_control_char, DetectorExecutionError, DetectorRegistryError};
use crate::registry::{ids_sorted, lemma_ids_pairwise};
use crate::text::{lemma_lex_lt_asymmetric, lemma_lex_lt_irreflexive, lemma_lex_lt_transitive, text_bytes, text_lt, Order};
use crate::views::{mapping_views, MappingView};

verus! {

broadcast use vstd::string::group_string_axioms;

/// Maximum byte length of a correlator description.
pub const MAX_CORRELATOR_DESCRIPTION_LENGTH: usize = 512;

/// Maximum number of required primary detectors of a correlator.
pub const HARD_MAX_REQUIRED_PRIMARY_DETECTOR_IDS: usize = 16;

/// Default maximum evidence references of a correlated finding.
pub const DEFAULT_MAX_CORRELATION_EVIDENCE_REFERENCES: usize = 128;

/// Maximum evidence references of a correlated finding.
pub const HARD_MAX_CORRELATION_EVIDENCE_REFERENCES: usize = 4_096;

/// Maximum source finding references of a correlated finding.
pub const HARD_MAX_SOURCE_FINDING_REFERENCES: usize = 256;

/// Default maximum registered correlators.
pub const DEFAULT_MAX_REGISTERED_CORRELATORS: usize = 16;

/// Maximum registered correlators.
pub const HARD_MAX_REGISTERED_CORRELATORS: usize = 64;

/// A valid description: non-empty, at most [`MAX_CORRELATOR_DESCRIPTION_LENGTH`] UTF-8
/// bytes, without control characters.
pub open spec fn valid_description(s: Seq<char>) -> bool {
    &&& s.len() > 0
    &&& text_bytes(s).len() <= MAX_CORRELATOR_DESCRIPTION_LENGTH
    &&& forall|i: int| 0 <= i < s.len() ==> !is_control_char(#[trigger] s[i])
}

/// Validated, terminal-safe description of a correlator heuristic.
#[derive(Debug, PartialEq, Eq)]
pub struct CorrelatorDescription {
    text: String,
}

impl View for CorrelatorDescription {
    type V = Seq<char>;

    closed spec fn view(&self) -> Seq<char> {
        self.text@
    }
}

impl CorrelatorDescription {
    /// A description from text known to be valid.
    pub(crate) fn from_valid(text: &str) -> (d: CorrelatorDescription)
        requires
            valid_description(text@),
        ensures
            d@ == text@,
    {
        CorrelatorDescription { text: String::from_str(text) }
    }

    /// Validates a description: empty text, text over the byte limit and text with a control
    /// character are rejected, in that order.
    pub fn try_new(text: &str) -> (r: Result<CorrelatorDescription, FindingValidationError>)
        ensures
            r is Ok <==> valid_description(text@),
            r matches Ok(d) ==> d@ == text@,
            text@.len() == 0 ==> r == Err::<CorrelatorDescription, FindingValidationError>(
                FindingValidationError::EmptyFindingSummary,
            ),
            text@.len() > 0 && text_bytes(text@).len() > MAX_CORRELATOR_DESCRIPTION_LENGTH ==> r
                == Err::<CorrelatorDescription, FindingValidationError>(
                FindingValidationError::FindingSummaryTooLong {
                    length: text_bytes(text@).len() as usize,
                    max: MAX_CORRELATOR_DESCRIPTION_LENGTH,
                },
            ),
            text@.len() > 0 && text_bytes(text@).len() <= MAX_CORRELATOR_DESCRIPTION_LENGTH && !valid_description(
                text@,
            ) ==> (r matches Err(FindingValidationError::FindingSummaryControlCharacter { byte }) && exists|i: int|
                0 <= i < text@.len() && is_control_char(#[trigger] text@[i]) && (forall|j: int|
                    0 <= j < i ==> !is_control_char(#[trigger] text@[j])) && byte as u32 == text@[i] as u32),
            r matches Err(e) ==> e is EmptyFindingSummary || e is FindingSummaryTooLong
                || e is FindingSummaryControlCharacter,
    {
        let n = text.unicode_len();
        if n == 0 {
            return Err(FindingValidationError::EmptyFindingSummary);
        }
        let bytes = text.as_bytes().len();
        assert(bytes == text_bytes(text@).len());
        if bytes > MAX_CORRELATOR_DESCRIPTION_LENGTH {
            return Err(FindingValidationError::FindingSummaryTooLong { length: bytes, max: MAX_CORRELATOR_DESCRIPTION_LENGTH });
        }
        let mut i: usize = 0;
        while i < n
            invariant
                n == text@.len(),
                i <= n,
                text_bytes(text@).len() <= MAX_CORRELATOR_DESCRIPTION_LENGTH,
                forall|j: int| 0 <= j < i ==> !is_control_char(#[trigger] text@[j]),
            decreases n - i,
        {
            let c = text.get_char(i);
            let code = c as u32;
            if code <= 0x1f || (0x7f <= code && code <= 0x9f) {
                assert(is_control_char(text@[i as int]));
                return Err(FindingValidationError::FindingSummaryControlCharacter { byte: code as u8 });
            }
            i = i + 1;
        }
        Ok(CorrelatorDescription { text: String::from_str(text) })
    }

    /// Returns the description text.
    pub fn as_str(&self) -> (s: &str)
        ensures
            s@ == self@,
    {
        self.text.as_str()
    }
}

/// Metadata describing a finding correlator.
#[derive(Debug, PartialEq, Eq)]
pub struct CorrelatorMetadata {
    id: DetectorId,
    version: DetectorVersion,
    description: CorrelatorDescription,
    required_primary_detector_ids: Vec<DetectorId>,
}

/// The identifiers of a list of detector identifiers.
pub open spec fn id_views(s: Seq<DetectorId>) -> Seq<Seq<char>> {
    s.map_values(|d: DetectorId| d@)
}

impl CorrelatorMetadata {
    /// The correlator identifier.
    pub closed spec fn spec_id(&self) -> Seq<char> {
        self.id@
    }

    /// The correlator version.
    pub closed spec fn spec_version(&self) -> DetectorVersion {
        self.version
    }

    /// The description.
    pub closed spec fn spec_description(&self) -> Seq<char> {
        self.description@
    }

    /// The required primary detector identifiers.
    pub closed spec fn spec_required(&self) -> Seq<Seq<char>> {
        id_views(self.required_primary_detector_ids@)
    }

    /// Required primary detectors are bounded in number and strictly sorted.
    #[verifier::type_invariant]
    closed spec fn inv(self) -> bool {
        &&& self.required_primary_detector_ids@.len() <= HARD_MAX_REQUIRED_PRIMARY_DETECTOR_IDS
        &&& ids_sorted(id_views(self.required_primary_detector_ids@))
    }

    /// Creates and validates correlator metadata: at most
    /// [`HARD_MAX_REQUIRED_PRIMARY_DETECTOR_IDS`] required primary detectors, strictly sorted.
    pub fn try_new(
        id: DetectorId,
        version: DetectorVersion,
        description: CorrelatorDescription,
        required_primary_detector_ids: Vec<DetectorId>,
    ) -> (r: Result<CorrelatorMetadata, DetectorRegistryError>)
        ensures
            r is Ok <==> required_primary_detector_ids@.len() <= HARD_MAX_REQUIRED_PRIMARY_DETECTOR_IDS
                && ids_sorted(id_views(required_primary_detector_ids@)),
            r matches Ok(m) ==> m.spec_id() == id@ && m.spec_version() == version && m.spec_description()
                == description@ && m.spec_required() == id_views(required_primary_detector_ids@),
            r matches Err(e) ==> (e matches DetectorRegistryError::InvalidRequiredPrimaryDetectorIds {
                correlator_id,
                reason,
            } && correlator_id@ == id@),
    {
        let n = required_primary_detector_ids.len();
        if n > HARD_MAX_REQUIRED_PRIMARY_DETECTOR_IDS {
            return Err(
                DetectorRegistryError::InvalidRequiredPrimaryDetectorIds {
                    correlator_id: id,
                    reason: "required primary detector count exceeds hard maximum limit",
                },
            );
        }
        let ghost ids = id_views(required_primary_detector_ids@);
        let mut i: usize = 0;
        while i < n && i + 1 < n
            invariant
                n == required_primary_detector_ids@.len(),
                n <= HARD_MAX_REQUIRED_PRIMARY_DETECTOR_IDS,
                ids == id_views(required_primary_detector_ids@),
                forall|j: int| 0 <= j < i && j < n - 1 ==> #[trigger] crate::domain::detector_id_lt(ids[j], ids[j + 1]),
            decreases n - i,
        {
            let o = required_primary_detector_ids[i + 1].compare(&required_primary_detector_ids[i]);
            assert(ids[i as int] == required_primary_detector_ids@[i as int]@);
            assert(ids[i + 1] == required_primary_detector_ids@[i + 1]@);
            match o {
                Order::Equal => {
                    proof {
                        lemma_lex_lt_irreflexive(text_bytes(ids[i as int]));
                        assert(!crate::domain::detector_id_lt(ids[i as int], ids[i + 1]));
                    }
                    return Err(
                        DetectorRegistryError::InvalidRequiredPrimaryDetectorIds {
                            correlator_id: id,
                            reason: "duplicate required primary detector ID declared",
                        },
                    );
                },
                Order::Less => {
                    proof {
                        lemma_lex_lt_asymmetric(text_bytes(ids[i + 1]), text_bytes(ids[i as int]));
                        assert(!crate::domain::detector_id_lt(ids[i as int], ids[i + 1]));
                    }
                    return Err(
                        DetectorRegistryError::InvalidRequiredPrimaryDetectorIds {
                            correlator_id: id,
                            reason: "required primary detector IDs must be strictly sorted",
                        },
                    );
                },
                Order::Greater => {},
            }
            i = i + 1;
        }
        Ok(CorrelatorMetadata { id, version, description, required_primary_detector_ids })
    }

    /// Metadata from parts known to satisfy the validation conditions.
    pub(crate) fn from_valid(
        id: DetectorId,
        version: DetectorVersion,
        description: CorrelatorDescription,
        required_primary_detector_ids: Vec<DetectorId>,
    ) -> (m: CorrelatorMetadata)
        requires
            required_primary_detector_ids@.len() <= HARD_MAX_REQUIRED_PRIMARY_DETECTOR_IDS,
            ids_sorted(id_views(required_primary_detector_ids@)),
        ensures
            m.spec_id() == id@,
            m.spec_version() == version,
            m.spec_description() == description@,
            m.spec_required() == id_views(required_primary_detector_ids@),
    {
        CorrelatorMetadata { id, version, description, required_primary_detector_ids }
    }

    /// Returns the correlator identifier.
    pub fn id(&self) -> (r: &DetectorId)
        ensures
            r@ == self.spec_id(),
    {
        &self.id
    }

    /// Returns the correlator version.
    pub fn version(&self) -> (v: DetectorVersion)
        ensures
            v == self.spec_version(),
    {
        self.version
    }

    /// Returns the description.
    pub fn description(&self) -> (s: &str)
        ensures
            s@ == self.spec_description(),
    {
        self.description.as_str()
    }

    /// Returns the required primary detector identifiers, strictly sorted.
    pub fn required_primary_detector_ids(&self) -> (s: &[DetectorId])
        ensures
            id_views(s@) == self.spec_required(),
            ids_sorted(self.spec_required()),
            s@.len() <= HARD_MAX_REQUIRED_PRIMARY_DETECTOR_IDS,
    {
        proof { use_type_invariant(self); }
        self.required_primary_detector_ids.as_slice()
    }
}

/// Identifiers of references strictly increase between neighbours.
pub open spec fn evidence_ids_increasing(s: Seq<EvidenceReference>) -> bool {
    forall|i: int| 0 <= i < s.len() - 1 ==> #[trigger] s[i].id < s[i + 1].id
}

/// Identifiers of references strictly increase between neighbours.
pub open spec fn finding_ids_increasing(s: Seq<FindingReference>) -> bool {
    forall|i: int| 0 <= i < s.len() - 1 ==> #[trigger] s[i].id < s[i + 1].id
}

/// Technique identifiers of mappings strictly increase between neighbours.
pub open spec fn mappings_sorted(s: Seq<MappingView>) -> bool {
    forall|i: int| 0 <= i < s.len() - 1 ==> #[trigger] text_lt(s[i].0, s[i + 1].0)
}

/// The validity conditions of a correlated finding draft.
pub open spec fn valid_correlation_parts(
    evidence: Seq<EvidenceReference>,
    sources: Seq<FindingReference>,
    mappings: Seq<MappingView>,
) -> bool {
    &&& 0 < evidence.len() <= HARD_MAX_CORRELATION_EVIDENCE_REFERENCES
    &&& 2 <= sources.len() <= HARD_MAX_SOURCE_FINDING_REFERENCES
    &&& evidence_ids_increasing(evidence)
    &&& finding_ids_increasing(sources)
    &&& mappings.len() <= HARD_MAX_MITRE_MAPPINGS_PER_FINDING
    &&& mappings_sorted(mappings)
}

/// Subject, title, summary, rationale, severity, confidence, evidence references, source
/// finding references, mappings.
pub type CorrelationView = (
    SubjectView,
    Seq<char>,
    Seq<char>,
    Seq<char>,
    Severity,
    Confidence,
    Seq<EvidenceReference>,
    Seq<FindingReference>,
    Seq<MappingView>,
);

/// Draft finding emitted by a correlator, referencing primary findings and existing evidence.
#[derive(Debug, PartialEq, Eq)]
pub struct CorrelationDraft {
    subject: FindingSubject,
    title: String,
    summary: String,
    rationale: String,
    severity: Severity,
    confidence: Confidence,
    evidence_references: Vec<EvidenceReference>,
    source_finding_references: Vec<FindingReference>,
    mitre_mappings: Vec<MitreMapping>,
}

impl View for CorrelationDraft {
    type V = CorrelationView;

    closed spec fn view(&self) -> CorrelationView {
        (
            self.subject.view_parts(),
            self.title@,
            self.summary@,
            self.rationale@,
            self.severity,
            self.confidence,
            self.evidence_references@,
            self.source_finding_references@,
            mapping_views(self.mitre_mappings@),
        )
    }
}

impl CorrelationDraft {
    /// A validated draft satisfies the correlation conditions.
    #[verifier::type_invariant]
    closed spec fn inv(self) -> bool {
        valid_correlation_parts(
            self.evidence_references@,
            self.source_finding_references@,
            mapping_views(self.mitre_mappings@),
        )
    }

    /// Creates and validates a correlation draft. Checks, in order: evidence present and
    /// within bounds, at least two and at most [`HARD_MAX_SOURCE_FINDING_REFERENCES`] sources,
    /// strictly increasing evidence and source identifiers, mappings within bounds and strictly
    /// sorted by technique.
    pub fn try_new(
        subject: FindingSubject,
        title: String,
        summary: String,
        rationale: String,
        severity: Severity,
        confidence: Confidence,
        evidence_references: Vec<EvidenceReference>,
        source_finding_references: Vec<FindingReference>,
        mitre_mappings: Vec<MitreMapping>,
    ) -> (r: Result<CorrelationDraft, FindingValidationError>)
        ensures
            r is Ok <==> valid_correlation_parts(
                evidence_references@,
                source_finding_references@,
                mapping_views(mitre_mappings@),
            ),
            r matches Ok(d) ==> d@ == (
                subject.view_parts(),
                title@,
                summary@,
                rationale@,
                severity,
                confidence,
                evidence_references@,
                source_finding_references@,
                mapping_views(mitre_mappings@),
            ),
            evidence_references@.len() == 0 ==> r == Err::<CorrelationDraft, FindingValidationError>(
                FindingValidationError::FindingWithoutEvidence,
            ),
            0 < evidence_references@.len() <= HARD_MAX_CORRELATION_EVIDENCE_REFERENCES
                && source_finding_references@.len() < 2 ==> r == Err::<
                CorrelationDraft,
                FindingValidationError,
            >(
                FindingValidationError::InsufficientSourceFindingReferences {
                    count: source_finding_references@.len() as usize,
                    minimum: 2,
                },
            ),
    {
        let ne = evidence_references.len();
        if ne == 0 {
            return Err(FindingValidationError::FindingWithoutEvidence);
        }
        if ne > HARD_MAX_CORRELATION_EVIDENCE_REFERENCES {
            return Err(FindingValidationError::EvidenceReferencesExceeded { count: ne, max: HARD_MAX_CORRELATION_EVIDENCE_REFERENCES });
        }
        let ns = source_finding_references.len();
        if ns < 2 {
            return Err(FindingValidationError::InsufficientSourceFindingReferences { count: ns, minimum: 2 });
        }
        if ns > HARD_MAX_SOURCE_FINDING_REFERENCES {
            return Err(FindingValidationError::SourceFindingReferencesExceeded { count: ns, max: HARD_MAX_SOURCE_FINDING_REFERENCES });
        }
        let mut i: usize = 0;
        while i + 1 < ne
            invariant
                ne == evidence_references@.len(),
                0 < ne <= HARD_MAX_CORRELATION_EVIDENCE_REFERENCES,
                i <= ne,
                ns == source_finding_references@.len(),
                2 <= ns <= HARD_MAX_SOURCE_FINDING_REFERENCES,
                forall|j: int| 0 <= j < i && j < ne - 1 ==> #[trigger] evidence_references@[j].id < evidence_references@[j + 1].id,
            decreases ne - i,
        {
            let prev = evidence_references[i].id;
            let curr = evidence_references[i + 1].id;
            if curr == prev {
                return Err(FindingValidationError::DuplicateEvidenceReference(evidence_references[i + 1]));
            }
            if curr < prev {
                return Err(FindingValidationError::OutOfOrderEvidenceReference { previous: prev, attempted: curr });
            }
            i = i + 1;
        }
        let mut k: usize = 0;
        while k + 1 < ns
            invariant
                ne == evidence_references@.len(),
                0 < ne <= HARD_MAX_CORRELATION_EVIDENCE_REFERENCES,
                ns == source_finding_references@.len(),
                2 <= ns <= HARD_MAX_SOURCE_FINDING_REFERENCES,
                evidence_ids_increasing(evidence_references@),
                k <= ns,
                forall|j: int| 0 <= j < k && j < ns - 1 ==> #[trigger] source_finding_references@[j].id < source_finding_references@[j + 1].id,
            decreases ns - k,
        {
            let prev = source_finding_references[k].id;
            let curr = source_finding_references[k + 1].id;
            if curr == prev {
                return Err(FindingValidationError::DuplicateSourceFindingReference(source_finding_references[k + 1]));
            }
            if curr < prev {
                return Err(FindingValidationError::OutOfOrderSourceFindingReference { previous: prev, attempted: curr });
            }
            k = k + 1;
        }
        let nm = mitre_mappings.len();
        if nm > HARD_MAX_MITRE_MAPPINGS_PER_FINDING {
            return Err(FindingValidationError::MitreMappingsExceeded { count: nm, max: HARD_MAX_MITRE_MAPPINGS_PER_FINDING });
        }
        let ghost mv = mapping_views(mitre_mappings@);
        let mut m: usize = 0;
        while m + 1 < nm
            invariant
                nm == mitre_mappings@.len(),
                nm <= HARD_MAX_MITRE_MAPPINGS_PER_FINDING,
                m <= nm,
                ne == evidence_references@.len(),
                0 < ne <= HARD_MAX_CORRELATION_EVIDENCE_REFERENCES,
                ns == source_finding_references@.len(),
                2 <= ns <= HARD_MAX_SOURCE_FINDING_REFERENCES,
                evidence_ids_increasing(evidence_references@),
                finding_ids_increasing(source_finding_references@),
                mv == mapping_views(mitre_mappings@),
                forall|j: int| 0 <= j < m && j < nm - 1 ==> #[trigger] text_lt(mv[j].0, mv[j + 1].0),
            decreases nm - m,
        {
            let o = mitre_mappings[m + 1].technique_id.compare(&mitre_mappings[m].technique_id);
            assert(mv[m as int].0 == mitre_mappings@[m as int].technique_id@);
            assert(mv[m + 1].0 == mitre_mappings@[m + 1].technique_id@);
            match o {
                Order::Equal => {
                    proof {
                        lemma_lex_lt_irreflexive(text_bytes(mv[m as int].0));
                        assert(!text_lt(mv[m as int].0, mv[m + 1].0));
                    }
                    return Err(FindingValidationError::DuplicateMitreMapping(mitre_mappings[m + 1].technique_id.duplicate()));
                },
                Order::Less => {
                    proof {
                        lemma_lex_lt_asymmetric(text_bytes(mv[m + 1].0), text_bytes(mv[m as int].0));
                        assert(!text_lt(mv[m as int].0, mv[m + 1].0));
                    }
                    return Err(FindingValidationError::OutOfOrderMitreMapping);
                },
                Order::Greater => {},
            }
            m = m + 1;
        }
        Ok(
            CorrelationDraft {
                subject,
                title,
                summary,
                rationale,
                severity,
                confidence,
                evidence_references,
                source_finding_references,
                mitre_mappings,
            },
        )
    }

    /// Returns the finding subject.
    pub fn subject(&self) -> (s: &FindingSubject)
        ensures
            s.view_parts() == self@.0,
    {
        &self.subject
    }

    /// Returns the title.
    pub fn title(&self) -> (s: &str)
        ensures
            s@ == self@.1,
    {
        self.title.as_str()
    }

    /// Returns the summary.
    pub fn summary(&self) -> (s: &str)
        ensures
            s@ == self@.2,
    {
        self.summary.as_str()
    }

    /// Returns the rationale.
    pub fn rationale(&self) -> (s: &str)
        ensures
            s@ == self@.3,
    {
        self.rationale.as_str()
    }

    /// Returns the severity.
    pub fn severity(&self) -> (s: Severity)
        ensures
            s == self@.4,
    {
        self.severity
    }

    /// Returns the confidence.
    pub fn confidence(&self) -> (c: Confidence)
        ensures
            c == self@.5,
    {
        self.confidence
    }

    /// Returns the supporting evidence references, strictly increasing.
    pub fn evidence_references(&self) -> (s: &[EvidenceReference])
        ensures
            s@ == self@.6,
            valid_correlation_parts(self@.6, self@.7, self@.8),
    {
        proof { use_type_invariant(self); }
        self.evidence_references.as_slice()
    }

    /// Returns the source finding references, strictly increasing.
    pub fn source_finding_references(&self) -> (s: &[FindingReference])
        ensures
            s@ == self@.7,
            valid_correlation_parts(self@.6, self@.7, self@.8),
    {
        proof { use_type_invariant(self); }
        self.source_finding_references.as_slice()
    }

    /// Returns the MITRE ATT&CK mappings, strictly sorted by technique.
    pub fn mitre_mappings(&self) -> (s: &[MitreMapping])
        ensures
            mapping_views(s@) == self@.8,
    {
        self.mitre_mappings.as_slice()
    }
}

/// Bounded output sink for correlation drafts.
#[derive(Debug)]
pub struct CorrelationDraftSink {
    max_findings: usize,
    drafts: Vec<CorrelationDraft>,
}

/// The abstract contents of a list of correlation drafts.
pub open spec fn correlation_views(s: Seq<CorrelationDraft>) -> Seq<CorrelationView> {
    s.map_values(|d: CorrelationDraft| d@)
}

impl CorrelationDraftSink {
    /// Accepted drafts.
    pub closed spec fn spec_drafts(&self) -> Seq<CorrelationDraft> {
        self.drafts@
    }

    /// Finding capacity.
    pub closed spec fn spec_capacity(&self) -> nat {
        self.max_findings as nat
    }

    /// Accepted drafts stay within the capacity.
    #[verifier::type_invariant]
    closed spec fn inv(self) -> bool {
        self.drafts@.len() <= self.max_findings
    }

    /// Creates an empty sink with a finite finding capacity.
    pub fn new(max_findings: usize) -> (s: CorrelationDraftSink)
        ensures
            s.spec_drafts() == Seq::<CorrelationDraft>::empty(),
            s.spec_capacity() == max_findings,
    {
        CorrelationDraftSink { max_findings, drafts: Vec::new() }
    }

    /// Appends a draft; fails with a resource limit error, keeping the sink unchanged, when
    /// the capacity is reached.
    pub fn push(&mut self, draft: CorrelationDraft) -> (r: Result<(), DetectorExecutionError>)
        ensures
            final(self).spec_capacity() == old(self).spec_capacity(),
            r is Ok <==> old(self).spec_drafts().len() < old(self).spec_capacity(),
            r is Ok ==> final(self).spec_drafts() == old(self).spec_drafts().push(draft),
            r is Err ==> final(self).spec_drafts() == old(self).spec_drafts(),
            r matches Err(e) ==> e is ResourceLimitExceeded,
    {
        proof { use_type_invariant(&*self); }
        if self.drafts.len() >= self.max_findings {
            return Err(DetectorExecutionError::resource_limit("correlation draft sink finding capacity exceeded"));
        }
        let mut taken = CorrelationDraftSink::new(self.max_findings);
        std::mem::swap(&mut taken, self);
        let CorrelationDraftSink { max_findings, mut drafts } = taken;
        drafts.push(draft);
        *self = CorrelationDraftSink { max_findings, drafts };
        Ok(())
    }

    /// Returns the number of drafts in the sink.
    pub fn len(&self) -> (n: usize)
        ensures
            n == self.spec_drafts().len(),
            n <= self.spec_capacity(),
    {
        proof { use_type_invariant(self); }
        self.drafts.len()
    }

    /// Returns `true` if the sink contains no drafts.
    pub fn is_empty(&self) -> (b: bool)
        ensures
            b == (self.spec_drafts().len() == 0),
    {
        self.drafts.len() == 0
    }

    /// Consumes the sink, returning all accumulated drafts.
    pub fn into_drafts(self) -> (d: Vec<CorrelationDraft>)
        ensures
            d@ == self.spec_drafts(),
            d@.len() <= self.spec_capacity(),
    {
        proof { use_type_invariant(&self); }
        self.drafts
    }
}

/// Post-evaluation cross-detector correlation heuristic.
///
/// Implementations read an immutable snapshot of primary findings and the evidence pool and
/// report correlated drafts only through the sink.
pub trait FindingCorrelator {
    /// The correlator's metadata.
    spec fn spec_metadata(&self) -> CorrelatorMetadata;

    /// Returns the static metadata for this correlator.
    fn metadata(&self) -> (m: &CorrelatorMetadata)
        ensures
            *m == self.spec_metadata(),
    ;

    /// The drafts a successful correlation of these primary findings and evidence emits, in
    /// order.
    spec fn spec_correlations(&self, primary: Seq<FindingRecord>, evidence: Seq<EvidenceRecord>) -> Seq<
        CorrelationView,
    >;

    /// Whether correlating succeeds on a sink that already holds `prior` and has this
    /// capacity.
    spec fn spec_correlates(
        &self,
        primary: Seq<FindingRecord>,
        evidence: Seq<EvidenceRecord>,
        prior: Seq<CorrelationView>,
        capacity: nat,
    ) -> bool;

    /// Whether a correlation that fails, on a sink holding `prior` with this capacity, fails
    /// with an internal error rather than by exceeding the capacity.
    spec fn spec_fails_internally(
        &self,
        primary: Seq<FindingRecord>,
        evidence: Seq<EvidenceRecord>,
        prior: Seq<CorrelationView>,
        capacity: nat,
    ) -> bool;

    /// Evaluates primary findings and evidence, emitting correlated finding drafts: on success
    /// the drafts follow those already in the sink.
    fn correlate(
        &self,
        primary_findings: &[FindingRecord],
        evidence_pool: &[EvidenceRecord],
        output: &mut CorrelationDraftSink,
    ) -> (r: Result<(), DetectorExecutionError>)
        ensures
            final(output).spec_capacity() == old(output).spec_capacity(),
            r is Ok <==> self.spec_correlates(
                primary_findings@,
                evidence_pool@,
                correlation_views(old(output).spec_drafts()),
                old(output).spec_capacity(),
            ),
            r is Ok ==> correlation_views(final(output).spec_drafts()) == correlation_views(old(output).spec_drafts())
                + self.spec_correlations(primary_findings@, evidence_pool@),
            r matches Err(e) ==> (e is InternalError <==> self.spec_fails_internally(
                primary_findings@,
                evidence_pool@,
                correlation_views(old(output).spec_drafts()),
                old(output).spec_capacity(),
            )),
    ;
}

/// The identifiers of a sequence of correlators.
pub open spec fn correlator_ids<C: FindingCorrelator>(s: Seq<C>) -> Seq<Seq<char>> {
    s.map_values(|c: C| c.spec_metadata().spec_id())
}

/// Deterministic, bounded registry of finding correlators, kept in canonical identifier order.
pub struct CorrelationRegistry<C: FindingCorrelator> {
    correlators: Vec<C>,
    max_registered_correlators: usize,
}

impl<C: FindingCorrelator> CorrelationRegistry<C> {
    /// The registered correlators, in canonical order.
    pub closed spec fn spec_correlators(&self) -> Seq<C> {
        self.correlators@
    }

    /// The configured capacity.
    pub closed spec fn spec_capacity(&self) -> nat {
        self.max_registered_correlators as nat
    }

    /// Identifiers of the registered correlators.
    pub open spec fn ids(&self) -> Seq<Seq<char>> {
        correlator_ids(self.spec_correlators())
    }

    /// Sorted unique identifiers within a capacity in range.
    #[verifier::type_invariant]
    closed spec fn inv(self) -> bool {
        &&& ids_sorted(correlator_ids(self.correlators@))
        &&& self.correlators@.len() <= self.max_registered_correlators
        &&& 0 < self.max_registered_correlators <= HARD_MAX_REGISTERED_CORRELATORS
    }

    /// Creates an empty registry; the capacity must be between 1 and
    /// [`HARD_MAX_REGISTERED_CORRELATORS`].
    pub fn new(max_registered_correlators: usize) -> (r: Result<CorrelationRegistry<C>, DetectorRegistryError>)
        ensures
            r is Ok <==> 0 < max_registered_correlators <= HARD_MAX_REGISTERED_CORRELATORS,
            r matches Ok(reg) ==> reg.spec_correlators() == Seq::<C>::empty() && reg.spec_capacity()
                == max_registered_correlators,
            max_registered_correlators == 0 ==> r matches Err(DetectorRegistryError::ZeroRegistryCapacity),
            max_registered_correlators > HARD_MAX_REGISTERED_CORRELATORS ==> (r matches Err(
                DetectorRegistryError::RegistryCapacityAboveHardMaximum { attempted, max },
            ) && attempted == max_registered_correlators && max == HARD_MAX_REGISTERED_CORRELATORS),
    {
        if max_registered_correlators == 0 {
            return Err(DetectorRegistryError::ZeroRegistryCapacity);
        }
        if max_registered_correlators > HARD_MAX_REGISTERED_CORRELATORS {
            return Err(
                DetectorRegistryError::RegistryCapacityAboveHardMaximum {
                    attempted: max_registered_correlators,
                    max: HARD_MAX_REGISTERED_CORRELATORS,
                },
            );
        }
        Ok(CorrelationRegistry { correlators: Vec::new(), max_registered_correlators })
    }

    /// Creates an empty registry with the default capacity.
    pub fn empty() -> (reg: CorrelationRegistry<C>)
        ensures
            reg.spec_correlators() == Seq::<C>::empty(),
            reg.spec_capacity() == DEFAULT_MAX_REGISTERED_CORRELATORS,
    {
        CorrelationRegistry { correlators: Vec::new(), max_registered_correlators: DEFAULT_MAX_REGISTERED_CORRELATORS }
    }

    /// Registers a correlator at its canonical position. A duplicate identifier is reported
    /// before a full registry.
    pub fn register(&mut self, correlator: C) -> (r: Result<(), DetectorRegistryError>)
        ensures
            final(self).spec_capacity() == old(self).spec_capacity(),
            r is Ok <==> old(self).spec_correlators().len() < old(self).spec_capacity() && !old(
                self,
            ).ids().contains(correlator.spec_metadata().spec_id()),
            r is Err ==> final(self).spec_correlators() == old(self).spec_correlators(),
            r is Ok ==> exists|i: int|
                0 <= i <= old(self).spec_correlators().len() && final(self).spec_correlators() == old(
                    self,
                ).spec_correlators().insert(i, correlator),
            old(self).ids().contains(correlator.spec_metadata().spec_id()) ==> (r matches Err(
                DetectorRegistryError::DuplicateDetectorId(id),
            ) && id@ == correlator.spec_metadata().spec_id()),
            !old(self).ids().contains(correlator.spec_metadata().spec_id()) && old(
                self,
            ).spec_correlators().len() >= old(self).spec_capacity() ==> (r matches Err(
                DetectorRegistryError::RegistryCapacityExceeded { count, max },
            ) && count == old(self).spec_correlators().len() + 1 && max == old(self).spec_capacity()),
    {
        proof { use_type_invariant(&*self); }
        let n = self.correlators.len();
        let ghost old_ids = self.ids();
        let ghost new_id = correlator.spec_metadata().spec_id();
        let mut i: usize = 0;
        while i < n
            invariant
                *self == *old(self),
                n == self.correlators@.len(),
                n <= self.max_registered_correlators,
                old_ids == self.ids(),
                old_ids.len() == n,
                new_id == correlator.spec_metadata().spec_id(),
                ids_sorted(old_ids),
                i <= n,
                forall|j: int| 0 <= j < i ==> #[trigger] crate::domain::detector_id_lt(old_ids[j], new_id),
            ensures
                i <= n,
                forall|j: int| 0 <= j < i ==> #[trigger] crate::domain::detector_id_lt(old_ids[j], new_id),
                i == n || crate::domain::detector_id_lt(new_id, old_ids[i as int]),
            decreases n - i,
        {
            assert(old_ids[i as int] == self.correlators@[i as int].spec_metadata().spec_id());
            let o = self.correlators[i].metadata().id().compare(correlator.metadata().id());
            match o {
                Order::Equal => {
                    assert(old_ids[i as int] == new_id);
                    return Err(DetectorRegistryError::DuplicateDetectorId(correlator.metadata().id().duplicate()));
                },
                Order::Greater => {
                    break;
                },
                Order::Less => {},
            }
            i = i + 1;
        }
        proof {
            assert forall|j: int| 0 <= j < old_ids.len() implies old_ids[j] != new_id by {
                if j < i {
                    assert(crate::domain::detector_id_lt(old_ids[j], new_id));
                    lemma_lex_lt_irreflexive(text_bytes(new_id));
                } else {
                    assert(i < n);
                    assert(crate::domain::detector_id_lt(new_id, old_ids[i as int]));
                    if j > i {
                        lemma_ids_pairwise(old_ids, i as int, j);
                        lemma_lex_lt_transitive(text_bytes(new_id), text_bytes(old_ids[i as int]), text_bytes(old_ids[j]));
                    }
                    lemma_lex_lt_irreflexive(text_bytes(new_id));
                }
            }
            assert(!old_ids.contains(new_id));
        }
        if n >= self.max_registered_correlators {
            return Err(DetectorRegistryError::RegistryCapacityExceeded { count: n + 1, max: self.max_registered_correlators });
        }
        let mut taken = CorrelationRegistry { correlators: Vec::new(), max_registered_correlators: self.max_registered_correlators };
        std::mem::swap(&mut taken, self);
        let CorrelationRegistry { mut correlators, max_registered_correlators } = taken;
        correlators.insert(i, correlator);
        proof {
            let ids = correlator_ids(correlators@);
            assert(ids =~= old_ids.insert(i as int, new_id));
            assert forall|j: int| 0 <= j < ids.len() - 1 implies #[trigger] crate::domain::detector_id_lt(ids[j], ids[j + 1]) by {
                if j + 1 < i {
                    assert(ids[j] == old_ids[j]);
                    assert(ids[j + 1] == old_ids[j + 1]);
                    assert(crate::domain::detector_id_lt(old_ids[j], old_ids[j + 1]));
                } else if j + 1 == i {
                    assert(ids[j] == old_ids[j]);
                    assert(ids[j + 1] == new_id);
                } else if j == i {
                    assert(ids[j] == new_id);
                    assert(ids[j + 1] == old_ids[i as int]);
                } else {
                    let k = j - 1;
                    assert(ids[j] == old_ids[k]);
                    assert(ids[j + 1] == old_ids[k + 1]);
                    assert(crate::domain::detector_id_lt(old_ids[k], old_ids[k + 1]));
                }
            }
        }
        *self = CorrelationRegistry { correlators, max_registered_correlators };
        Ok(())
    }

    /// Returns the number of registered correlators.
    pub fn len(&self) -> (n: usize)
        ensures
            n == self.spec_correlators().len(),
            n <= HARD_MAX_REGISTERED_CORRELATORS,
    {
        proof { use_type_invariant(self); }
        self.correlators.len()
    }

    /// Returns `true` if no correlators are registered.
    pub fn is_empty(&self) -> (b: bool)
        ensures
            b == (self.spec_correlators().len() == 0),
    {
        self.correlators.len() == 0
    }

    /// Looks up a correlator by identifier.
    pub fn get(&self, id: &DetectorId) -> (r: Option<&C>)
        ensures
            r is Some <==> self.ids().contains(id@),
            r matches Some(c) ==> c.spec_metadata().spec_id() == id@,
    {
        let n = self.correlators.len();
        let mut i: usize = 0;
        while i < n
            invariant
                n == self.correlators@.len(),
                i <= n,
                forall|j: int| 0 <= j < i ==> self.ids()[j] != id@,
            decreases n - i,
        {
            assert(self.ids()[i as int] == self.correlators@[i as int].spec_metadata().spec_id());
            if self.correlators[i].metadata().id().equals(id) {
                return Some(&self.correlators[i]);
            }
            i = i + 1;
        }
        None
    }

    /// The registered correlators in canonical identifier order.
    pub fn correlators(&self) -> (s: &[C])
        ensures
            s@ == self.spec_correlators(),
            ids_sorted(self.ids()),
    {
        proof { use_type_invariant(self); }
        self.correlators.as_slice()
    }

    /// The registered correlators in canonical identifier order.
    pub fn iter(&self) -> (s: &[C])
        ensures
            s@ == self.spec_correlators(),
    {
        self.correlators()
    }
}

} // verus!

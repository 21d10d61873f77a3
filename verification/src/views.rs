//! Abstract views of evidence, mappings and findings, used to state what detectors emit.

use vstd::prelude::*;
use crate::domain::{
    Confidence, DetectorVersion, EvidenceComparison, EvidenceDraft, EvidenceKind,
    EvidenceLimitation, EvidenceMeasurement, EvidenceUnit, EvidenceValue, FindingDraft,
    FindingSubject, FlowReference, MitreMapping, MitreMappingProvenance, MitreTactic,
    ObservationReference, PacketReference, Severity, SubjectView,
};

verus! {

/// A measured value as `(tag, numerator, denominator)`: tag 0 is an unsigned integer
/// (denominator 1), tag 1 an exact ratio, tag 2 an exact duration in seconds.
pub type ValueView = (nat, nat, nat);

/// The abstract content of a measured value.
pub open spec fn value_view(v: EvidenceValue) -> ValueView {
    match v {
        EvidenceValue::Unsigned(u) => (0, u as nat, 1),
        EvidenceValue::Ratio(r) => (1, r@.0, r@.1),
        EvidenceValue::Duration(d) => (2, d@.0, d@.1),
    }
}

/// An unsigned measured value.
pub open spec fn unsigned_view(u: nat) -> ValueView {
    (0, u, 1)
}

/// A ratio measured value.
pub open spec fn ratio_view(r: (nat, nat)) -> ValueView {
    (1, r.0, r.1)
}

/// A duration measured value.
pub open spec fn duration_view(d: (nat, nat)) -> ValueView {
    (2, d.0, d.1)
}

/// Metric key, value, threshold with comparison, and unit.
pub type MeasurementView = (Seq<char>, ValueView, Option<(ValueView, EvidenceComparison)>, EvidenceUnit);

/// The abstract content of a measurement.
pub open spec fn measurement_view(m: EvidenceMeasurement) -> MeasurementView {
    (
        m.metric@,
        value_view(m.value),
        match m.threshold {
            Some((t, c)) => Some((value_view(t), c)),
            None => None,
        },
        m.unit,
    )
}

/// The abstract contents of a list of measurements.
pub open spec fn measurement_views(s: Seq<EvidenceMeasurement>) -> Seq<MeasurementView> {
    s.map_values(|m: EvidenceMeasurement| measurement_view(m))
}

/// Kind, description, packet, flow and observation references, measurements, limitations.
pub type EvidenceView = (
    EvidenceKind,
    Seq<char>,
    Seq<PacketReference>,
    Seq<FlowReference>,
    Seq<ObservationReference>,
    Seq<MeasurementView>,
    Seq<EvidenceLimitation>,
);

/// The abstract content of an evidence draft.
pub open spec fn evidence_view(e: EvidenceDraft) -> EvidenceView {
    (
        e.kind,
        e.description@,
        e.packet_references@,
        e.flow_references@,
        e.observation_references@,
        measurement_views(e.measurements@),
        e.limitations@,
    )
}

/// The abstract contents of a list of evidence drafts.
pub open spec fn evidence_views(s: Seq<EvidenceDraft>) -> Seq<EvidenceView> {
    s.map_values(|e: EvidenceDraft| evidence_view(e))
}

/// Whether a mapping was declared by a detector (`true`) or a correlator, the declaring
/// component's identifier, and its version.
pub type ProvenanceView = (bool, Seq<char>, DetectorVersion);

/// The abstract content of a mapping provenance.
pub open spec fn provenance_view(p: MitreMappingProvenance) -> ProvenanceView {
    match p {
        MitreMappingProvenance::DetectorDeclared { detector_id, detector_version } => (
            true,
            detector_id@,
            detector_version,
        ),
        MitreMappingProvenance::CorrelatorDeclared { correlator_id, correlator_version } => (
            false,
            correlator_id@,
            correlator_version,
        ),
    }
}

/// Technique identifier, technique name, tactic, rationale, provenance.
pub type MappingView = (Seq<char>, Seq<char>, MitreTactic, Seq<char>, ProvenanceView);

/// The abstract content of a mapping.
pub open spec fn mapping_view(m: MitreMapping) -> MappingView {
    (m.technique_id@, m.technique_name@, m.tactic, m.rationale@, provenance_view(m.provenance))
}

/// The abstract contents of a list of mappings.
pub open spec fn mapping_views(s: Seq<MitreMapping>) -> Seq<MappingView> {
    s.map_values(|m: MitreMapping| mapping_view(m))
}

/// Subject, title, summary, rationale, severity, confidence, evidence, mappings.
pub type DraftView = (
    SubjectView,
    Seq<char>,
    Seq<char>,
    Seq<char>,
    Severity,
    Confidence,
    Seq<EvidenceView>,
    Seq<MappingView>,
);

/// The abstract content of a finding draft.
pub open spec fn draft_view(d: FindingDraft) -> DraftView {
    (
        d.subject.view_parts(),
        d.title@,
        d.summary@,
        d.rationale@,
        d.severity,
        d.confidence,
        evidence_views(d.evidence@),
        mapping_views(d.mitre_mappings@),
    )
}

/// The abstract contents of a list of finding drafts.
pub open spec fn draft_views(s: Seq<FindingDraft>) -> Seq<DraftView> {
    s.map_values(|d: FindingDraft| draft_view(d))
}

/// Total number of evidence items across a sequence of draft views.
pub open spec fn view_evidence_total(s: Seq<DraftView>) -> nat
    decreases s.len(),
{
    if s.len() == 0 {
        0
    } else {
        view_evidence_total(s.drop_last()) + s.last().6.len()
    }
}

/// Evidence totals add up over concatenation.
pub proof fn lemma_view_evidence_total_append(a: Seq<DraftView>, b: Seq<DraftView>)
    ensures
        view_evidence_total(a + b) == view_evidence_total(a) + view_evidence_total(b),
    decreases b.len(),
{
    if b.len() == 0 {
        assert(a + b =~= a);
    } else {
        lemma_view_evidence_total_append(a, b.drop_last());
        assert((a + b).drop_last() =~= a + b.drop_last());
    }
}

} // verus!

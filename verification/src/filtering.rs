//! Deterministic finding filtering: inclusive AND over minimum severity, minimum confidence,
//! detector identifier and MITRE ATT&CK technique identifier.

use vstd::prelude::*;
use crate::domain::{
    confidence_rank, severity_rank, Confidence, DetectorId, EvidenceRecord, EvidenceReference,
    FindingRecord, MitreAttackId, Severity,
};

verus! {

/// Deterministic filter criteria for analytical findings.
#[derive(Debug, PartialEq, Eq)]
pub struct FindingFilter {
    min_severity: Option<Severity>,
    min_confidence: Option<Confidence>,
    detector_id: Option<DetectorId>,
    mitre_attack_id: Option<MitreAttackId>,
}

/// Minimum severity, minimum confidence, detector identifier, technique identifier.
pub type FilterView = (Option<Severity>, Option<Confidence>, Option<Seq<char>>, Option<Seq<char>>);

/// The text of an optional identifier.
pub open spec fn opt_id_view(o: Option<DetectorId>) -> Option<Seq<char>> {
    match o {
        Some(id) => Some(id@),
        None => None,
    }
}

/// The text of an optional technique identifier.
pub open spec fn opt_mitre_view(o: Option<MitreAttackId>) -> Option<Seq<char>> {
    match o {
        Some(id) => Some(id@),
        None => None,
    }
}

impl View for FindingFilter {
    type V = FilterView;

    closed spec fn view(&self) -> FilterView {
        (
            self.min_severity,
            self.min_confidence,
            opt_id_view(self.detector_id),
            opt_mitre_view(self.mitre_attack_id),
        )
    }
}

/// Some mapping of the finding names the technique.
pub open spec fn maps_technique(f: FindingRecord, technique: Seq<char>) -> bool {
    exists|i: int| 0 <= i < f.mitre_mappings@.len() && (#[trigger] f.mitre_mappings@[i]).technique_id@ == technique
}

/// The finding satisfies every active criterion of the filter.
pub open spec fn filter_matches(filter: FilterView, f: FindingRecord) -> bool {
    &&& (filter.0 matches Some(s) ==> severity_rank(f.severity) >= severity_rank(s))
    &&& (filter.1 matches Some(c) ==> confidence_rank(f.confidence) >= confidence_rank(c))
    &&& (filter.2 matches Some(id) ==> f.detector_id@ == id)
    &&& (filter.3 matches Some(t) ==> maps_technique(f, t))
}

/// The findings of `s` that satisfy the filter, in their order.
pub open spec fn matching(filter: FilterView, s: Seq<FindingRecord>) -> Seq<FindingRecord>
    decreases s.len(),
{
    if s.len() == 0 {
        Seq::empty()
    } else if filter_matches(filter, s.last()) {
        matching(filter, s.drop_last()).push(s.last())
    } else {
        matching(filter, s.drop_last())
    }
}

impl FindingFilter {
    /// Creates an empty filter, which matches every finding.
    pub fn new() -> (f: FindingFilter)
        ensures
            f@ == (None::<Severity>, None::<Confidence>, None::<Seq<char>>, None::<Seq<char>>),
    {
        FindingFilter { min_severity: None, min_confidence: None, detector_id: None, mitre_attack_id: None }
    }

    /// Sets the minimum severity threshold.
    pub fn with_min_severity(self, min_severity: Option<Severity>) -> (f: FindingFilter)
        ensures
            f@ == (min_severity, self@.1, self@.2, self@.3),
    {
        FindingFilter { min_severity, ..self }
    }

    /// Sets the minimum confidence threshold.
    pub fn with_min_confidence(self, min_confidence: Option<Confidence>) -> (f: FindingFilter)
        ensures
            f@ == (self@.0, min_confidence, self@.2, self@.3),
    {
        FindingFilter { min_confidence, ..self }
    }

    /// Sets the detector identifier filter.
    pub fn with_detector_id(self, detector_id: Option<DetectorId>) -> (f: FindingFilter)
        ensures
            f@ == (self@.0, self@.1, opt_id_view(detector_id), self@.3),
    {
        FindingFilter { detector_id, ..self }
    }

    /// Sets the MITRE ATT&CK technique filter.
    pub fn with_mitre_attack_id(self, mitre_attack_id: Option<MitreAttackId>) -> (f: FindingFilter)
        ensures
            f@ == (self@.0, self@.1, self@.2, opt_mitre_view(mitre_attack_id)),
    {
        FindingFilter { mitre_attack_id, ..self }
    }

    /// Returns the minimum severity filter, if set.
    pub fn min_severity(&self) -> (s: Option<Severity>)
        ensures
            s == self@.0,
    {
        self.min_severity
    }

    /// Returns the minimum confidence filter, if set.
    pub fn min_confidence(&self) -> (c: Option<Confidence>)
        ensures
            c == self@.1,
    {
        self.min_confidence
    }

    /// Returns the detector identifier filter, if set.
    pub fn detector_id(&self) -> (d: Option<&DetectorId>)
        ensures
            self@.2 matches Some(id) ==> d matches Some(x) && x@ == id,
            self@.2 is None ==> d is None,
    {
        match &self.detector_id {
            Some(id) => Some(id),
            None => None,
        }
    }

    /// Returns the MITRE ATT&CK technique filter, if set.
    pub fn mitre_attack_id(&self) -> (m: Option<&MitreAttackId>)
        ensures
            self@.3 matches Some(id) ==> m matches Some(x) && x@ == id,
            self@.3 is None ==> m is None,
    {
        match &self.mitre_attack_id {
            Some(id) => Some(id),
            None => None,
        }
    }

    /// Whether the finding satisfies every active criterion.
    pub fn matches(&self, finding: &FindingRecord) -> (b: bool)
        ensures
            b == filter_matches(self@, *finding),
    {
        if let Some(min_sev) = self.min_severity {
            if finding.severity.rank() < min_sev.rank() {
                return false;
            }
        }
        if let Some(min_conf) = self.min_confidence {
            if finding.confidence.rank() < min_conf.rank() {
                return false;
            }
        }
        if let Some(det_id) = &self.detector_id {
            if !finding.detector_id.equals(det_id) {
                return false;
            }
        }
        if let Some(mitre_id) = &self.mitre_attack_id {
            let n = finding.mitre_mappings.len();
            let mut i: usize = 0;
            while i < n
                invariant
                    n == finding.mitre_mappings@.len(),
                    i <= n,
                    self@.3 == Some(mitre_id@),
                    filter_matches((self@.0, self@.1, self@.2, None), *finding),
                    forall|t: int| 0 <= t < i ==> (#[trigger] finding.mitre_mappings@[t]).technique_id@ != mitre_id@,
                decreases n - i,
            {
                if finding.mitre_mappings[i].technique_id.equals(mitre_id) {
                    assert(maps_technique(*finding, mitre_id@)) by {
                        assert(finding.mitre_mappings@[i as int].technique_id@ == mitre_id@);
                    }
                    return true;
                }
                i = i + 1;
            }
            return false;
        }
        true
    }

    /// The matching findings, in their original order.
    pub fn filter_findings<'a>(&self, findings: &'a [FindingRecord]) -> (r: Vec<&'a FindingRecord>)
        ensures
            r@.map_values(|f: &FindingRecord| *f) == matching(self@, findings@),
    {
        let mut r: Vec<&'a FindingRecord> = Vec::new();
        let n = findings.len();
        let mut i: usize = 0;
        while i < n
            invariant
                n == findings@.len(),
                i <= n,
                r@.map_values(|f: &FindingRecord| *f) == matching(self@, findings@.take(i as int)),
            decreases n - i,
        {
            let ghost r0 = r@;
            let f = &findings[i];
            proof {
                let t = findings@.take(i + 1);
                assert(t.drop_last() =~= findings@.take(i as int));
                assert(t.last() == findings@[i as int]);
            }
            if self.matches(f) {
                r.push(f);
                assert(r@.map_values(|f: &FindingRecord| *f) =~= r0.map_values(|f: &FindingRecord| *f).push(*f));
            }
            i = i + 1;
        }
        assert(findings@.take(n as int) =~= findings@);
        r
    }
}

impl Default for FindingFilter {
    fn default() -> (f: Self)
        ensures
            f@ == (None::<Severity>, None::<Confidence>, None::<Seq<char>>, None::<Seq<char>>),
    {
        FindingFilter::new()
    }
}

/// Some finding of `fs` refers to the evidence.
pub open spec fn evidence_needed(fs: Seq<FindingRecord>, e: EvidenceReference) -> bool {
    exists|i: int| 0 <= i < fs.len() && (#[trigger] fs[i]).evidence_references@.contains(e)
}

/// The evidence records of `es` that the findings refer to, in their order.
pub open spec fn needed_evidence(fs: Seq<FindingRecord>, es: Seq<EvidenceRecord>) -> Seq<EvidenceRecord>
    decreases es.len(),
{
    if es.len() == 0 {
        Seq::empty()
    } else if evidence_needed(fs, es.last().reference) {
        needed_evidence(fs, es.drop_last()).push(es.last())
    } else {
        needed_evidence(fs, es.drop_last())
    }
}

fn refers_to(fs: &Vec<&FindingRecord>, e: EvidenceReference) -> (b: bool)
    ensures
        b == evidence_needed(fs@.map_values(|f: &FindingRecord| *f), e),
{
    let ghost vs = fs@.map_values(|f: &FindingRecord| *f);
    let n = fs.len();
    let mut i: usize = 0;
    while i < n
        invariant
            n == fs@.len(),
            vs == fs@.map_values(|f: &FindingRecord| *f),
            i <= n,
            forall|t: int| 0 <= t < i ==> !(#[trigger] vs[t]).evidence_references@.contains(e),
        decreases n - i,
    {
        let refs = &fs[i].evidence_references;
        let m = refs.len();
        let mut j: usize = 0;
        while j < m
            invariant
                n == fs@.len(),
                i < n,
                vs == fs@.map_values(|f: &FindingRecord| *f),
                *refs == vs[i as int].evidence_references,
                m == refs@.len(),
                j <= m,
                forall|t: int| 0 <= t < j ==> refs@[t] != e,
            decreases m - j,
        {
            if refs[j] == e {
                assert(vs[i as int].evidence_references@.contains(e)) by {
                    assert(refs@[j as int] == e);
                }
                return true;
            }
            j = j + 1;
        }
        assert(!refs@.contains(e));
        i = i + 1;
    }
    false
}

/// Filters findings, then keeps the evidence records that the kept findings refer to; both in
/// their original order.
pub fn filter_findings_and_evidence<'a>(
    findings: &'a [FindingRecord],
    evidence: &'a [EvidenceRecord],
    min_severity: Option<Severity>,
    min_confidence: Option<Confidence>,
    detector_id: Option<&DetectorId>,
    mitre_id: Option<&MitreAttackId>,
) -> (r: (Vec<&'a FindingRecord>, Vec<&'a EvidenceRecord>))
    ensures
        r.0@.map_values(|f: &FindingRecord| *f) == matching(
            (
                min_severity,
                min_confidence,
                match detector_id {
                    Some(d) => Some(d@),
                    None => None,
                },
                match mitre_id {
                    Some(m) => Some(m@),
                    None => None,
                },
            ),
            findings@,
        ),
        r.1@.map_values(|e: &EvidenceRecord| *e) == needed_evidence(
            r.0@.map_values(|f: &FindingRecord| *f),
            evidence@,
        ),
{
    let det = match detector_id {
        Some(d) => Some(d.duplicate()),
        None => None,
    };
    let mitre = match mitre_id {
        Some(m) => Some(m.duplicate()),
        None => None,
    };
    let filter = FindingFilter::new().with_min_severity(min_severity).with_min_confidence(min_confidence).with_detector_id(
        det,
    ).with_mitre_attack_id(mitre);
    let kept = filter.filter_findings(findings);
    let ghost kv = kept@.map_values(|f: &FindingRecord| *f);
    let mut out: Vec<&'a EvidenceRecord> = Vec::new();
    let n = evidence.len();
    let mut i: usize = 0;
    while i < n
        invariant
            n == evidence@.len(),
            i <= n,
            kv == kept@.map_values(|f: &FindingRecord| *f),
            out@.map_values(|e: &EvidenceRecord| *e) == needed_evidence(kv, evidence@.take(i as int)),
        decreases n - i,
    {
        let ghost o0 = out@;
        let e = &evidence[i];
        proof {
            let t = evidence@.take(i + 1);
            assert(t.drop_last() =~= evidence@.take(i as int));
            assert(t.last() == evidence@[i as int]);
        }
        if refers_to(&kept, e.reference) {
            out.push(e);
            assert(out@.map_values(|e: &EvidenceRecord| *e) =~= o0.map_values(|e: &EvidenceRecord| *e).push(*e));
        }
        i = i + 1;
    }
    assert(evidence@.take(n as int) =~= evidence@);
    (kept, out)
}

} // verus!

//! Provenance of correlated findings: source findings must resolve to the primary snapshot,
//! and a correlated finding may only reuse the evidence and subject entities of its sources.

use vstd::prelude::*;
use vstd::multiset::Multiset;
use crate::canonical::{compare_subjects, subject_lt};
use crate::correlation::{CorrelationDraft, CorrelationView};
use crate::domain::{
    DetectorId, EvidenceReference, FindingRecord, FindingReference, FindingSubject, FlowReference,
    ObservationReference, PacketReference,
};
use crate::error::DetectionOutputError;
use crate::text::{compare_str, text_lt, Order};

verus! {

broadcast use {vstd::seq_lib::group_to_multiset_ensures, vstd::multiset::group_multiset_axioms};

/// Every source reference names the primary finding at its position.
pub open spec fn sources_resolve(srcs: Seq<FindingReference>, primary: Seq<FindingRecord>) -> bool {
    forall|k: int|
        0 <= k < srcs.len() ==> (#[trigger] srcs[k]).id < primary.len() && primary[srcs[k].id as int].reference
            == srcs[k]
}

/// The primary finding named by a source reference.
pub open spec fn source_finding(primary: Seq<FindingRecord>, s: FindingReference) -> FindingRecord {
    primary[s.id as int]
}

/// Some source finding refers to the evidence.
pub open spec fn evidence_owned(e: EvidenceReference, srcs: Seq<FindingReference>, primary: Seq<FindingRecord>) -> bool {
    exists|k: int|
        0 <= k < srcs.len() && source_finding(primary, #[trigger] srcs[k]).evidence_references@.contains(e)
}

/// Some source finding's subject names the flow.
pub open spec fn flow_owned(f: FlowReference, srcs: Seq<FindingReference>, primary: Seq<FindingRecord>) -> bool {
    exists|k: int|
        0 <= k < srcs.len() && source_finding(primary, #[trigger] srcs[k]).subject.flow_references@.contains(f)
}

/// Some source finding's subject names the packet.
pub open spec fn packet_owned(p: PacketReference, srcs: Seq<FindingReference>, primary: Seq<FindingRecord>) -> bool {
    exists|k: int|
        0 <= k < srcs.len() && source_finding(primary, #[trigger] srcs[k]).subject.packet_references@.contains(
            p,
        )
}

/// Some source finding's subject names the observation.
pub open spec fn observation_owned(
    o: ObservationReference,
    srcs: Seq<FindingReference>,
    primary: Seq<FindingRecord>,
) -> bool {
    exists|k: int|
        0 <= k < srcs.len() && source_finding(
            primary,
            #[trigger] srcs[k],
        ).subject.observation_references@.contains(o)
}

/// The evidence and subject entities of a correlated finding all belong to its sources.
pub open spec fn provenance_owned(
    srcs: Seq<FindingReference>,
    primary: Seq<FindingRecord>,
    evidence: Seq<EvidenceReference>,
    subject: crate::domain::SubjectView,
) -> bool {
    &&& forall|i: int| 0 <= i < evidence.len() ==> evidence_owned(#[trigger] evidence[i], srcs, primary)
    &&& forall|i: int| 0 <= i < subject.1.len() ==> flow_owned(#[trigger] subject.1[i], srcs, primary)
    &&& forall|i: int| 0 <= i < subject.0.len() ==> packet_owned(#[trigger] subject.0[i], srcs, primary)
    &&& forall|i: int| 0 <= i < subject.2.len() ==> observation_owned(#[trigger] subject.2[i], srcs, primary)
}

/// A correlated finding: at least two sources, all resolving to the primary snapshot, and
/// only the sources' evidence and subject entities.
pub open spec fn correlated_valid(f: FindingRecord, primary: Seq<FindingRecord>) -> bool {
    &&& f.source_finding_references@.len() >= 2
    &&& sources_resolve(f.source_finding_references@, primary)
    &&& provenance_owned(
        f.source_finding_references@,
        primary,
        f.evidence_references@,
        f.subject.view_parts(),
    )
}

/// Checks that every source reference names the primary finding at its position; reports
/// the first that does not.
pub fn resolve_sources(srcs: &[FindingReference], primary: &[FindingRecord], correlator_id: &DetectorId) -> (r: Result<
    (),
    DetectionOutputError,
>)
    ensures
        r is Ok <==> sources_resolve(srcs@, primary@),
        r matches Err(e) ==> e is InvalidSourceFindingReference,
{
    let n = srcs.len();
    let mut k: usize = 0;
    while k < n
        invariant
            n == srcs@.len(),
            k <= n,
            forall|t: int|
                0 <= t < k ==> (#[trigger] srcs@[t]).id < primary@.len() && primary@[srcs@[t].id as int].reference
                    == srcs@[t],
        decreases n - k,
    {
        let s = srcs[k];
        if s.id >= primary.len() as u64 {
            return Err(
                DetectionOutputError::InvalidSourceFindingReference {
                    correlator_id: correlator_id.duplicate(),
                    finding_reference: s,
                    reason: "source finding reference does not exist in primary findings snapshot",
                },
            );
        }
        if primary[s.id as usize].reference != s {
            return Err(
                DetectionOutputError::InvalidSourceFindingReference {
                    correlator_id: correlator_id.duplicate(),
                    finding_reference: s,
                    reason: "source finding reference ordinal mismatch",
                },
            );
        }
        k = k + 1;
    }
    Ok(())
}

fn evidence_in(v: &[EvidenceReference], e: EvidenceReference) -> (b: bool)
    ensures
        b == v@.contains(e),
{
    let n = v.len();
    let mut i: usize = 0;
    while i < n
        invariant
            n == v@.len(),
            i <= n,
            forall|t: int| 0 <= t < i ==> v@[t] != e,
        decreases n - i,
    {
        if v[i] == e {
            assert(v@[i as int] == e);
            return true;
        }
        i = i + 1;
    }
    false
}

fn flow_in(v: &[FlowReference], f: FlowReference) -> (b: bool)
    ensures
        b == v@.contains(f),
{
    let n = v.len();
    let mut i: usize = 0;
    while i < n
        invariant
            n == v@.len(),
            i <= n,
            forall|t: int| 0 <= t < i ==> v@[t] != f,
        decreases n - i,
    {
        if v[i] == f {
            assert(v@[i as int] == f);
            return true;
        }
        i = i + 1;
    }
    false
}

fn packet_in(v: &[PacketReference], p: PacketReference) -> (b: bool)
    ensures
        b == v@.contains(p),
{
    let n = v.len();
    let mut i: usize = 0;
    while i < n
        invariant
            n == v@.len(),
            i <= n,
            forall|t: int| 0 <= t < i ==> v@[t] != p,
        decreases n - i,
    {
        if v[i] == p {
            assert(v@[i as int] == p);
            return true;
        }
        i = i + 1;
    }
    false
}

fn observation_in(v: &[ObservationReference], o: ObservationReference) -> (b: bool)
    ensures
        b == v@.contains(o),
{
    let n = v.len();
    let mut i: usize = 0;
    while i < n
        invariant
            n == v@.len(),
            i <= n,
            forall|t: int| 0 <= t < i ==> v@[t] != o,
        decreases n - i,
    {
        if v[i] == o {
            assert(v@[i as int] == o);
            return true;
        }
        i = i + 1;
    }
    false
}

/// Which kind of entity a provenance check is about.
enum Entity {
    Evidence(EvidenceReference),
    Flow(FlowReference),
    Packet(PacketReference),
    Observation(ObservationReference),
}

spec fn entity_owned(x: Entity, srcs: Seq<FindingReference>, primary: Seq<FindingRecord>) -> bool {
    match x {
        Entity::Evidence(e) => evidence_owned(e, srcs, primary),
        Entity::Flow(f) => flow_owned(f, srcs, primary),
        Entity::Packet(p) => packet_owned(p, srcs, primary),
        Entity::Observation(o) => observation_owned(o, srcs, primary),
    }
}

spec fn entity_in(x: Entity, f: FindingRecord) -> bool {
    match x {
        Entity::Evidence(e) => f.evidence_references@.contains(e),
        Entity::Flow(fl) => f.subject.flow_references@.contains(fl),
        Entity::Packet(p) => f.subject.packet_references@.contains(p),
        Entity::Observation(o) => f.subject.observation_references@.contains(o),
    }
}

/// Whether some source finding holds the entity.
fn owned(x: &Entity, srcs: &[FindingReference], primary: &[FindingRecord]) -> (b: bool)
    requires
        sources_resolve(srcs@, primary@),
    ensures
        b == entity_owned(*x, srcs@, primary@),
{
    let n = srcs.len();
    let mut k: usize = 0;
    while k < n
        invariant
            n == srcs@.len(),
            k <= n,
            sources_resolve(srcs@, primary@),
            forall|t: int| 0 <= t < k ==> !entity_in(*x, source_finding(primary@, #[trigger] srcs@[t])),
        decreases n - k,
    {
        let f = &primary[srcs[k].id as usize];
        assert(*f == source_finding(primary@, srcs@[k as int]));
        let found = match x {
            Entity::Evidence(e) => evidence_in(f.evidence_references.as_slice(), *e),
            Entity::Flow(fl) => flow_in(f.subject.flow_references.as_slice(), *fl),
            Entity::Packet(p) => packet_in(f.subject.packet_references.as_slice(), *p),
            Entity::Observation(o) => observation_in(f.subject.observation_references.as_slice(), *o),
        };
        if found {
            assert(entity_in(*x, source_finding(primary@, srcs@[k as int])));
            return true;
        }
        k = k + 1;
    }
    proof {
        match *x {
            Entity::Evidence(e) => {
                assert forall|t: int| 0 <= t < srcs@.len() implies !source_finding(
                    primary@,
                    #[trigger] srcs@[t],
                ).evidence_references@.contains(e) by {
                    assert(!entity_in(*x, source_finding(primary@, srcs@[t])));
                }
            },
            Entity::Flow(fl) => {
                assert forall|t: int| 0 <= t < srcs@.len() implies !source_finding(
                    primary@,
                    #[trigger] srcs@[t],
                ).subject.flow_references@.contains(fl) by {
                    assert(!entity_in(*x, source_finding(primary@, srcs@[t])));
                }
            },
            Entity::Packet(p) => {
                assert forall|t: int| 0 <= t < srcs@.len() implies !source_finding(
                    primary@,
                    #[trigger] srcs@[t],
                ).subject.packet_references@.contains(p) by {
                    assert(!entity_in(*x, source_finding(primary@, srcs@[t])));
                }
            },
            Entity::Observation(o) => {
                assert forall|t: int| 0 <= t < srcs@.len() implies !source_finding(
                    primary@,
                    #[trigger] srcs@[t],
                ).subject.observation_references@.contains(o) by {
                    assert(!entity_in(*x, source_finding(primary@, srcs@[t])));
                }
            },
        }
    }
    false
}

/// Checks that the draft's evidence, then its subject's flows, packets and observations, all
/// belong to its source findings; reports the first that does not.
pub fn check_provenance(
    draft: &CorrelationDraft,
    primary: &[FindingRecord],
    correlator_id: &DetectorId,
) -> (r: Result<(), DetectionOutputError>)
    requires
        sources_resolve(draft@.7, primary@),
    ensures
        r is Ok <==> provenance_owned(draft@.7, primary@, draft@.6, draft@.0),
        r matches Err(e) ==> (e is UnownedCorrelationEvidenceReference || e is UnownedCorrelationSubjectReference),
{
    let srcs = draft.source_finding_references();
    let evs = draft.evidence_references();
    let subject = draft.subject();
    let n = evs.len();
    let mut i: usize = 0;
    while i < n
        invariant
            n == evs@.len(),
            i <= n,
            srcs@ == draft@.7,
            sources_resolve(srcs@, primary@),
            forall|t: int| 0 <= t < i ==> evidence_owned(#[trigger] evs@[t], srcs@, primary@),
            evs@ == draft@.6,
        decreases n - i,
    {
        let x = Entity::Evidence(evs[i]);
        if !owned(&x, srcs, primary) {
            assert(!evidence_owned(evs@[i as int], srcs@, primary@));
            return Err(
                DetectionOutputError::UnownedCorrelationEvidenceReference {
                    correlator_id: correlator_id.duplicate(),
                    evidence_reference: evs[i],
                },
            );
        }
        i = i + 1;
    }
    let fs = subject.flow_references.as_slice();
    let n = fs.len();
    let mut i: usize = 0;
    while i < n
        invariant
            n == fs@.len(),
            i <= n,
            srcs@ == draft@.7,
            sources_resolve(srcs@, primary@),
            forall|t: int| 0 <= t < i ==> flow_owned(#[trigger] fs@[t], srcs@, primary@),
            fs@ == subject.view_parts().1,
            subject.view_parts() == draft@.0,
        decreases n - i,
    {
        let x = Entity::Flow(fs[i]);
        if !owned(&x, srcs, primary) {
            assert(!flow_owned(fs@[i as int], srcs@, primary@));
            return Err(
                DetectionOutputError::UnownedCorrelationSubjectReference {
                    correlator_id: correlator_id.duplicate(),
                    reason: "draft subject references flow not present in source findings",
                },
            );
        }
        i = i + 1;
    }
    let ps = subject.packet_references.as_slice();
    let n = ps.len();
    let mut i: usize = 0;
    while i < n
        invariant
            n == ps@.len(),
            i <= n,
            srcs@ == draft@.7,
            sources_resolve(srcs@, primary@),
            forall|t: int| 0 <= t < i ==> packet_owned(#[trigger] ps@[t], srcs@, primary@),
            ps@ == subject.view_parts().0,
            subject.view_parts() == draft@.0,
        decreases n - i,
    {
        let x = Entity::Packet(ps[i]);
        if !owned(&x, srcs, primary) {
            assert(!packet_owned(ps@[i as int], srcs@, primary@));
            return Err(
                DetectionOutputError::UnownedCorrelationSubjectReference {
                    correlator_id: correlator_id.duplicate(),
                    reason: "draft subject references packet not present in source findings",
                },
            );
        }
        i = i + 1;
    }
    let os = subject.observation_references.as_slice();
    let n = os.len();
    let mut i: usize = 0;
    while i < n
        invariant
            n == os@.len(),
            i <= n,
            srcs@ == draft@.7,
            sources_resolve(srcs@, primary@),
            forall|t: int| 0 <= t < i ==> observation_owned(#[trigger] os@[t], srcs@, primary@),
            os@ == subject.view_parts().2,
            subject.view_parts() == draft@.0,
        decreases n - i,
    {
        let x = Entity::Observation(os[i]);
        if !owned(&x, srcs, primary) {
            assert(!observation_owned(os@[i as int], srcs@, primary@));
            return Err(
                DetectionOutputError::UnownedCorrelationSubjectReference {
                    correlator_id: correlator_id.duplicate(),
                    reason: "draft subject references observation not present in source findings",
                },
            );
        }
        i = i + 1;
    }
    Ok(())
}

/// Canonical order on correlation drafts: subject, then title.
pub open spec fn correlation_lt(a: CorrelationView, b: CorrelationView) -> bool {
    ||| subject_lt(a.0, b.0)
    ||| (a.0 == b.0 && text_lt(a.1, b.1))
}

/// Neighbours never sort strictly out of order.
pub open spec fn correlations_canonical(s: Seq<CorrelationDraft>) -> bool {
    forall|i: int| 0 <= i < s.len() - 1 ==> !#[trigger] correlation_lt(s[i + 1]@, s[i]@)
}

fn correlation_precedes(a: &CorrelationDraft, b: &CorrelationDraft) -> (r: bool)
    ensures
        r == correlation_lt(a@, b@),
        r ==> !correlation_lt(b@, a@),
{
    match compare_subjects(a.subject(), b.subject()) {
        Order::Less => true,
        Order::Greater => false,
        Order::Equal => match compare_str(a.title(), b.title()) {
            Order::Less => true,
            _ => false,
        },
    }
}

/// Sorts correlation drafts into canonical order, keeping drafts with equal keys in their
/// original order.
pub fn sort_correlation_drafts(drafts: Vec<CorrelationDraft>) -> (r: Vec<CorrelationDraft>)
    ensures
        r@.to_multiset() == drafts@.to_multiset(),
        r@.len() == drafts@.len(),
        correlations_canonical(r@),
{
    let mut rest = drafts;
    let mut out: Vec<CorrelationDraft> = Vec::new();
    proof {
        assert(out@.to_multiset() =~= Multiset::<CorrelationDraft>::empty());
        assert(out@.to_multiset().add(rest@.to_multiset()) =~= rest@.to_multiset());
    }
    while rest.len() > 0
        invariant
            out@.to_multiset().add(rest@.to_multiset()) == drafts@.to_multiset(),
            out@.len() + rest@.len() == drafts@.len(),
            correlations_canonical(out@),
        decreases rest@.len(),
    {
        let ghost before_rest = rest@;
        let ghost before_out = out@;
        let d = rest.remove(0);
        let n = out.len();
        let mut j: usize = 0;
        loop
            invariant
                j <= n,
                n == out@.len(),
                out@ == before_out,
                forall|m: int| 0 <= m < j ==> !#[trigger] correlation_lt(d@, out@[m]@),
            ensures
                j <= n,
                forall|m: int| 0 <= m < j ==> !#[trigger] correlation_lt(d@, out@[m]@),
                j < n ==> !correlation_lt(out@[j as int]@, d@),
            decreases n - j,
        {
            if j >= n {
                break;
            }
            if correlation_precedes(&d, &out[j]) {
                break;
            }
            j = j + 1;
        }
        out.insert(j, d);
        proof {
            assert(before_rest.remove(0).to_multiset() == before_rest.to_multiset().remove(before_rest[0]));
            assert(before_out.insert(j as int, d).to_multiset() == before_out.to_multiset().insert(d));
            assert(out@.to_multiset().add(rest@.to_multiset()) =~= drafts@.to_multiset());
            assert forall|i: int| 0 <= i < out@.len() - 1 implies !#[trigger] correlation_lt(out@[i + 1]@, out@[i]@) by {
                if i + 1 < j {
                    assert(out@[i] == before_out[i]);
                    assert(out@[i + 1] == before_out[i + 1]);
                    assert(!correlation_lt(before_out[i + 1]@, before_out[i]@));
                } else if i + 1 == j {
                    assert(out@[i] == before_out[i]);
                    assert(out@[i + 1] == d);
                } else if i == j {
                    assert(out@[i] == d);
                    assert(out@[i + 1] == before_out[i]);
                } else {
                    assert(out@[i] == before_out[i - 1]);
                    assert(out@[i + 1] == before_out[i]);
                    let k = i - 1;
                    assert(!correlation_lt(before_out[k + 1]@, before_out[k]@));
                    assert(before_out[k + 1] == before_out[i]);
                }
            }
        }
    }
    proof {
        assert(rest@.len() == 0);
        assert(rest@.to_multiset() =~= Multiset::<CorrelationDraft>::empty());
        assert(out@.to_multiset().add(rest@.to_multiset()) =~= out@.to_multiset());
    }
    out
}

} // verus!

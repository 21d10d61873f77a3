//! The possible C2 multi-signal correlator: periodic beaconing and possible DNS tunneling
//! findings on the same single flow.

use vstd::prelude::*;
use crate::correlation::{
    valid_correlation_parts, CorrelationDraft, CorrelationDraftSink, CorrelationView,
    CorrelatorDescription, CorrelatorMetadata, FindingCorrelator,
};
use crate::domain::{
    Confidence, DetectorId, DetectorVersion, EvidenceRecord, EvidenceReference, FindingRecord,
    FindingReference, FindingSubject, FlowReference, MitreAttackId, MitreMapping,
    MitreMappingProvenance, MitreTactic, ObservationReference, PacketReference, Severity,
};
use crate::error::{DetectorExecutionError, DetectorRegistryError};
use crate::sorted::{asymmetric, lemma_sorted_unique, strictly_sorted};
use crate::views::MappingView;

verus! {

broadcast use vstd::string::group_string_axioms;

// ----- ordered sets of references -----

/// Flows ordered by ordinal.
pub open spec fn by_ordinal() -> spec_fn(FlowReference, FlowReference) -> bool {
    |a: FlowReference, b: FlowReference| a.ordinal < b.ordinal
}

/// Evidence references ordered by identifier.
pub open spec fn by_evidence_id() -> spec_fn(EvidenceReference, EvidenceReference) -> bool {
    |a: EvidenceReference, b: EvidenceReference| a.id < b.id
}

/// Inserting an element adds exactly that element to the members.
proof fn lemma_insert_members<T>(s: Seq<T>, i: int, x: T)
    requires
        0 <= i <= s.len(),
    ensures
        forall|y: T| #[trigger] s.insert(i, x).contains(y) <==> (s.contains(y) || y == x),
{
    let t = s.insert(i, x);
    assert forall|y: T| t.contains(y) <==> (s.contains(y) || y == x) by {
        if t.contains(y) {
            let k = choose|k: int| 0 <= k < t.len() && t[k] == y;
            if k < i {
                assert(s[k] == y);
            } else if k > i {
                assert(s[k - 1] == y);
            }
        }
        if s.contains(y) {
            let k = choose|k: int| 0 <= k < s.len() && s[k] == y;
            if k < i {
                assert(t[k] == y);
            } else {
                assert(t[k + 1] == y);
            }
        }
        if y == x {
            assert(t[i] == y);
        }
    }
}

/// Inserts a flow into a strictly ordered list unless it is already there.
#[verifier::spinoff_prover]
fn insert_flow(v: &mut Vec<FlowReference>, f: FlowReference)
    requires
        strictly_sorted(old(v)@, by_ordinal()),
    ensures
        strictly_sorted(final(v)@, by_ordinal()),
        forall|x: FlowReference| final(v)@.contains(x) <==> (old(v)@.contains(x) || x == f),
{
    let ghost lt = by_ordinal();
    let n = v.len();
    let mut i: usize = 0;
    while i < n && v[i].ordinal < f.ordinal
        invariant
            n == v@.len(),
            i <= n,
            forall|t: int| 0 <= t < i ==> (#[trigger] v@[t]).ordinal < f.ordinal,
        decreases n - i,
    {
        i = i + 1;
    }
    if i < n && v[i].ordinal == f.ordinal {
        assert(v@[i as int] == f);
        assert forall|x: FlowReference| v@.contains(x) <==> (v@.contains(x) || x == f) by {
            if x == f {
                assert(v@[i as int] == x);
            }
        }
        return;
    }
    let ghost old_v = v@;
    assert(old_v == old(v)@);
    assert(i < n ==> f.ordinal < v@[i as int].ordinal);
    v.insert(i, f);
    proof {
        assert forall|p: int, q: int| 0 <= p < q < v@.len() implies #[trigger] lt(v@[p], v@[q]) by {
            if q < i {
                assert(lt(old_v[p], old_v[q]));
            } else if q == i {
                assert(v@[p] == old_v[p]);
            } else if p < i {
                assert(v@[q] == old_v[q - 1]);
                if i < old_v.len() {
                    assert(lt(old_v[i as int], old_v[q - 1]) || q - 1 == i);
                }
            } else if p == i {
                assert(v@[q] == old_v[q - 1]);
                if q - 1 > i {
                    assert(lt(old_v[i as int], old_v[q - 1]));
                }
            } else {
                assert(lt(old_v[p - 1], old_v[q - 1]));
            }
        }
        lemma_insert_members(old_v, i as int, f);
        assert(v@ == old_v.insert(i as int, f));
    }
}

/// Inserts an evidence reference into a strictly ordered list unless it is already there.
#[verifier::spinoff_prover]
fn insert_evidence(v: &mut Vec<EvidenceReference>, e: EvidenceReference)
    requires
        strictly_sorted(old(v)@, by_evidence_id()),
    ensures
        strictly_sorted(final(v)@, by_evidence_id()),
        forall|x: EvidenceReference| final(v)@.contains(x) <==> (old(v)@.contains(x) || x == e),
{
    let ghost lt = by_evidence_id();
    let n = v.len();
    let mut i: usize = 0;
    while i < n && v[i].id < e.id
        invariant
            n == v@.len(),
            i <= n,
            forall|t: int| 0 <= t < i ==> (#[trigger] v@[t]).id < e.id,
        decreases n - i,
    {
        i = i + 1;
    }
    if i < n && v[i].id == e.id {
        assert(v@[i as int] == e);
        assert forall|x: EvidenceReference| v@.contains(x) <==> (v@.contains(x) || x == e) by {
            if x == e {
                assert(v@[i as int] == x);
            }
        }
        return;
    }
    let ghost old_v = v@;
    assert(i < n ==> e.id < v@[i as int].id);
    v.insert(i, e);
    proof {
        assert forall|p: int, q: int| 0 <= p < q < v@.len() implies #[trigger] lt(v@[p], v@[q]) by {
            if q < i {
                assert(lt(old_v[p], old_v[q]));
            } else if q == i {
                assert(v@[p] == old_v[p]);
            } else if p < i {
                assert(v@[q] == old_v[q - 1]);
                if i < old_v.len() {
                    assert(lt(old_v[i as int], old_v[q - 1]) || q - 1 == i);
                }
            } else if p == i {
                assert(v@[q] == old_v[q - 1]);
                if q - 1 > i {
                    assert(lt(old_v[i as int], old_v[q - 1]));
                }
            } else {
                assert(lt(old_v[p - 1], old_v[q - 1]));
            }
        }
        lemma_insert_members(old_v, i as int, e);
        assert(v@ == old_v.insert(i as int, e));
    }
}

/// `s` holds exactly the references of `a` and `b`, strictly ordered by identifier.
pub open spec fn is_evidence_union(s: Seq<EvidenceReference>, a: Seq<EvidenceReference>, b: Seq<EvidenceReference>) -> bool {
    &&& strictly_sorted(s, by_evidence_id())
    &&& forall|x: EvidenceReference| s.contains(x) <==> (a.contains(x) || b.contains(x))
}

/// The union of two lists of evidence references, strictly ordered by identifier.
pub open spec fn evidence_union(a: Seq<EvidenceReference>, b: Seq<EvidenceReference>) -> Seq<EvidenceReference> {
    choose|s: Seq<EvidenceReference>| #[trigger] is_evidence_union(s, a, b)
}

/// The union of two lists of evidence references, ordered and without repetition.
fn union_evidence(a: &[EvidenceReference], b: &[EvidenceReference]) -> (r: Vec<EvidenceReference>)
    ensures
        r@ == evidence_union(a@, b@),
{
    let ghost lt = by_evidence_id();
    let mut r: Vec<EvidenceReference> = Vec::new();
    let mut i: usize = 0;
    while i < a.len()
        invariant
            i <= a@.len(),
            strictly_sorted(r@, by_evidence_id()),
            forall|x: EvidenceReference| r@.contains(x) <==> a@.take(i as int).contains(x),
        decreases a@.len() - i,
    {
        let ghost r0 = r@;
        insert_evidence(&mut r, a[i]);
        proof {
            let t0 = a@.take(i as int);
            let t1 = a@.take(i + 1);
            assert(t1 =~= t0.push(a@[i as int]));
            assert forall|x: EvidenceReference| r@.contains(x) <==> t1.contains(x) by {
                if t0.contains(x) {
                    let k = choose|k: int| 0 <= k < t0.len() && t0[k] == x;
                    assert(t1[k] == x);
                }
                if t1.contains(x) {
                    let k = choose|k: int| 0 <= k < t1.len() && t1[k] == x;
                    if k < i {
                        assert(t0[k] == x);
                    }
                }
                if x == a@[i as int] {
                    assert(t1[i as int] == x);
                }
            }
        }
        i = i + 1;
    }
    assert(a@.take(a@.len() as int) =~= a@);
    let mut j: usize = 0;
    while j < b.len()
        invariant
            j <= b@.len(),
            strictly_sorted(r@, by_evidence_id()),
            forall|x: EvidenceReference| r@.contains(x) <==> (a@.contains(x) || b@.take(j as int).contains(x)),
        decreases b@.len() - j,
    {
        insert_evidence(&mut r, b[j]);
        proof {
            let t0 = b@.take(j as int);
            let t1 = b@.take(j + 1);
            assert(t1 =~= t0.push(b@[j as int]));
            assert forall|x: EvidenceReference| r@.contains(x) <==> (a@.contains(x) || t1.contains(x)) by {
                if t0.contains(x) {
                    let k = choose|k: int| 0 <= k < t0.len() && t0[k] == x;
                    assert(t1[k] == x);
                }
                if t1.contains(x) {
                    let k = choose|k: int| 0 <= k < t1.len() && t1[k] == x;
                    if k < j {
                        assert(t0[k] == x);
                    }
                }
                if x == b@[j as int] {
                    assert(t1[j as int] == x);
                }
            }
        }
        j = j + 1;
    }
    assert(b@.take(b@.len() as int) =~= b@);
    proof {
        assert(is_evidence_union(r@, a@, b@));
        let u = evidence_union(a@, b@);
        assert(asymmetric(lt));
        lemma_sorted_unique(r@, u, lt);
    }
    r
}

// ----- signals -----

/// Identifier of the periodic beaconing detector.
pub open spec fn beaconing_id() -> Seq<char> {
    "behavior.periodic_beaconing"@
}

/// Identifier of the possible DNS tunneling detector.
pub open spec fn tunneling_id() -> Seq<char> {
    "dns.possible_tunneling"@
}

/// The finding is a signal of detector `id` about exactly the one flow `flow`.
pub open spec fn signal_on(f: FindingRecord, id: Seq<char>, flow: FlowReference) -> bool {
    f.detector_id@ == id && f.subject.flow_references@ == seq![flow]
}

/// Some finding is a signal of detector `id` about `flow`.
pub open spec fn has_signal(fs: Seq<FindingRecord>, id: Seq<char>, flow: FlowReference) -> bool {
    exists|i: int| 0 <= i < fs.len() && signal_on(#[trigger] fs[i], id, flow)
}

/// Finding `i` is the last signal of detector `id` about `flow`.
pub open spec fn is_last_signal(fs: Seq<FindingRecord>, id: Seq<char>, flow: FlowReference, i: int) -> bool {
    &&& 0 <= i < fs.len()
    &&& signal_on(fs[i], id, flow)
    &&& forall|j: int| i < j < fs.len() ==> !signal_on(#[trigger] fs[j], id, flow)
}

/// The last signal of detector `id` about `flow`.
pub open spec fn last_signal(fs: Seq<FindingRecord>, id: Seq<char>, flow: FlowReference) -> FindingRecord {
    fs[choose|i: int| #[trigger] is_last_signal(fs, id, flow, i)]
}

/// `s` holds exactly the flows with both signals, strictly ordered by ordinal.
pub open spec fn is_c2_flow_list(s: Seq<FlowReference>, fs: Seq<FindingRecord>) -> bool {
    &&& strictly_sorted(s, by_ordinal())
    &&& forall|f: FlowReference|
        s.contains(f) <==> has_signal(fs, beaconing_id(), f) && has_signal(fs, tunneling_id(), f)
}

/// The flows with both a beaconing and a tunneling signal, ordered by ordinal.
pub open spec fn c2_flows(fs: Seq<FindingRecord>) -> Seq<FlowReference> {
    choose|s: Seq<FlowReference>| #[trigger] is_c2_flow_list(s, fs)
}

/// The source references of two findings, ordered by identifier, a repeated one once.
pub open spec fn source_pair(a: FindingReference, b: FindingReference) -> Seq<FindingReference> {
    if a.id < b.id {
        seq![a, b]
    } else if b.id < a.id {
        seq![b, a]
    } else {
        seq![a]
    }
}

/// The mapping a correlated finding carries.
pub open spec fn c2_mapping_view(cid: Seq<char>, cver: DetectorVersion) -> MappingView {
    (
        "T1071.004"@,
        "Application Layer Protocol: DNS"@,
        MitreTactic::CommandAndControl,
        "The correlator matched co-occurring periodic beaconing and possible DNS tunneling heuristics on the same flow, increasing investigative relevance for command-and-control channel analysis. This mapping reflects heuristic alignment with ATT&CK T1071.004 without asserting confirmed adversary presence."@,
        (false, cid, cver),
    )
}

/// The correlated draft about a flow: the last beaconing and tunneling findings on it are the
/// sources, their evidence is reused, the subject is the flow alone.
pub open spec fn c2_draft_view(
    fs: Seq<FindingRecord>,
    flow: FlowReference,
    cid: Seq<char>,
    cver: DetectorVersion,
) -> CorrelationView {
    let b = last_signal(fs, beaconing_id(), flow);
    let t = last_signal(fs, tunneling_id(), flow);
    (
        (Seq::<PacketReference>::empty(), seq![flow], Seq::<ObservationReference>::empty()),
        "Possible multi-signal C2-like behavior"@,
        "The same flow independently matched periodic communication and possible DNS tunneling heuristics."@,
        "Two independent detector signals (periodic beaconing and possible DNS tunneling) co-occur on the same network flow. While this multi-signal correlation increases investigative relevance, it does not establish confirmed malware, command-and-control, or data exfiltration. Benign alternatives include periodic DNS telemetry, monitoring software, generated scheduled lookups, service discovery, heartbeat mechanisms, security software, or automated infrastructure management."@,
        Severity::Medium,
        Confidence::Medium,
        evidence_union(b.evidence_references@, t.evidence_references@),
        source_pair(b.reference, t.reference),
        seq![c2_mapping_view(cid, cver)],
    )
}

/// Correlating fails on an invalid draft: some flow's draft is invalid, every earlier one is
/// valid, and every earlier one fits a sink that already holds `prior_len` of `capacity`.
pub open spec fn c2_fails_internally(
    fs: Seq<FindingRecord>,
    cid: Seq<char>,
    cver: DetectorVersion,
    prior_len: nat,
    capacity: nat,
) -> bool {
    exists|k: int|
        0 <= k < c2_flows(fs).len() && !c2_draft_valid(#[trigger] c2_draft_view(fs, c2_flows(fs)[k], cid, cver))
            && (forall|t: int| 0 <= t < k ==> c2_draft_valid(#[trigger] c2_draft_view(fs, c2_flows(fs)[t], cid, cver)))
            && prior_len + k <= capacity
}

/// The draft view satisfies the correlation draft conditions.
pub open spec fn c2_draft_valid(v: CorrelationView) -> bool {
    valid_correlation_parts(v.6, v.7, v.8)
}

/// The last signal of detector `id` about `flow`, if any.
fn find_last_signal(fs: &[FindingRecord], id: &str, flow: FlowReference) -> (r: Option<usize>)
    ensures
        r matches Some(i) ==> is_last_signal(fs@, id@, flow, i as int),
        r is None ==> !has_signal(fs@, id@, flow),
{
    let mut i = fs.len();
    while i > 0
        invariant
            i <= fs@.len(),
            forall|j: int| i <= j < fs@.len() ==> !signal_on(#[trigger] fs@[j], id@, flow),
        decreases i,
    {
        let k = i - 1;
        let f = &fs[k];
        if f.detector_id.is(id) && f.subject.flow_references.len() == 1 && f.subject.flow_references[0] == flow {
            assert(f.subject.flow_references@ =~= seq![flow]);
            return Some(k);
        }
        proof {
            if signal_on(fs@[k as int], id@, flow) {
                assert(f.subject.flow_references@[0] == flow);
            }
        }
        i = k;
    }
    None
}

/// The flow of the finding when it is a single-flow signal of detector `id`.
fn single_flow_signal(f: &FindingRecord, id: &str) -> (r: Option<FlowReference>)
    ensures
        r matches Some(fl) ==> signal_on(*f, id@, fl),
        r is None ==> forall|fl: FlowReference| !signal_on(*f, id@, fl),
{
    if f.detector_id.is(id) && f.subject.flow_references.len() == 1 {
        let fl = f.subject.flow_references[0];
        assert(f.subject.flow_references@ =~= seq![fl]);
        Some(fl)
    } else {
        proof {
            assert forall|fl: FlowReference| !signal_on(*f, id@, fl) by {
                if signal_on(*f, id@, fl) {
                    assert(f.subject.flow_references@.len() == 1);
                }
            }
        }
        None
    }
}

/// The flows with both signals, ordered by ordinal.
fn collect_c2_flows(fs: &[FindingRecord]) -> (r: Vec<FlowReference>)
    ensures
        r@ == c2_flows(fs@),
        is_c2_flow_list(r@, fs@),
{
    proof {
        reveal_strlit("behavior.periodic_beaconing");
        reveal_strlit("dns.possible_tunneling");
    }
    let mut flows: Vec<FlowReference> = Vec::new();
    let n = fs.len();
    let mut i: usize = 0;
    while i < n
        invariant
            n == fs@.len(),
            i <= n,
            strictly_sorted(flows@, by_ordinal()),
            forall|fl: FlowReference|
                flows@.contains(fl) <==> (exists|j: int| 0 <= j < i && signal_on(#[trigger] fs@[j], beaconing_id(), fl))
                    && has_signal(fs@, tunneling_id(), fl),
        decreases n - i,
    {
        let ghost f0 = flows@;
        let sig = single_flow_signal(&fs[i], "behavior.periodic_beaconing");
        let mut added = false;
        match sig {
            Some(fl) => {
                match find_last_signal(fs, "dns.possible_tunneling", fl) {
                    Some(_) => {
                        insert_flow(&mut flows, fl);
                        added = true;
                    },
                    None => {},
                }
            },
            None => {},
        }
        proof {
            if !added {
                assert(flows@ == f0);
            }
            assert forall|fl: FlowReference|
                flows@.contains(fl) <==> (exists|j: int| 0 <= j < i + 1 && signal_on(#[trigger] fs@[j], beaconing_id(), fl))
                    && has_signal(fs@, tunneling_id(), fl) by {
                let before = exists|j: int| 0 <= j < i && signal_on(#[trigger] fs@[j], beaconing_id(), fl);
                let after = exists|j: int| 0 <= j < i + 1 && signal_on(#[trigger] fs@[j], beaconing_id(), fl);
                if signal_on(fs@[i as int], beaconing_id(), fl) {
                    assert(after);
                    assert(fs@[i as int].subject.flow_references@[0] == fl);
                    if let Some(g) = sig {
                        assert(fs@[i as int].subject.flow_references@[0] == g);
                    }
                    assert(sig == Some(fl));
                }
                if after {
                    let j = choose|j: int| 0 <= j < i + 1 && signal_on(#[trigger] fs@[j], beaconing_id(), fl);
                    if j < i {
                        assert(before);
                    } else {
                        assert(signal_on(fs@[i as int], beaconing_id(), fl));
                    }
                }
                if before {
                    let j = choose|j: int| 0 <= j < i && signal_on(#[trigger] fs@[j], beaconing_id(), fl);
                    assert(0 <= j < i + 1 && signal_on(fs@[j], beaconing_id(), fl));
                }
            }
        }
        i = i + 1;
    }
    proof {
        assert(is_c2_flow_list(flows@, fs@));
        let c = c2_flows(fs@);
        lemma_sorted_unique(flows@, c, by_ordinal());
    }
    flows
}

// ----- the correlator -----

/// Each character takes at most four bytes in UTF-8.
proof fn lemma_encoded_length(s: Seq<char>)
    ensures
        crate::text::text_bytes(s).len() <= 4 * s.len(),
    decreases s.len(),
{
    if s.len() > 0 {
        lemma_encoded_length(s.drop_first());
        assert(vstd::utf8::encode_scalar(s[0] as u32).len() <= 4);
    }
}

proof fn lemma_description_valid()
    ensures
        crate::correlation::valid_description(
            "Correlates periodic beaconing and DNS tunneling signals on the same flow"@,
        ),
{
    reveal_strlit("Correlates periodic beaconing and DNS tunneling signals on the same flow");
    let s = "Correlates periodic beaconing and DNS tunneling signals on the same flow"@;
    lemma_encoded_length(s);
    assert forall|i: int| 0 <= i < s.len() implies !crate::error::is_control_char(#[trigger] s[i]) by {
        assert(0 <= i < 72);
    }
}

proof fn lemma_c2_ids_valid()
    ensures
        crate::domain::valid_detector_id("behavior.possible_c2_multi_signal"@),
        crate::domain::valid_detector_id("behavior.periodic_beaconing"@),
        crate::domain::valid_detector_id("dns.possible_tunneling"@),
        "behavior.periodic_beaconing"@ != "dns.possible_tunneling"@,
{
    reveal_strlit("behavior.possible_c2_multi_signal");
    reveal_strlit("behavior.periodic_beaconing");
    reveal_strlit("dns.possible_tunneling");
    let a = "behavior.possible_c2_multi_signal"@;
    assert forall|i: int| 1 <= i < a.len() implies #[trigger] crate::domain::is_detector_id_char(a[i]) by {
        assert(1 <= i <= 32);
    }
    let b = "behavior.periodic_beaconing"@;
    assert forall|i: int| 1 <= i < b.len() implies #[trigger] crate::domain::is_detector_id_char(b[i]) by {
        assert(1 <= i <= 26);
    }
    let c = "dns.possible_tunneling"@;
    assert forall|i: int| 1 <= i < c.len() implies #[trigger] crate::domain::is_detector_id_char(c[i]) by {
        assert(1 <= i <= 21);
    }
    assert(b[0] != c[0]);
}

/// Possible C2 multi-signal correlator (`behavior.possible_c2_multi_signal`).
///
/// Correlates periodic beaconing with possible DNS tunneling on the same flow, producing a
/// medium-severity finding without asserting confirmed malware.
#[derive(Debug)]
pub struct PossibleC2MultiSignalCorrelator {
    metadata: CorrelatorMetadata,
}

impl PossibleC2MultiSignalCorrelator {
    /// Creates the correlator with its canonical metadata (`behavior.possible_c2_multi_signal`,
    /// version 1.1.0, requiring the beaconing and tunneling detectors).
    pub fn new() -> (c: PossibleC2MultiSignalCorrelator)
        ensures
            c.spec_metadata().spec_id() == "behavior.possible_c2_multi_signal"@,
            c.spec_metadata().spec_version() == (DetectorVersion { major: 1, minor: 1, patch: 0 }),
            c.spec_metadata().spec_required().len() == 2,
            c.spec_metadata().spec_required().contains(beaconing_id()),
            c.spec_metadata().spec_required().contains(tunneling_id()),
    {
        proof {
            lemma_c2_ids_valid();
            lemma_description_valid();
        }
        let id = DetectorId::from_valid("behavior.possible_c2_multi_signal");
        let description = CorrelatorDescription::from_valid(
            "Correlates periodic beaconing and DNS tunneling signals on the same flow",
        );
        let beaconing = DetectorId::from_valid("behavior.periodic_beaconing");
        let tunneling = DetectorId::from_valid("dns.possible_tunneling");
        let mut required: Vec<DetectorId> = Vec::new();
        match beaconing.compare(&tunneling) {
            crate::text::Order::Greater => {
                required.push(tunneling);
                required.push(beaconing);
            },
            _ => {
                required.push(beaconing);
                required.push(tunneling);
            },
        }
        proof {
            let ids = crate::correlation::id_views(required@);
            assert(ids[0] == required@[0]@);
            assert(ids[1] == required@[1]@);
            assert(crate::registry::ids_sorted(ids));
            assert(ids.contains(beaconing_id())) by {
                if ids[0] != beaconing_id() {
                    assert(ids[1] == beaconing_id());
                }
            }
            assert(ids.contains(tunneling_id())) by {
                if ids[0] != tunneling_id() {
                    assert(ids[1] == tunneling_id());
                }
            }
        }
        PossibleC2MultiSignalCorrelator {
            metadata: CorrelatorMetadata::from_valid(id, DetectorVersion::new(1, 1, 0), description, required),
        }
    }

    /// Creates the correlator; it never fails, as its canonical metadata is valid.
    pub fn try_new() -> (r: Result<PossibleC2MultiSignalCorrelator, DetectorRegistryError>)
        ensures
            r matches Ok(c) && c.spec_metadata().spec_id() == "behavior.possible_c2_multi_signal"@,
    {
        Ok(Self::new())
    }

    /// The correlated draft about `flow` from its last beaconing and tunneling findings.
    fn flow_draft(
        &self,
        fs: &[FindingRecord],
        flow: FlowReference,
        beaconing: &FindingRecord,
        tunneling: &FindingRecord,
    ) -> (r: Result<CorrelationDraft, crate::domain::FindingValidationError>)
        requires
            *beaconing == last_signal(fs@, beaconing_id(), flow),
            *tunneling == last_signal(fs@, tunneling_id(), flow),
        ensures
            r is Ok <==> c2_draft_valid(
                c2_draft_view(fs@, flow, self.spec_metadata().spec_id(), self.spec_metadata().spec_version()),
            ),
            r matches Ok(d) ==> d@ == c2_draft_view(
                fs@,
                flow,
                self.spec_metadata().spec_id(),
                self.spec_metadata().spec_version(),
            ),
    {
        let b = beaconing.reference;
        let t = tunneling.reference;
        let mut sources: Vec<FindingReference> = Vec::new();
        if b.id < t.id {
            sources.push(b);
            sources.push(t);
        } else if t.id < b.id {
            sources.push(t);
            sources.push(b);
        } else {
            sources.push(b);
        }
        assert(sources@ =~= source_pair(b, t));
        let evidence = union_evidence(
            beaconing.evidence_references.as_slice(),
            tunneling.evidence_references.as_slice(),
        );
        proof { crate::dns_anomaly::lemma_dns_technique_valid(); }
        let mapping = MitreMapping {
            technique_id: MitreAttackId::from_valid("T1071.004"),
            technique_name: String::from_str("Application Layer Protocol: DNS"),
            tactic: MitreTactic::CommandAndControl,
            rationale: String::from_str(
                "The correlator matched co-occurring periodic beaconing and possible DNS tunneling heuristics on the same flow, increasing investigative relevance for command-and-control channel analysis. This mapping reflects heuristic alignment with ATT&CK T1071.004 without asserting confirmed adversary presence.",
            ),
            provenance: MitreMappingProvenance::CorrelatorDeclared {
                correlator_id: self.metadata.id().duplicate(),
                correlator_version: self.metadata.version(),
            },
        };
        let mut mappings: Vec<MitreMapping> = Vec::new();
        mappings.push(mapping);
        assert(crate::views::mapping_views(mappings@) =~= seq![
            c2_mapping_view(self.spec_metadata().spec_id(), self.spec_metadata().spec_version()),
        ]);
        let subject = FindingSubject::single_flow(flow);
        CorrelationDraft::try_new(
            subject,
            String::from_str("Possible multi-signal C2-like behavior"),
            String::from_str(
                "The same flow independently matched periodic communication and possible DNS tunneling heuristics.",
            ),
            String::from_str(
                "Two independent detector signals (periodic beaconing and possible DNS tunneling) co-occur on the same network flow. While this multi-signal correlation increases investigative relevance, it does not establish confirmed malware, command-and-control, or data exfiltration. Benign alternatives include periodic DNS telemetry, monitoring software, generated scheduled lookups, service discovery, heartbeat mechanisms, security software, or automated infrastructure management.",
            ),
            Severity::Medium,
            Confidence::Medium,
            evidence,
            sources,
            mappings,
        )
    }
}

impl FindingCorrelator for PossibleC2MultiSignalCorrelator {
    closed spec fn spec_metadata(&self) -> CorrelatorMetadata {
        self.metadata
    }

    fn metadata(&self) -> (m: &CorrelatorMetadata) {
        &self.metadata
    }

    open spec fn spec_correlations(&self, primary: Seq<FindingRecord>, evidence: Seq<EvidenceRecord>) -> Seq<
        CorrelationView,
    > {
        c2_flows(primary).map_values(
            |f: FlowReference| c2_draft_view(primary, f, self.spec_metadata().spec_id(), self.spec_metadata().spec_version()),
        )
    }

    open spec fn spec_correlates(
        &self,
        primary: Seq<FindingRecord>,
        evidence: Seq<EvidenceRecord>,
        prior: Seq<CorrelationView>,
        capacity: nat,
    ) -> bool {
        &&& forall|k: int|
            0 <= k < c2_flows(primary).len() ==> c2_draft_valid(
                #[trigger] c2_draft_view(primary, c2_flows(primary)[k], self.spec_metadata().spec_id(), self.spec_metadata().spec_version()),
            )
        &&& prior.len() + c2_flows(primary).len() <= capacity
    }

    open spec fn spec_fails_internally(
        &self,
        primary: Seq<FindingRecord>,
        evidence: Seq<EvidenceRecord>,
        prior: Seq<CorrelationView>,
        capacity: nat,
    ) -> bool {
        c2_fails_internally(
            primary,
            self.spec_metadata().spec_id(),
            self.spec_metadata().spec_version(),
            prior.len(),
            capacity,
        )
    }

    /// One draft per flow with both a beaconing and a tunneling finding, in flow order; fails
    /// on the first draft that is invalid or does not fit the sink.
    fn correlate(
        &self,
        primary_findings: &[FindingRecord],
        evidence_pool: &[EvidenceRecord],
        output: &mut CorrelationDraftSink,
    ) -> (r: Result<(), DetectorExecutionError>)
        ensures
            is_c2_flow_list(c2_flows(primary_findings@), primary_findings@),
            r is Ok <==> (forall|k: int|
                0 <= k < c2_flows(primary_findings@).len() ==> c2_draft_valid(
                    #[trigger] c2_draft_view(
                        primary_findings@,
                        c2_flows(primary_findings@)[k],
                        self.spec_metadata().spec_id(),
                        self.spec_metadata().spec_version(),
                    ),
                )) && old(output).spec_drafts().len() + c2_flows(primary_findings@).len()
                <= old(output).spec_capacity(),
            r matches Err(e) ==> (e is InternalError <==> c2_fails_internally(
                primary_findings@,
                self.spec_metadata().spec_id(),
                self.spec_metadata().spec_version(),
                old(output).spec_drafts().len(),
                old(output).spec_capacity(),
            )),
            r is Ok ==> crate::correlation::correlation_views(final(output).spec_drafts())
                == crate::correlation::correlation_views(old(output).spec_drafts()) + c2_flows(
                primary_findings@,
            ).map_values(
                |f: FlowReference|
                    c2_draft_view(
                        primary_findings@,
                        f,
                        self.spec_metadata().spec_id(),
                        self.spec_metadata().spec_version(),
                    ),
            ),
    {
        let ghost fs = primary_findings@;
        let ghost cid = self.spec_metadata().spec_id();
        let ghost cver = self.spec_metadata().spec_version();
        let ghost view_of = |f: FlowReference| c2_draft_view(fs, f, cid, cver);
        let ghost d0 = output.spec_drafts();
        let flows = collect_c2_flows(primary_findings);
        let _ = output.len();
        let n = flows.len();
        let mut k: usize = 0;
        while k < n
            invariant
                n == flows@.len(),
                flows@ == c2_flows(fs),
                fs == primary_findings@,
                cid == self.spec_metadata().spec_id(),
                cver == self.spec_metadata().spec_version(),
                view_of == (|f: FlowReference| c2_draft_view(fs, f, cid, cver)),
                k <= n,
                output.spec_capacity() == old(output).spec_capacity(),
                d0 == old(output).spec_drafts(),
                forall|t: int| 0 <= t < k ==> c2_draft_valid(#[trigger] c2_draft_view(fs, flows@[t], cid, cver)),
                d0.len() + k <= output.spec_capacity(),
                output.spec_drafts().len() == d0.len() + k,
                is_c2_flow_list(flows@, fs),
                crate::correlation::correlation_views(output.spec_drafts()) == crate::correlation::correlation_views(d0)
                    + flows@.take(k as int).map_values(view_of),
            decreases n - k,
        {
            let flow = flows[k];
            proof {
                assert(flows@.contains(flow)) by {
                    assert(flows@[k as int] == flow);
                }
            }
            let bi = find_last_signal(primary_findings, "behavior.periodic_beaconing", flow);
            let ti = find_last_signal(primary_findings, "dns.possible_tunneling", flow);
            let (bi, ti) = match (bi, ti) {
                (Some(b), Some(t)) => (b, t),
                _ => {
                    proof {
                        assert(has_signal(fs, beaconing_id(), flow) && has_signal(fs, tunneling_id(), flow));
                    }
                    return Err(DetectorExecutionError::internal_error("correlation source finding missing"));
                },
            };
            proof {
                assert(is_last_signal(fs, beaconing_id(), flow, bi as int));
                assert(is_last_signal(fs, tunneling_id(), flow, ti as int));
                let cb = choose|i: int| #[trigger] is_last_signal(fs, beaconing_id(), flow, i);
                let ct = choose|i: int| #[trigger] is_last_signal(fs, tunneling_id(), flow, i);
                assert(cb == bi as int);
                assert(ct == ti as int);
            }
            let draft = match self.flow_draft(primary_findings, flow, &primary_findings[bi], &primary_findings[ti]) {
                Ok(d) => d,
                Err(_) => {
                    proof {
                        assert(flows@[k as int] == flow);
                        assert(c2_fails_internally(fs, cid, cver, d0.len(), old(output).spec_capacity()));
                    }
                    return Err(DetectorExecutionError::internal_error("correlation draft error"));
                },
            };
            let ghost dv = draft@;
            let ghost before = output.spec_drafts();
            match output.push(draft) {
                Ok(()) => {},
                Err(e) => {
                    proof {
                        assert(flows@[k as int] == flow);
                        if c2_fails_internally(fs, cid, cver, d0.len(), old(output).spec_capacity()) {
                            let w = choose|w: int|
                                0 <= w < c2_flows(fs).len() && !c2_draft_valid(
                                    #[trigger] c2_draft_view(fs, c2_flows(fs)[w], cid, cver),
                                ) && (forall|t: int|
                                    0 <= t < w ==> c2_draft_valid(#[trigger] c2_draft_view(fs, c2_flows(fs)[t], cid, cver)))
                                    && d0.len() + w <= old(output).spec_capacity();
                            if w < k {
                                assert(c2_draft_valid(c2_draft_view(fs, flows@[w], cid, cver)));
                            }
                        }
                    }
                    return Err(e);
                },
            }
            proof {
                assert(flows@.take(k + 1) =~= flows@.take(k as int).push(flow));
                assert(flows@.take(k + 1).map_values(view_of) =~= flows@.take(k as int).map_values(view_of).push(dv));
                assert(crate::correlation::correlation_views(output.spec_drafts()) =~= crate::correlation::correlation_views(
                    before,
                ).push(dv));
            }
            k = k + 1;
        }
        assert(flows@.take(n as int) =~= flows@);
        Ok(())
    }
}

} // verus!

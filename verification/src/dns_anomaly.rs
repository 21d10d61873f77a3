//! Explainable DNS anomaly and possible DNS tunneling detectors.
//!
//! - [`DnsLongQueryNameDetector`] flags complete DNS query observations containing questions
//!   with unusually long, high-octet-diversity domain names.
//! - [`DnsPossibleTunnelingDetector`] flags flows with repeated DNS query observations whose
//!   names are long and of high octet diversity.

use vstd::prelude::*;
use crate::config::{lemma_lookup_member, lookup_parameter, DetectorParameter, DetectorParameterValue, DetectorParameters, ParameterView};
use crate::detector::{
    budget_fits, collect_outcomes, lemma_collect_prefix, Detector, DetectorDraftSink, DetectorMetadata,
    IncompleteDataPolicy, StepOutcome,
};
use crate::domain::{
    Confidence, DetectorId, DetectorVersion, EvidenceComparison, EvidenceDraft, EvidenceKind,
    EvidenceMeasurement, EvidenceUnit, EvidenceValue, FindingDraft, FindingSubject,
    FindingValidationError, FlowReference, MitreAttackId, MitreMapping, MitreMappingProvenance,
    MitreTactic, ObservationReference, PacketReference, ProtocolKind, Severity,
};
use crate::error::{sanitized_message, DetectorConfigError, DetectorExecutionError};
use crate::flow::{
    label_views, wire_length_of, DnsMessageKind, DnsQuestion, FlowDirection, FlowEndReason,
    FlowRecord, ObservationCompleteness, ObservationFlowAssociation, ProtocolObservation,
    ProtocolObservationData,
};
use crate::input::DetectionInput;
use crate::params::{all_accepted, first_rejection_error, validate_with_rules, ParamVerdict, ParameterRules};
use crate::ratio::{lemma_reduced_bounds, reduced, value_lt, EvidenceRatio};
use crate::text::{decimal, push_decimal, push_ratio, ratio_text, str_equal};
use crate::views::{
    draft_views, evidence_view, measurement_views, ratio_view, unsigned_view, DraftView, EvidenceView,
    MeasurementView,
};

verus! {

broadcast use vstd::string::group_string_axioms;

/// Number of distinct octets of a byte sequence: octets counted at their first occurrence.
pub open spec fn distinct_octets(s: Seq<u8>) -> nat
    decreases s.len(),
{
    if s.len() == 0 {
        0
    } else {
        distinct_octets(s.drop_last()) + if s.drop_last().contains(s.last()) {
            0nat
        } else {
            1nat
        }
    }
}

/// A sequence has at most as many distinct octets as octets, and at least one when non-empty.
pub proof fn lemma_distinct_octets_bounds(s: Seq<u8>)
    ensures
        distinct_octets(s) <= s.len(),
        s.len() > 0 ==> distinct_octets(s) >= 1,
    decreases s.len(),
{
    if s.len() > 0 {
        lemma_distinct_octets_bounds(s.drop_last());
    }
}

/// Ratio of distinct octets to label length, in lowest terms; `0/1` for an empty label.
pub open spec fn diversity_ratio(s: Seq<u8>) -> (nat, nat) {
    if s.len() == 0 {
        (0, 1)
    } else {
        reduced(distinct_octets(s), s.len())
    }
}

/// Calculates the exact ratio of distinct octets to total label length for a DNS label,
/// in lowest terms; `0/1` for an empty label. For a non-empty label the ratio lies in `(0, 1]`.
pub fn label_octet_diversity_ratio(label: &[u8]) -> (r: EvidenceRatio)
    ensures
        r@ == diversity_ratio(label@),
        label@.len() > 0 ==> 0 < r@.0 <= r@.1,
{
    let n = label.len();
    if n == 0 {
        return EvidenceRatio::zero();
    }
    let mut seen: Vec<bool> = Vec::new();
    let mut k: usize = 0;
    while k < 256
        invariant
            k <= 256,
            seen@.len() == k,
            forall|j: int| 0 <= j < k ==> !(#[trigger] seen@[j]),
        decreases 256 - k,
    {
        seen.push(false);
        k = k + 1;
    }
    let mut distinct: u128 = 0;
    let mut i: usize = 0;
    assert(label@.take(0) =~= Seq::<u8>::empty());
    while i < n
        invariant
            n == label@.len(),
            i <= n,
            seen@.len() == 256,
            forall|b: u8| #[trigger] seen@[b as int] == label@.take(i as int).contains(b),
            distinct == distinct_octets(label@.take(i as int)),
            distinct <= i,
        decreases n - i,
    {
        let b = label[i];
        let ghost prev = label@.take(i as int);
        assert(label@.take(i + 1) =~= prev.push(b));
        assert(label@.take(i + 1).drop_last() =~= prev);
        if !seen[b as usize] {
            seen.set(b as usize, true);
            distinct = distinct + 1;
        }
        proof {
            assert forall|c: u8| #[trigger] seen@[c as int] == label@.take(i + 1).contains(c) by {
                if c == b {
                    assert(label@.take(i + 1)[i as int] == b);
                } else {
                    if prev.contains(c) {
                        let j = choose|j: int| 0 <= j < prev.len() && prev[j] == c;
                        assert(label@.take(i + 1)[j] == c);
                    }
                    let cur = label@.take(i + 1);
                    if cur.contains(c) {
                        let j = choose|j: int| 0 <= j < cur.len() && #[trigger] cur[j] == c;
                        assert(prev[j] == c);
                    }
                }
            }
        }
        i = i + 1;
    }
    assert(label@.take(n as int) =~= label@);
    proof {
        lemma_distinct_octets_bounds(label@);
        lemma_reduced_bounds(distinct as nat, n as nat);
    }
    match EvidenceRatio::from_fraction(distinct, n as u128) {
        Some(r) => r,
        None => EvidenceRatio::zero(),
    }
}

/// Longest label of at least `min_label` octets and highest diversity among such labels,
/// scanning the labels in order (`0` and `0/1` when none qualifies).
pub open spec fn shape_maxima(labels: Seq<Seq<u8>>, min_label: nat) -> (nat, (nat, nat))
    decreases labels.len(),
{
    if labels.len() == 0 {
        (0, (0, 1))
    } else {
        let prev = shape_maxima(labels.drop_last(), min_label);
        let l = labels.last();
        if l.len() >= min_label {
            (
                if l.len() > prev.0 {
                    l.len()
                } else {
                    prev.0
                },
                if value_lt(prev.1, diversity_ratio(l)) {
                    diversity_ratio(l)
                } else {
                    prev.1
                },
            )
        } else {
            prev
        }
    }
}

/// Wire length, longest qualifying label, highest qualifying diversity, and whether the
/// question meets all three thresholds.
pub open spec fn question_shape(q: DnsQuestion, min_wire: nat, min_label: nat, min_div: (nat, nat)) -> (
    nat,
    nat,
    (nat, nat),
    bool,
) {
    let wire = wire_length_of(q.name.label_seqs());
    let m = shape_maxima(q.name.label_seqs(), min_label);
    (wire, m.0, m.1, wire >= min_wire && m.0 >= min_label && !value_lt(m.1, min_div))
}

/// Evaluated structural shape of a single DNS question.
#[derive(Debug, Clone, Copy)]
pub struct DnsQuestionShape {
    /// Wire length of the queried name.
    pub qname_wire_length: usize,
    /// Longest label of at least the minimum label length.
    pub maximum_label_length: usize,
    /// Highest octet diversity among labels of at least the minimum label length.
    pub maximum_label_octet_diversity_ratio: EvidenceRatio,
    /// Whether the question meets all three thresholds.
    pub matches: bool,
}

impl DnsQuestionShape {
    /// Measures a question against the thresholds.
    pub fn evaluate(
        question: &DnsQuestion,
        min_qname_wire_length: usize,
        min_label_length: usize,
        min_diversity_ratio: EvidenceRatio,
    ) -> (s: DnsQuestionShape)
        ensures
            (s.qname_wire_length as nat, s.maximum_label_length as nat, s.maximum_label_octet_diversity_ratio@, s.matches)
                == question_shape(*question, min_qname_wire_length as nat, min_label_length as nat, min_diversity_ratio@),
    {
        let qname_wire_length = question.name.wire_length();
        let labels = question.name.labels();
        let ghost ls = question.name.label_seqs();
        let n = labels.len();
        let mut max_len: usize = 0;
        let mut max_div = EvidenceRatio::zero();
        let mut i: usize = 0;
        assert(ls.take(0) =~= Seq::<Seq<u8>>::empty());
        while i < n
            invariant
                n == labels@.len(),
                ls == label_views(labels@),
                i <= n,
                (max_len as nat, max_div@) == shape_maxima(ls.take(i as int), min_label_length as nat),
            decreases n - i,
        {
            let label = &labels[i];
            assert(ls.take(i + 1).drop_last() =~= ls.take(i as int));
            assert(ls.take(i + 1).last() == label@);
            if label.len() >= min_label_length {
                if label.len() > max_len {
                    max_len = label.len();
                }
                let div = label_octet_diversity_ratio(label.as_slice());
                if max_div.lt(&div) {
                    max_div = div;
                }
            }
            i = i + 1;
        }
        assert(ls.take(n as int) =~= ls);
        let matches = qname_wire_length >= min_qname_wire_length && max_len >= min_label_length
            && !max_div.lt(&min_diversity_ratio);
        DnsQuestionShape {
            qname_wire_length,
            maximum_label_length: max_len,
            maximum_label_octet_diversity_ratio: max_div,
            matches,
        }
    }
}

/// Thresholds of the query-name shape rule: minimum wire length, minimum label length,
/// minimum label octet diversity.
pub type ShapeSettingsView = (nat, nat, (nat, nat));

/// Over the questions of one query, in order: number of matching questions and the
/// maxima of wire length, label length and diversity among matching questions.
pub open spec fn query_maxima(qs: Seq<DnsQuestion>, st: ShapeSettingsView) -> (nat, nat, nat, (nat, nat))
    decreases qs.len(),
{
    if qs.len() == 0 {
        (0, 0, 0, (0, 1))
    } else {
        let prev = query_maxima(qs.drop_last(), st);
        let sh = question_shape(qs.last(), st.0, st.1, st.2);
        if sh.3 {
            (
                prev.0 + 1,
                if sh.0 > prev.1 {
                    sh.0
                } else {
                    prev.1
                },
                if sh.1 > prev.2 {
                    sh.1
                } else {
                    prev.2
                },
                if value_lt(prev.3, sh.2) {
                    sh.2
                } else {
                    prev.3
                },
            )
        } else {
            prev
        }
    }
}

/// Matching questions never outnumber the questions.
pub proof fn lemma_query_maxima_count(qs: Seq<DnsQuestion>, st: ShapeSettingsView)
    ensures
        query_maxima(qs, st).0 <= qs.len(),
    decreases qs.len(),
{
    if qs.len() > 0 {
        lemma_query_maxima_count(qs.drop_last(), st);
    }
}

/// Matching-question count and maxima of one query (see [`query_maxima`]).
pub struct QueryMaxima {
    /// Number of matching questions.
    pub matching: u128,
    /// Longest wire length among matching questions.
    pub max_wire: usize,
    /// Longest qualifying label among matching questions.
    pub max_label: usize,
    /// Highest qualifying diversity among matching questions.
    pub max_div: EvidenceRatio,
}

/// Measures every question of a query against the shape rule.
pub fn measure_questions(
    questions: &Vec<DnsQuestion>,
    min_wire: usize,
    min_label: usize,
    min_div: EvidenceRatio,
) -> (m: QueryMaxima)
    ensures
        (m.matching as nat, m.max_wire as nat, m.max_label as nat, m.max_div@) == query_maxima(
            questions@,
            (min_wire as nat, min_label as nat, min_div@),
        ),
{
    let ghost st = (min_wire as nat, min_label as nat, min_div@);
    let n = questions.len();
    let mut matching: u128 = 0;
    let mut max_wire: usize = 0;
    let mut max_label: usize = 0;
    let mut max_div = EvidenceRatio::zero();
    let mut i: usize = 0;
    assert(questions@.take(0) =~= Seq::<DnsQuestion>::empty());
    while i < n
        invariant
            n == questions@.len(),
            i <= n,
            st == (min_wire as nat, min_label as nat, min_div@),
            (matching as nat, max_wire as nat, max_label as nat, max_div@) == query_maxima(
                questions@.take(i as int),
                st,
            ),
        decreases n - i,
    {
        assert(questions@.take(i + 1).drop_last() =~= questions@.take(i as int));
        assert(questions@.take(i + 1).last() == questions@[i as int]);
        proof {
            lemma_query_maxima_count(questions@.take(i as int), st);
        }
        let shape = DnsQuestionShape::evaluate(&questions[i], min_wire, min_label, min_div);
        if shape.matches {
            matching = matching + 1;
            if shape.qname_wire_length > max_wire {
                max_wire = shape.qname_wire_length;
            }
            if shape.maximum_label_length > max_label {
                max_label = shape.maximum_label_length;
            }
            if max_div.lt(&shape.maximum_label_octet_diversity_ratio) {
                max_div = shape.maximum_label_octet_diversity_ratio;
            }
        }
        i = i + 1;
    }
    assert(questions@.take(n as int) =~= questions@);
    QueryMaxima { matching, max_wire, max_label, max_div }
}

/// A complete DNS query message (not a response).
pub open spec fn is_complete_dns_query(o: ProtocolObservation) -> bool {
    &&& o.reference.protocol == ProtocolKind::Dns
    &&& o.data is Dns
    &&& o.completeness == ObservationCompleteness::Complete
    &&& o.data->Dns_0.message_kind == DnsMessageKind::Query
    &&& !o.data->Dns_0.qr
}

/// Whether an observation is a complete DNS query, with its questions.
fn complete_dns_query(o: &ProtocolObservation) -> (r: Option<&Vec<DnsQuestion>>)
    ensures
        r is Some <==> is_complete_dns_query(*o),
        r matches Some(q) ==> *q == o.data->Dns_0.questions,
{
    match o.reference.protocol {
        ProtocolKind::Dns => {},
        _ => {
            return None;
        },
    }
    match o.completeness {
        ObservationCompleteness::Complete => {},
        ObservationCompleteness::Partial => {
            return None;
        },
    }
    match &o.data {
        ProtocolObservationData::Dns(d) => {
            let query = match d.message_kind {
                DnsMessageKind::Query => true,
                DnsMessageKind::Response => false,
            };
            if query && !d.qr {
                Some(&d.questions)
            } else {
                None
            }
        },
        _ => None,
    }
}

} // verus!
verus! {

/// Minimum QNAME wire length default (octets).
pub const DEFAULT_MIN_QNAME_WIRE_LENGTH: u64 = 120;

/// Minimum label length default (octets).
pub const DEFAULT_MIN_LABEL_LENGTH: u64 = 40;

/// Hard maximum QNAME wire length limit (RFC 1035).
pub const MAX_QNAME_WIRE_LENGTH_LIMIT: u64 = 255;

/// Hard maximum label length limit (RFC 1035).
pub const MAX_LABEL_LENGTH_LIMIT: u64 = 63;

/// The verdict of the long query name detector on one parameter.
pub open spec fn long_query_verdict(p: ParameterView) -> ParamVerdict {
    let key = p.0;
    let value = p.1;
    if key == "minimum_qname_wire_length"@ {
        match value {
            DetectorParameterValue::Unsigned(v) => if v == 0 || v > 255 {
                ParamVerdict::OutOfRange("minimum QNAME wire length must be between 1 and 255 octets")
            } else {
                ParamVerdict::Accepted
            },
            _ => ParamVerdict::WrongType("unsigned integer"),
        }
    } else if key == "minimum_label_length"@ {
        match value {
            DetectorParameterValue::Unsigned(v) => if v == 0 || v > 63 {
                ParamVerdict::OutOfRange("minimum label length must be between 1 and 63 octets")
            } else {
                ParamVerdict::Accepted
            },
            _ => ParamVerdict::WrongType("unsigned integer"),
        }
    } else if key == "minimum_label_octet_diversity_ratio"@ {
        match value {
            DetectorParameterValue::Ratio(r) => if r@.0 > r@.1 {
                ParamVerdict::OutOfRange("minimum label octet diversity ratio must be between 0 and 1")
            } else {
                ParamVerdict::Accepted
            },
            _ => ParamVerdict::WrongType("ratio"),
        }
    } else {
        ParamVerdict::UnknownKey
    }
}

/// Whether every parameter is accepted by the long query name detector.
pub open spec fn long_query_params_valid(ps: Seq<ParameterView>) -> bool {
    all_accepted(ps, |p: ParameterView| long_query_verdict(p))
}

/// `e` is the error for the first parameter the long query name detector rejects.
pub open spec fn long_query_first_rejection(ps: Seq<ParameterView>, e: DetectorConfigError) -> bool {
    first_rejection_error(ps, |p: ParameterView| long_query_verdict(p), e)
}

/// The unsigned value of a parameter, or a default when absent or of another type.
pub open spec fn unsigned_setting(ps: Seq<ParameterView>, key: Seq<char>, default: nat) -> nat {
    match lookup_parameter(ps, key) {
        Some(DetectorParameterValue::Unsigned(v)) => v as nat,
        _ => default,
    }
}

/// The ratio value of a parameter, or a default when absent or of another type.
pub open spec fn ratio_setting(ps: Seq<ParameterView>, key: Seq<char>, default: (nat, nat)) -> (nat, nat) {
    match lookup_parameter(ps, key) {
        Some(DetectorParameterValue::Ratio(r)) => r@,
        _ => default,
    }
}

/// Shape thresholds of a parameter list, with defaults; `None` when a length does not fit
/// the platform's `usize`.
pub open spec fn shape_settings(ps: Seq<ParameterView>) -> Option<ShapeSettingsView> {
    let w = unsigned_setting(ps, "minimum_qname_wire_length"@, 120);
    let l = unsigned_setting(ps, "minimum_label_length"@, 40);
    let d = ratio_setting(ps, "minimum_label_octet_diversity_ratio"@, (1, 3));
    if w <= usize::MAX && l <= usize::MAX {
        Some((w, l, d))
    } else {
        None
    }
}

/// Rationale of a long query name finding.
pub open spec fn long_query_rationale(
    matching: nat,
    total: nat,
    max_wire: nat,
    max_label: nat,
    max_div: (nat, nat),
    st: ShapeSettingsView,
) -> Seq<char> {
    "Observed DNS query observation contains "@ + decimal(matching) + " matching question(s) (total "@
        + decimal(total) + ") with maximum QNAME wire length "@ + decimal(max_wire)
        + " octets (threshold >= "@ + decimal(st.0) + "), maximum label length "@ + decimal(max_label)
        + " octets (threshold >= "@ + decimal(st.1) + "), and maximum label octet diversity ratio "@
        + ratio_text(max_div) + " (threshold >= "@ + ratio_text(st.2)
        + "). Long or high-diversity query names can arise from DNS tunneling or data exfiltration, but are also commonly used by CDNs, anti-spam RBL reputation lookups, DKIM/SPF TXT records, ACME challenges, security scanners, and telemetry endpoints."@
}

/// The finding about one query observation.
pub open spec fn long_query_draft(
    obs: ObservationReference,
    total: nat,
    q: (nat, nat, nat, (nat, nat)),
    st: ShapeSettingsView,
) -> DraftView {
    (
        (Seq::<PacketReference>::empty(), Seq::<FlowReference>::empty(), seq![obs]),
        "Unusually long DNS query name"@,
        "A DNS query contains one or more unusually long, high-octet-diversity names meeting configured structural thresholds"@,
        long_query_rationale(q.0, total, q.1, q.2, q.3, st),
        Severity::Info,
        Confidence::Medium,
        seq![
            (
                EvidenceKind::ProtocolObservation,
                "DNS query-name structural measurements"@,
                Seq::<PacketReference>::empty(),
                Seq::<FlowReference>::empty(),
                seq![obs],
                seq![
                    ("matching_question_count"@, unsigned_view(q.0), None, EvidenceUnit::Count),
                    ("maximum_label_length"@, unsigned_view(q.2), Some((unsigned_view(st.1), EvidenceComparison::GreaterThanOrEqual)), EvidenceUnit::Bytes),
                    ("maximum_label_octet_diversity_ratio"@, ratio_view(q.3), Some((ratio_view(st.2), EvidenceComparison::GreaterThanOrEqual)), EvidenceUnit::Ratio),
                    ("maximum_qname_wire_length"@, unsigned_view(q.1), Some((unsigned_view(st.0), EvidenceComparison::GreaterThanOrEqual)), EvidenceUnit::Bytes),
                    ("question_count"@, unsigned_view(total), None, EvidenceUnit::Count),
                ],
                Seq::empty(),
            ),
        ],
        Seq::empty(),
    )
}

/// What the long query name detector does with one observation.
pub open spec fn long_query_outcome(o: ProtocolObservation, st: ShapeSettingsView) -> StepOutcome {
    if !is_complete_dns_query(o) {
        Some(None)
    } else {
        let qs = o.data->Dns_0.questions@;
        let q = query_maxima(qs, st);
        if qs.len() == 0 || q.0 == 0 {
            Some(None)
        } else {
            Some(Some(long_query_draft(o.reference, qs.len(), q, st)))
        }
    }
}

/// What the long query name detector does with each observation, in input order.
pub open spec fn long_query_outcomes(obs: Seq<ProtocolObservation>, st: ShapeSettingsView) -> Seq<StepOutcome> {
    obs.map_values(|o: ProtocolObservation| long_query_outcome(o, st))
}

/// Whether a long query name run succeeds: usable thresholds and room in the budgets.
pub open spec fn long_query_run_succeeds(
    ps: Seq<ParameterView>,
    obs: Seq<ProtocolObservation>,
    base: Seq<DraftView>,
    finding_budget: nat,
    evidence_budget: nat,
) -> bool {
    &&& shape_settings(ps) is Some
    &&& collect_outcomes(long_query_outcomes(obs, shape_settings(ps)->0)) is Some
    &&& budget_fits(
        base,
        finding_budget,
        evidence_budget,
        collect_outcomes(long_query_outcomes(obs, shape_settings(ps)->0))->0,
    )
}

proof fn lemma_long_query_id_valid()
    ensures
        crate::domain::valid_detector_id("dns.long_query_name"@),
{
    reveal_strlit("dns.long_query_name");
    let s = "dns.long_query_name"@;
    assert forall|i: int| 1 <= i < s.len() implies #[trigger] crate::domain::is_detector_id_char(s[i]) by {
        assert(1 <= i <= 18);
    }
}

/// Reads the shape thresholds from the parameters, with defaults.
fn read_shape_settings(parameters: &DetectorParameters) -> (r: Result<(usize, usize, EvidenceRatio), DetectorExecutionError>)
    ensures
        r is Ok <==> shape_settings(parameters@) is Some,
        r matches Ok(s) ==> (s.0 as nat, s.1 as nat, s.2@) == shape_settings(parameters@)->0,
        r matches Err(e) ==> e is InternalError,
{
    let w = parameters.unsigned_or("minimum_qname_wire_length", DEFAULT_MIN_QNAME_WIRE_LENGTH as u128);
    if w > usize::MAX as u128 {
        return Err(DetectorExecutionError::internal_error("minimum_qname_wire_length exceeds host usize"));
    }
    let l = parameters.unsigned_or("minimum_label_length", DEFAULT_MIN_LABEL_LENGTH as u128);
    if l > usize::MAX as u128 {
        return Err(DetectorExecutionError::internal_error("minimum_label_length exceeds host usize"));
    }
    let d = parameters.ratio_or("minimum_label_octet_diversity_ratio", EvidenceRatio::from_lowest_terms(1, 3));
    Ok((w as usize, l as usize, d))
}

/// Builds the rationale of a long query name finding.
fn long_query_rationale_text(
    q: &QueryMaxima,
    total: u128,
    min_wire: usize,
    min_label: usize,
    min_div: &EvidenceRatio,
) -> (s: String)
    ensures
        s@ == long_query_rationale(
            q.matching as nat,
            total as nat,
            q.max_wire as nat,
            q.max_label as nat,
            q.max_div@,
            (min_wire as nat, min_label as nat, min_div@),
        ),
{
    let mut s = String::from_str("Observed DNS query observation contains ");
    push_decimal(&mut s, q.matching);
    s.append(" matching question(s) (total ");
    push_decimal(&mut s, total);
    s.append(") with maximum QNAME wire length ");
    push_decimal(&mut s, q.max_wire as u128);
    s.append(" octets (threshold >= ");
    push_decimal(&mut s, min_wire as u128);
    s.append("), maximum label length ");
    push_decimal(&mut s, q.max_label as u128);
    s.append(" octets (threshold >= ");
    push_decimal(&mut s, min_label as u128);
    s.append("), and maximum label octet diversity ratio ");
    push_ratio(&mut s, &q.max_div);
    s.append(" (threshold >= ");
    push_ratio(&mut s, min_div);
    s.append(
        "). Long or high-diversity query names can arise from DNS tunneling or data exfiltration, but are also commonly used by CDNs, anti-spam RBL reputation lookups, DKIM/SPF TXT records, ACME challenges, security scanners, and telemetry endpoints.",
    );
    assert(s@ =~= long_query_rationale(
        q.matching as nat,
        total as nat,
        q.max_wire as nat,
        q.max_label as nat,
        q.max_div@,
        (min_wire as nat, min_label as nat, min_div@),
    ));
    s
}

/// Detector identifying complete DNS query observations containing questions with unusually
/// long, high-octet-diversity names.
#[derive(Debug)]
pub struct DnsLongQueryNameDetector {
    metadata: DetectorMetadata,
}

impl ParameterRules for DnsLongQueryNameDetector {
    open spec fn verdict(p: ParameterView) -> ParamVerdict {
        long_query_verdict(p)
    }

    fn check(p: &DetectorParameter) -> (v: ParamVerdict) {
        let key = p.key.as_str();
        if str_equal(key, "minimum_qname_wire_length") {
            match p.value {
                DetectorParameterValue::Unsigned(v) => if v == 0 || v > 255 {
                    ParamVerdict::OutOfRange("minimum QNAME wire length must be between 1 and 255 octets")
                } else {
                    ParamVerdict::Accepted
                },
                _ => ParamVerdict::WrongType("unsigned integer"),
            }
        } else if str_equal(key, "minimum_label_length") {
            match p.value {
                DetectorParameterValue::Unsigned(v) => if v == 0 || v > 63 {
                    ParamVerdict::OutOfRange("minimum label length must be between 1 and 63 octets")
                } else {
                    ParamVerdict::Accepted
                },
                _ => ParamVerdict::WrongType("unsigned integer"),
            }
        } else if str_equal(key, "minimum_label_octet_diversity_ratio") {
            match p.value {
                DetectorParameterValue::Ratio(r) => if r.exceeds_one() {
                    ParamVerdict::OutOfRange("minimum label octet diversity ratio must be between 0 and 1")
                } else {
                    ParamVerdict::Accepted
                },
                _ => ParamVerdict::WrongType("ratio"),
            }
        } else {
            ParamVerdict::UnknownKey
        }
    }
}

impl DnsLongQueryNameDetector {
    /// Creates the detector with its canonical metadata (`dns.long_query_name`, version
    /// 1.0.1, skipping partial input).
    pub fn new() -> (d: DnsLongQueryNameDetector)
        ensures
            d.spec_metadata().spec_id() == "dns.long_query_name"@,
            d.spec_metadata().spec_version() == (DetectorVersion { major: 1, minor: 0, patch: 1 }),
            d.spec_metadata().spec_policy() == IncompleteDataPolicy::Skip,
    {
        proof { lemma_long_query_id_valid(); }
        DnsLongQueryNameDetector {
            metadata: DetectorMetadata::new(
                DetectorId::from_valid("dns.long_query_name"),
                DetectorVersion::new(1, 0, 1),
                String::from_str("Unusually long DNS query name"),
                String::from_str(
                    "Identify complete DNS query observations containing questions with unusually long, high-octet-diversity domain names",
                ),
                IncompleteDataPolicy::Skip,
            ),
        }
    }

    /// Creates the detector; it never fails, as its canonical metadata is valid.
    pub fn try_new() -> (r: Result<DnsLongQueryNameDetector, FindingValidationError>)
        ensures
            r matches Ok(d) && d.spec_metadata().spec_id() == "dns.long_query_name"@,
    {
        Ok(Self::new())
    }

    /// The finding about one matching query observation.
    fn query_draft(
        obs: ObservationReference,
        total: usize,
        q: &QueryMaxima,
        min_wire: usize,
        min_label: usize,
        min_div: EvidenceRatio,
    ) -> (d: FindingDraft)
        ensures
            crate::views::draft_view(d) == long_query_draft(
                obs,
                total as nat,
                (q.matching as nat, q.max_wire as nat, q.max_label as nat, q.max_div@),
                (min_wire as nat, min_label as nat, min_div@),
            ),
    {
        let mut ms: Vec<EvidenceMeasurement> = Vec::new();
        ms.push(EvidenceMeasurement::new("matching_question_count", EvidenceValue::Unsigned(q.matching), EvidenceUnit::Count));
        ms.push(
            EvidenceMeasurement::with_threshold(
                "maximum_label_length",
                EvidenceValue::Unsigned(q.max_label as u128),
                EvidenceValue::Unsigned(min_label as u128),
                EvidenceComparison::GreaterThanOrEqual,
                EvidenceUnit::Bytes,
            ),
        );
        ms.push(
            EvidenceMeasurement::with_threshold(
                "maximum_label_octet_diversity_ratio",
                EvidenceValue::Ratio(q.max_div),
                EvidenceValue::Ratio(min_div),
                EvidenceComparison::GreaterThanOrEqual,
                EvidenceUnit::Ratio,
            ),
        );
        ms.push(
            EvidenceMeasurement::with_threshold(
                "maximum_qname_wire_length",
                EvidenceValue::Unsigned(q.max_wire as u128),
                EvidenceValue::Unsigned(min_wire as u128),
                EvidenceComparison::GreaterThanOrEqual,
                EvidenceUnit::Bytes,
            ),
        );
        ms.push(EvidenceMeasurement::new("question_count", EvidenceValue::Unsigned(total as u128), EvidenceUnit::Count));
        let mut observations: Vec<ObservationReference> = Vec::new();
        observations.push(obs);
        let e = EvidenceDraft {
            kind: EvidenceKind::ProtocolObservation,
            description: String::from_str("DNS query-name structural measurements"),
            packet_references: Vec::new(),
            flow_references: Vec::new(),
            observation_references: observations,
            measurements: ms,
            limitations: Vec::new(),
        };
        let ghost ev = evidence_view(e);
        let mut evidence: Vec<EvidenceDraft> = Vec::new();
        evidence.push(e);
        let d = FindingDraft {
            subject: FindingSubject::single_observation(obs),
            title: String::from_str("Unusually long DNS query name"),
            summary: String::from_str(
                "A DNS query contains one or more unusually long, high-octet-diversity names meeting configured structural thresholds",
            ),
            rationale: long_query_rationale_text(q, total as u128, min_wire, min_label, &min_div),
            severity: Severity::Info,
            confidence: Confidence::Medium,
            evidence,
            mitre_mappings: Vec::new(),
        };
        proof {
            let st = (min_wire as nat, min_label as nat, min_div@);
            let qv = (q.matching as nat, q.max_wire as nat, q.max_label as nat, q.max_div@);
            let expected = long_query_draft(obs, total as nat, qv, st);
            assert(measurement_views(d.evidence@[0].measurements@) =~= expected.6[0].5);
            assert(d.evidence@[0].observation_references@ =~= seq![obs]);
            assert(d.evidence@[0].flow_references@ =~= Seq::<FlowReference>::empty());
            assert(d.evidence@[0].packet_references@ =~= Seq::<PacketReference>::empty());
            assert(d.evidence@[0].limitations@ =~= Seq::<crate::domain::EvidenceLimitation>::empty());
            assert(crate::views::evidence_views(d.evidence@) =~= expected.6);
            assert(crate::views::mapping_views(d.mitre_mappings@) =~= expected.7);
        }
        d
    }
}

impl Detector for DnsLongQueryNameDetector {
    closed spec fn spec_metadata(&self) -> DetectorMetadata {
        self.metadata
    }

    fn metadata(&self) -> (m: &DetectorMetadata) {
        &self.metadata
    }

    open spec fn spec_params_valid(&self, parameters: Seq<ParameterView>) -> bool {
        long_query_params_valid(parameters)
    }

    open spec fn spec_rejection(&self, parameters: Seq<ParameterView>, e: DetectorConfigError) -> bool {
        long_query_first_rejection(parameters, e)
    }

    open spec fn spec_fails_internally(
        &self,
        input: DetectionInput<'_>,
        parameters: Seq<ParameterView>,
        prior: Seq<DraftView>,
        finding_budget: nat,
        evidence_budget: nat,
    ) -> bool {
        shape_settings(parameters) is None
    }

    fn validate_parameters(&self, parameters: &DetectorParameters) -> (r: Result<(), DetectorConfigError>)
        ensures
            r is Ok <==> long_query_params_valid(parameters@),
            r matches Err(e) ==> long_query_first_rejection(parameters@, e),
    {
        let r = validate_with_rules::<DnsLongQueryNameDetector>(parameters);
        proof {
            assert((|p: ParameterView| DnsLongQueryNameDetector::verdict(p)) =~= (|p: ParameterView| long_query_verdict(p)));
        }
        r
    }

    open spec fn spec_drafts(&self, input: DetectionInput<'_>, parameters: Seq<ParameterView>) -> Seq<DraftView> {
        collect_outcomes(long_query_outcomes(input.observations_view(), shape_settings(parameters)->0))->0
    }

    open spec fn spec_succeeds(
        &self,
        input: DetectionInput<'_>,
        parameters: Seq<ParameterView>,
        prior: Seq<DraftView>,
        finding_budget: nat,
        evidence_budget: nat,
    ) -> bool {
        long_query_run_succeeds(parameters, input.observations_view(), prior, finding_budget, evidence_budget)
    }

    fn evaluate(
        &self,
        input: &DetectionInput<'_>,
        parameters: &DetectorParameters,
        output: &mut DetectorDraftSink,
    ) -> (r: Result<(), DetectorExecutionError>)
        ensures
            r is Ok <==> long_query_run_succeeds(
                parameters@,
                input.observations_view(),
                draft_views(old(output).drafts_view()),
                old(output).finding_budget(),
                old(output).evidence_budget(),
            ),
            r is Ok ==> draft_views(final(output).drafts_view()) == draft_views(old(output).drafts_view())
                + collect_outcomes(long_query_outcomes(input.observations_view(), shape_settings(parameters@)->0))->0,
            shape_settings(parameters@) is None ==> (r matches Err(DetectorExecutionError::InternalError(_))
                && final(output).drafts_view() == old(output).drafts_view()),
            shape_settings(parameters@) is Some ==> (r matches Err(e) ==> e is ResourceLimitExceeded),
    {
        let (min_wire, min_label, min_div) = match read_shape_settings(parameters) {
            Ok(s) => s,
            Err(e) => {
                return Err(e);
            },
        };
        let ghost st = shape_settings(parameters@)->0;
        let obs = input.observations();
        let n = obs.len();
        let ghost outcomes = long_query_outcomes(obs@, st);
        let ghost base = draft_views(output.drafts_view());
        let ghost fb = output.finding_budget();
        let ghost eb = output.evidence_budget();
        assert(outcomes.take(0) =~= Seq::<StepOutcome>::empty());
        output.within_budget();
        proof {
            assert(base + Seq::<DraftView>::empty() =~= base);
            assert(Seq::<DraftView>::empty() + base =~= base);
            crate::views::lemma_view_evidence_total_append(base, Seq::<DraftView>::empty());
        }
        let mut i: usize = 0;
        while i < n
            invariant
                n == obs@.len(),
                i <= n,
                obs@ == input.observations_view(),
                st == (min_wire as nat, min_label as nat, min_div@),
                st == shape_settings(parameters@)->0,
                shape_settings(parameters@) is Some,
                outcomes == long_query_outcomes(obs@, st),
                base == draft_views(old(output).drafts_view()),
                fb == old(output).finding_budget(),
                eb == old(output).evidence_budget(),
                output.finding_budget() == fb,
                output.evidence_budget() == eb,
                collect_outcomes(outcomes.take(i as int)) is Some,
                draft_views(output.drafts_view()) == base + collect_outcomes(outcomes.take(i as int))->0,
                budget_fits(base, fb, eb, collect_outcomes(outcomes.take(i as int))->0),
            decreases n - i,
        {
            let o = &obs[i];
            proof {
                assert(outcomes.take(i + 1).drop_last() =~= outcomes.take(i as int));
                assert(outcomes.take(i + 1).last() == outcomes[i as int]);
                assert(outcomes[i as int] == long_query_outcome(*o, st));
            }
            let questions = match complete_dns_query(o) {
                Some(q) => q,
                None => {
                    i = i + 1;
                    continue;
                },
            };
            if questions.len() == 0 {
                i = i + 1;
                continue;
            }
            let q = measure_questions(questions, min_wire, min_label, min_div);
            if q.matching == 0 {
                i = i + 1;
                continue;
            }
            let draft = Self::query_draft(o.reference, questions.len(), &q, min_wire, min_label, min_div);
            match output.push_step(draft, Ghost(base), Ghost(outcomes), Ghost(i as int)) {
                Ok(()) => {},
                Err(e) => {
                    proof {
                        if collect_outcomes(outcomes) is Some {
                            lemma_collect_prefix(outcomes, i + 1);
                            crate::views::lemma_view_evidence_total_append(base, collect_outcomes(outcomes.take(i + 1))->0);
                        }
                    }
                    return Err(e);
                },
            }
            i = i + 1;
        }
        proof {
            assert(outcomes.take(n as int) =~= outcomes);
        }
        Ok(())
    }
}

} // verus!
verus! {

/// Default minimum query observations per flow.
pub const DEFAULT_MIN_QUERY_OBSERVATIONS: u64 = 8;

/// Default maximum tracked DNS flows.
pub const DEFAULT_MAX_TRACKED_DNS_FLOWS: u64 = 65_536;

/// Hard limit for maximum tracked DNS flows.
pub const HARD_MAX_TRACKED_DNS_FLOWS: u64 = 1_000_000;

/// The verdict of the possible tunneling detector on one parameter.
pub open spec fn tunnel_verdict(p: ParameterView) -> ParamVerdict {
    let key = p.0;
    let value = p.1;
    if key == "minimum_query_observations"@ {
        match value {
            DetectorParameterValue::Unsigned(v) => if v < 2 || v > u64::MAX {
                ParamVerdict::OutOfRange(
                    "minimum query observations must be between 2 and 18,446,744,073,709,551,615",
                )
            } else {
                ParamVerdict::Accepted
            },
            _ => ParamVerdict::WrongType("unsigned integer"),
        }
    } else if key == "minimum_candidate_query_ratio"@ {
        match value {
            DetectorParameterValue::Ratio(r) => if r@.0 == 0 || r@.0 > r@.1 {
                ParamVerdict::OutOfRange("minimum candidate query ratio must be greater than 0 and at most 1")
            } else {
                ParamVerdict::Accepted
            },
            _ => ParamVerdict::WrongType("ratio"),
        }
    } else if key == "maximum_tracked_dns_flows"@ {
        match value {
            DetectorParameterValue::Unsigned(v) => if v == 0 || v > 1_000_000 {
                ParamVerdict::OutOfRange("maximum tracked DNS flows must be between 1 and 1,000,000")
            } else {
                ParamVerdict::Accepted
            },
            _ => ParamVerdict::WrongType("unsigned integer"),
        }
    } else {
        long_query_verdict(p)
    }
}

/// Whether every parameter is accepted by the possible tunneling detector.
pub open spec fn tunnel_params_valid(ps: Seq<ParameterView>) -> bool {
    all_accepted(ps, |p: ParameterView| tunnel_verdict(p))
}

/// `e` is the error for the first parameter the possible tunneling detector rejects.
pub open spec fn tunnel_first_rejection(ps: Seq<ParameterView>, e: DetectorConfigError) -> bool {
    first_rejection_error(ps, |p: ParameterView| tunnel_verdict(p), e)
}

/// Thresholds of the tunneling detector: minimum query observations, minimum candidate
/// ratio, shape thresholds, maximum tracked flows.
pub type TunnelSettingsView = (nat, (nat, nat), ShapeSettingsView, nat);

/// The tunneling thresholds of a parameter list, with defaults; `None` when one does not
/// fit its machine type.
pub open spec fn tunnel_settings(ps: Seq<ParameterView>) -> Option<TunnelSettingsView> {
    let min_obs = unsigned_setting(ps, "minimum_query_observations"@, 8);
    let ratio = ratio_setting(ps, "minimum_candidate_query_ratio"@, (3, 4));
    let max_tracked = unsigned_setting(ps, "maximum_tracked_dns_flows"@, 65536);
    if min_obs <= u64::MAX && shape_settings(ps) is Some && max_tracked <= usize::MAX {
        Some((min_obs, ratio, shape_settings(ps)->0, max_tracked))
    } else {
        None
    }
}

/// A flow of the input, not stopped by analysis, with the given reference.
pub open spec fn usable_flow(flows: Seq<FlowRecord>, flow: FlowReference) -> bool {
    exists|i: int|
        0 <= i < flows.len() && (#[trigger] flows[i]).reference == flow && flows[i].end_reason
            != FlowEndReason::AnalysisStopped
}

/// The flow a DNS query counts toward: a complete query, associated in one direction with
/// a usable flow of the input.
pub open spec fn tunnel_query_flow(o: ProtocolObservation, flows: Seq<FlowRecord>) -> Option<FlowReference> {
    if !is_complete_dns_query(o) {
        None
    } else {
        match o.flow_association {
            ObservationFlowAssociation::Associated { flow, direction } => if direction
                != FlowDirection::SameEndpoint && usable_flow(flows, flow) {
                Some(flow)
            } else {
                None
            },
            _ => None,
        }
    }
}

/// Per-flow aggregate: query count, candidate count, maxima of wire length, label length and
/// diversity over candidates, first and last candidate observation.
pub type TunnelAggregate = (nat, nat, nat, nat, (nat, nat), Option<ObservationReference>, Option<ObservationReference>);

/// The empty aggregate.
pub open spec fn empty_aggregate() -> TunnelAggregate {
    (0, 0, 0, 0, (0, 1), None, None)
}

/// Records one query observation with its question measurements into an aggregate.
pub open spec fn aggregate_step(a: TunnelAggregate, o: ObservationReference, q: (nat, nat, nat, (nat, nat))) -> TunnelAggregate {
    if q.0 > 0 {
        (
            a.0 + 1,
            a.1 + 1,
            if q.1 > a.2 {
                q.1
            } else {
                a.2
            },
            if q.2 > a.3 {
                q.2
            } else {
                a.3
            },
            if value_lt(a.4, q.3) {
                q.3
            } else {
                a.4
            },
            if a.5 is None {
                Some(o)
            } else {
                a.5
            },
            Some(o),
        )
    } else {
        (a.0 + 1, a.1, a.2, a.3, a.4, a.5, a.6)
    }
}

/// The aggregate of one flow over a sequence of observations.
pub open spec fn tunnel_aggregate(
    obs: Seq<ProtocolObservation>,
    flows: Seq<FlowRecord>,
    f: FlowReference,
    st: ShapeSettingsView,
) -> TunnelAggregate
    decreases obs.len(),
{
    if obs.len() == 0 {
        empty_aggregate()
    } else {
        let prev = tunnel_aggregate(obs.drop_last(), flows, f, st);
        let o = obs.last();
        if tunnel_query_flow(o, flows) == Some(f) {
            aggregate_step(prev, o.reference, query_maxima(o.data->Dns_0.questions@, st))
        } else {
            prev
        }
    }
}

/// Counts stay within the number of observations, candidates within queries.
pub proof fn lemma_aggregate_counts(obs: Seq<ProtocolObservation>, flows: Seq<FlowRecord>, f: FlowReference, st: ShapeSettingsView)
    ensures
        tunnel_aggregate(obs, flows, f, st).0 <= obs.len(),
        tunnel_aggregate(obs, flows, f, st).1 <= tunnel_aggregate(obs, flows, f, st).0,
    decreases obs.len(),
{
    if obs.len() > 0 {
        lemma_aggregate_counts(obs.drop_last(), flows, f, st);
    }
}

/// Number of distinct flows the detector tracks after a sequence of observations.
pub open spec fn tunnel_tracked(obs: Seq<ProtocolObservation>, flows: Seq<FlowRecord>, st: ShapeSettingsView) -> nat
    decreases obs.len(),
{
    if obs.len() == 0 {
        0
    } else {
        let prev = tunnel_tracked(obs.drop_last(), flows, st);
        match tunnel_query_flow(obs.last(), flows) {
            Some(f) => if tunnel_aggregate(obs.drop_last(), flows, f, st).0 == 0 {
                prev + 1
            } else {
                prev
            },
            None => prev,
        }
    }
}

/// Tracking never shrinks as observations are added.
pub proof fn lemma_tracked_monotone(obs: Seq<ProtocolObservation>, flows: Seq<FlowRecord>, st: ShapeSettingsView, k: int)
    requires
        0 <= k <= obs.len(),
    ensures
        tunnel_tracked(obs.take(k), flows, st) <= tunnel_tracked(obs, flows, st),
    decreases obs.len(),
{
    if k < obs.len() {
        lemma_tracked_monotone(obs.drop_last(), flows, st, k);
        assert(obs.drop_last().take(k) =~= obs.take(k));
    } else {
        assert(obs.take(k) =~= obs);
    }
}

/// Observation references of the evidence: the first candidate, and the last when it differs.
pub open spec fn candidate_references(
    first: Option<ObservationReference>,
    last: Option<ObservationReference>,
) -> Seq<ObservationReference> {
    match first {
        Some(x) => match last {
            Some(y) => if y != x {
                seq![x, y]
            } else {
                seq![x]
            },
            None => seq![x],
        },
        None => Seq::empty(),
    }
}

/// Summary of a possible tunneling finding.
pub open spec fn tunnel_summary(ratio: (nat, nat)) -> Seq<char> {
    "Repeated DNS query observations within this flow contain unusually long, high-octet-diversity names in a proportion ("@
        + ratio_text(ratio) + ") meeting configured aggregate thresholds"@
}

/// Rationale of a possible tunneling finding.
pub open spec fn tunnel_rationale(a: TunnelAggregate, ratio: (nat, nat)) -> Seq<char> {
    "Flow contains "@ + decimal(a.0) + " DNS query observation(s), of which "@ + decimal(a.1) + " ("@
        + ratio_text(ratio) + ") exhibit long QNAME wire length (max "@ + decimal(a.2)
        + " octets), long labels (max "@ + decimal(a.3) + " octets), and high label octet diversity (max "@
        + ratio_text(a.4)
        + "). The pattern is consistent with possible DNS data tunneling or encoded exfiltration channels, but can also arise from benign generated identifiers, telemetry, cache keys, service discovery, security products, or application-specific opaque labels."@
}

/// Rationale of the DNS application layer protocol mapping.
pub open spec fn tunnel_mapping_rationale() -> Seq<char> {
    "The detector identified repeated DNS query observations with unusually long, high-octet-diversity names consistent with structured data transmission over DNS. This mapping describes an analytical relationship with network protocol characteristics defined in ATT&CK T1071.004, not confirmed malware or external attribution."@
}

/// The finding about one flow.
pub open spec fn tunnel_draft(
    f: FlowReference,
    a: TunnelAggregate,
    ratio: (nat, nat),
    s: TunnelSettingsView,
    id: Seq<char>,
    version: DetectorVersion,
) -> DraftView {
    let sh = s.2;
    (
        (Seq::<PacketReference>::empty(), seq![f], Seq::<ObservationReference>::empty()),
        "Possible DNS tunneling pattern"@,
        tunnel_summary(ratio),
        tunnel_rationale(a, ratio),
        Severity::Low,
        Confidence::Medium,
        seq![
            (
                EvidenceKind::RatioComparison,
                "Flow-level DNS query structural and candidate proportion measurements"@,
                Seq::<PacketReference>::empty(),
                seq![f],
                candidate_references(a.5, a.6),
                seq![
                    ("candidate_query_count"@, unsigned_view(a.1), None, EvidenceUnit::Count),
                    ("candidate_query_ratio"@, ratio_view(ratio), Some((ratio_view(s.1), EvidenceComparison::GreaterThanOrEqual)), EvidenceUnit::Ratio),
                    ("dns_query_observation_count"@, unsigned_view(a.0), Some((unsigned_view(s.0), EvidenceComparison::GreaterThanOrEqual)), EvidenceUnit::Count),
                    ("maximum_label_length"@, unsigned_view(a.3), Some((unsigned_view(sh.1), EvidenceComparison::GreaterThanOrEqual)), EvidenceUnit::Bytes),
                    ("maximum_label_octet_diversity_ratio"@, ratio_view(a.4), Some((ratio_view(sh.2), EvidenceComparison::GreaterThanOrEqual)), EvidenceUnit::Ratio),
                    ("maximum_qname_wire_length"@, unsigned_view(a.2), Some((unsigned_view(sh.0), EvidenceComparison::GreaterThanOrEqual)), EvidenceUnit::Bytes),
                ],
                Seq::empty(),
            ),
        ],
        seq![
            (
                "T1071.004"@,
                "Application Layer Protocol: DNS"@,
                MitreTactic::CommandAndControl,
                tunnel_mapping_rationale(),
                (true, id, version),
            ),
        ],
    )
}

/// What the possible tunneling detector reports about one flow, once every observation is
/// aggregated.
pub open spec fn tunnel_flow_outcome(
    fr: FlowRecord,
    obs: Seq<ProtocolObservation>,
    flows: Seq<FlowRecord>,
    s: TunnelSettingsView,
    id: Seq<char>,
    version: DetectorVersion,
) -> StepOutcome {
    let a = tunnel_aggregate(obs, flows, fr.reference, s.2);
    if a.0 < s.0 || a.1 == 0 {
        Some(None)
    } else {
        let ratio = reduced(a.1, a.0);
        if value_lt(ratio, s.1) {
            Some(None)
        } else {
            Some(Some(tunnel_draft(fr.reference, a, ratio, s, id, version)))
        }
    }
}

/// What the possible tunneling detector reports about each flow, in flow order.
pub open spec fn tunnel_outcomes(
    obs: Seq<ProtocolObservation>,
    flows: Seq<FlowRecord>,
    s: TunnelSettingsView,
    id: Seq<char>,
    version: DetectorVersion,
) -> Seq<StepOutcome> {
    flows.map_values(|f: FlowRecord| tunnel_flow_outcome(f, obs, flows, s, id, version))
}

/// The number of tracked flows stays within the configured maximum.
pub open spec fn tunnel_within_tracking(obs: Seq<ProtocolObservation>, flows: Seq<FlowRecord>, s: TunnelSettingsView) -> bool {
    tunnel_tracked(obs, flows, s.2) <= s.3
}

/// The message of a tunneling run that tracks more DNS flows than allowed.
pub open spec fn tracking_limit_text(max: nat) -> Seq<char> {
    "exceeded maximum tracked DNS flows capacity ("@ + decimal(max) + ")"@
}

/// Whether a possible tunneling run succeeds: usable thresholds, no more tracked flows than
/// allowed, and room in the budgets.
pub open spec fn tunnel_run_succeeds(
    ps: Seq<ParameterView>,
    obs: Seq<ProtocolObservation>,
    flows: Seq<FlowRecord>,
    id: Seq<char>,
    version: DetectorVersion,
    base: Seq<DraftView>,
    finding_budget: nat,
    evidence_budget: nat,
) -> bool {
    &&& tunnel_settings(ps) is Some
    &&& tunnel_within_tracking(obs, flows, tunnel_settings(ps)->0)
    &&& collect_outcomes(tunnel_outcomes(obs, flows, tunnel_settings(ps)->0, id, version)) is Some
    &&& budget_fits(
        base,
        finding_budget,
        evidence_budget,
        collect_outcomes(tunnel_outcomes(obs, flows, tunnel_settings(ps)->0, id, version))->0,
    )
}

} // verus!
verus! {

/// Bounded scalar aggregate tracking DNS queries for one flow.
#[derive(Debug, Clone, Copy)]
pub struct DnsFlowAggregate {
    /// Query observations counted toward the flow.
    pub dns_query_observation_count: u64,
    /// Query observations with at least one matching question.
    pub candidate_query_count: u64,
    /// Longest wire length among candidate queries.
    pub maximum_qname_wire_length: usize,
    /// Longest qualifying label among candidate queries.
    pub maximum_label_length: usize,
    /// Highest qualifying diversity among candidate queries.
    pub maximum_label_octet_diversity_ratio: EvidenceRatio,
    /// First candidate observation.
    pub first_candidate_observation: Option<ObservationReference>,
    /// Last candidate observation.
    pub last_candidate_observation: Option<ObservationReference>,
}

/// The abstract content of an aggregate.
pub open spec fn aggregate_view(a: DnsFlowAggregate) -> TunnelAggregate {
    (
        a.dns_query_observation_count as nat,
        a.candidate_query_count as nat,
        a.maximum_qname_wire_length as nat,
        a.maximum_label_length as nat,
        a.maximum_label_octet_diversity_ratio@,
        a.first_candidate_observation,
        a.last_candidate_observation,
    )
}

impl DnsFlowAggregate {
    /// The empty aggregate.
    pub fn new() -> (a: DnsFlowAggregate)
        ensures
            aggregate_view(a) == empty_aggregate(),
    {
        DnsFlowAggregate {
            dns_query_observation_count: 0,
            candidate_query_count: 0,
            maximum_qname_wire_length: 0,
            maximum_label_length: 0,
            maximum_label_octet_diversity_ratio: EvidenceRatio::zero(),
            first_candidate_observation: None,
            last_candidate_observation: None,
        }
    }

    /// Records one query observation; a candidate also updates the maxima and the
    /// first and last candidate observation. Fails when a counter would overflow.
    pub fn record_query(
        &mut self,
        obs_ref: ObservationReference,
        is_candidate: bool,
        shape_qname_wire_length: usize,
        shape_label_length: usize,
        shape_diversity_ratio: EvidenceRatio,
    ) -> (r: Result<(), DetectorExecutionError>)
        ensures
            r is Ok <==> old(self).dns_query_observation_count < u64::MAX && (is_candidate
                ==> old(self).candidate_query_count < u64::MAX),
            r is Ok ==> aggregate_view(*final(self)) == aggregate_step(
                aggregate_view(*old(self)),
                obs_ref,
                (
                    if is_candidate { 1nat } else { 0nat },
                    shape_qname_wire_length as nat,
                    shape_label_length as nat,
                    shape_diversity_ratio@,
                ),
            ),
    {
        if self.dns_query_observation_count == u64::MAX {
            return Err(DetectorExecutionError::internal_error("dns query observation count overflow"));
        }
        if is_candidate && self.candidate_query_count == u64::MAX {
            return Err(DetectorExecutionError::internal_error("candidate query count overflow"));
        }
        self.dns_query_observation_count = self.dns_query_observation_count + 1;
        if is_candidate {
            self.candidate_query_count = self.candidate_query_count + 1;
            if shape_qname_wire_length > self.maximum_qname_wire_length {
                self.maximum_qname_wire_length = shape_qname_wire_length;
            }
            if shape_label_length > self.maximum_label_length {
                self.maximum_label_length = shape_label_length;
            }
            if self.maximum_label_octet_diversity_ratio.lt(&shape_diversity_ratio) {
                self.maximum_label_octet_diversity_ratio = shape_diversity_ratio;
            }
            if self.first_candidate_observation.is_none() {
                self.first_candidate_observation = Some(obs_ref);
            }
            self.last_candidate_observation = Some(obs_ref);
        }
        Ok(())
    }
}

proof fn lemma_tunnel_id_valid()
    ensures
        crate::domain::valid_detector_id("dns.possible_tunneling"@),
{
    reveal_strlit("dns.possible_tunneling");
    let s = "dns.possible_tunneling"@;
    assert forall|i: int| 1 <= i < s.len() implies #[trigger] crate::domain::is_detector_id_char(s[i]) by {
        assert(1 <= i <= 21);
    }
}

pub proof fn lemma_dns_technique_valid()
    ensures
        crate::domain::valid_mitre_attack_id("T1071.004"@),
{
    reveal_strlit("T1071.004");
    let s = "T1071.004"@;
    assert forall|i: int| 1 <= i < 5 implies #[trigger] crate::domain::is_digit(s[i]) by {
        assert(1 <= i <= 4);
    }
    assert forall|i: int| 6 <= i < 9 implies #[trigger] crate::domain::is_digit(s[i]) by {
        assert(6 <= i <= 8);
    }
}

/// Effective tunneling settings: minimum query observations, minimum candidate ratio,
/// minimum wire length, minimum label length, minimum diversity, maximum tracked flows.
pub struct TunnelSettings {
    /// Minimum query observations per flow.
    pub min_query_obs: u64,
    /// Minimum candidate query ratio.
    pub min_candidate_ratio: EvidenceRatio,
    /// Minimum QNAME wire length.
    pub min_wire: usize,
    /// Minimum label length.
    pub min_label: usize,
    /// Minimum label octet diversity.
    pub min_div: EvidenceRatio,
    /// Maximum tracked flows.
    pub max_tracked: usize,
}

/// The abstract content of tunneling settings.
pub open spec fn tunnel_settings_view(s: TunnelSettings) -> TunnelSettingsView {
    (
        s.min_query_obs as nat,
        s.min_candidate_ratio@,
        (s.min_wire as nat, s.min_label as nat, s.min_div@),
        s.max_tracked as nat,
    )
}

/// Reads the tunneling settings from the parameters, with defaults.
fn read_tunnel_settings(parameters: &DetectorParameters) -> (r: Result<TunnelSettings, DetectorExecutionError>)
    ensures
        r is Ok <==> tunnel_settings(parameters@) is Some,
        r matches Ok(s) ==> tunnel_settings_view(s) == tunnel_settings(parameters@)->0,
        r matches Err(e) ==> e is InternalError,
{
    let min_obs = parameters.unsigned_or("minimum_query_observations", DEFAULT_MIN_QUERY_OBSERVATIONS as u128);
    if min_obs > u64::MAX as u128 {
        return Err(DetectorExecutionError::internal_error("minimum_query_observations exceeds host u64"));
    }
    let ratio = parameters.ratio_or("minimum_candidate_query_ratio", EvidenceRatio::from_lowest_terms(3, 4));
    let (w, l, d) = match read_shape_settings(parameters) {
        Ok(s) => s,
        Err(e) => {
            return Err(e);
        },
    };
    let max_tracked = parameters.unsigned_or("maximum_tracked_dns_flows", DEFAULT_MAX_TRACKED_DNS_FLOWS as u128);
    if max_tracked > usize::MAX as u128 {
        return Err(DetectorExecutionError::internal_error("maximum_tracked_dns_flows exceeds host usize"));
    }
    Ok(
        TunnelSettings {
            min_query_obs: min_obs as u64,
            min_candidate_ratio: ratio,
            min_wire: w,
            min_label: l,
            min_div: d,
            max_tracked: max_tracked as usize,
        },
    )
}

/// Builds the summary of a possible tunneling finding.
fn tunnel_summary_text(ratio: &EvidenceRatio) -> (s: String)
    ensures
        s@ == tunnel_summary(ratio@),
{
    let mut s = String::from_str(
        "Repeated DNS query observations within this flow contain unusually long, high-octet-diversity names in a proportion (",
    );
    push_ratio(&mut s, ratio);
    s.append(") meeting configured aggregate thresholds");
    assert(s@ =~= tunnel_summary(ratio@));
    s
}

/// Builds the rationale of a possible tunneling finding.
fn tunnel_rationale_text(a: &DnsFlowAggregate, ratio: &EvidenceRatio) -> (s: String)
    ensures
        s@ == tunnel_rationale(aggregate_view(*a), ratio@),
{
    let mut s = String::from_str("Flow contains ");
    push_decimal(&mut s, a.dns_query_observation_count as u128);
    s.append(" DNS query observation(s), of which ");
    push_decimal(&mut s, a.candidate_query_count as u128);
    s.append(" (");
    push_ratio(&mut s, ratio);
    s.append(") exhibit long QNAME wire length (max ");
    push_decimal(&mut s, a.maximum_qname_wire_length as u128);
    s.append(" octets), long labels (max ");
    push_decimal(&mut s, a.maximum_label_length as u128);
    s.append(" octets), and high label octet diversity (max ");
    push_ratio(&mut s, &a.maximum_label_octet_diversity_ratio);
    s.append(
        "). The pattern is consistent with possible DNS data tunneling or encoded exfiltration channels, but can also arise from benign generated identifiers, telemetry, cache keys, service discovery, security products, or application-specific opaque labels.",
    );
    assert(s@ =~= tunnel_rationale(aggregate_view(*a), ratio@));
    s
}

/// Detector identifying reconstructed DNS flow instances containing repeated queries with
/// long, high-octet-diversity domain names.
#[derive(Debug)]
pub struct DnsPossibleTunnelingDetector {
    metadata: DetectorMetadata,
}

impl ParameterRules for DnsPossibleTunnelingDetector {
    open spec fn verdict(p: ParameterView) -> ParamVerdict {
        tunnel_verdict(p)
    }

    fn check(p: &DetectorParameter) -> (v: ParamVerdict) {
        let key = p.key.as_str();
        if str_equal(key, "minimum_query_observations") {
            match p.value {
                DetectorParameterValue::Unsigned(v) => if v < 2 || v > u64::MAX as u128 {
                    ParamVerdict::OutOfRange(
                        "minimum query observations must be between 2 and 18,446,744,073,709,551,615",
                    )
                } else {
                    ParamVerdict::Accepted
                },
                _ => ParamVerdict::WrongType("unsigned integer"),
            }
        } else if str_equal(key, "minimum_candidate_query_ratio") {
            match p.value {
                DetectorParameterValue::Ratio(r) => if r.is_zero() || r.exceeds_one() {
                    ParamVerdict::OutOfRange("minimum candidate query ratio must be greater than 0 and at most 1")
                } else {
                    ParamVerdict::Accepted
                },
                _ => ParamVerdict::WrongType("ratio"),
            }
        } else if str_equal(key, "maximum_tracked_dns_flows") {
            match p.value {
                DetectorParameterValue::Unsigned(v) => if v == 0 || v > 1_000_000 {
                    ParamVerdict::OutOfRange("maximum tracked DNS flows must be between 1 and 1,000,000")
                } else {
                    ParamVerdict::Accepted
                },
                _ => ParamVerdict::WrongType("unsigned integer"),
            }
        } else {
            DnsLongQueryNameDetector::check(p)
        }
    }
}

} // verus!
verus! {

/// The flow index and questions of a query observation that counts toward a flow.
fn query_flow_index<'a>(flows: &[FlowRecord], o: &'a ProtocolObservation) -> (r: Option<(usize, &'a Vec<DnsQuestion>)>)
    requires
        crate::input::flows_sorted(flows@),
    ensures
        r is Some <==> tunnel_query_flow(*o, flows@) is Some,
        r matches Some((k, q)) ==> k < flows@.len() && tunnel_query_flow(*o, flows@) == Some(
            flows@[k as int].reference,
        ) && *q == o.data->Dns_0.questions,
{
    let questions = match complete_dns_query(o) {
        Some(q) => q,
        None => {
            return None;
        },
    };
    let (flow, direction) = match o.flow_association {
        ObservationFlowAssociation::Associated { flow, direction } => (flow, direction),
        _ => {
            return None;
        },
    };
    match direction {
        FlowDirection::SameEndpoint => {
            return None;
        },
        _ => {},
    }
    let k = match crate::input::find_flow(flows, flow) {
        Some(k) => k,
        None => {
            proof {
                assert forall|j: int| 0 <= j < flows@.len() implies !((#[trigger] flows@[j]).reference == flow
                    && flows@[j].end_reason != FlowEndReason::AnalysisStopped) by {}
            }
            return None;
        },
    };
    match flows[k].end_reason {
        FlowEndReason::AnalysisStopped => {
            proof {
                assert forall|j: int| 0 <= j < flows@.len() implies !((#[trigger] flows@[j]).reference == flow
                    && flows@[j].end_reason != FlowEndReason::AnalysisStopped) by {
                    if j < k {
                        crate::input::lemma_flows_pairwise(flows@, j, k as int);
                    } else if j > k {
                        crate::input::lemma_flows_pairwise(flows@, k as int, j);
                    }
                }
            }
            return None;
        },
        _ => {},
    }
    assert(flows@[k as int].reference == flow);
    Some((k, questions))
}

impl DnsPossibleTunnelingDetector {
    /// Creates the detector with its canonical metadata (`dns.possible_tunneling`, version
    /// 1.1.0, skipping partial input).
    pub fn new() -> (d: DnsPossibleTunnelingDetector)
        ensures
            d.spec_metadata().spec_id() == "dns.possible_tunneling"@,
            d.spec_metadata().spec_version() == (DetectorVersion { major: 1, minor: 1, patch: 0 }),
            d.spec_metadata().spec_policy() == IncompleteDataPolicy::Skip,
    {
        proof { lemma_tunnel_id_valid(); }
        DnsPossibleTunnelingDetector {
            metadata: DetectorMetadata::new(
                DetectorId::from_valid("dns.possible_tunneling"),
                DetectorVersion::new(1, 1, 0),
                String::from_str("Possible DNS tunneling pattern"),
                String::from_str(
                    "Identify reconstructed DNS flow instances containing repeated query observations whose names exhibit unusually long, high-octet-diversity characteristics",
                ),
                IncompleteDataPolicy::Skip,
            ),
        }
    }

    /// Creates the detector; it never fails, as its canonical metadata is valid.
    pub fn try_new() -> (r: Result<DnsPossibleTunnelingDetector, FindingValidationError>)
        ensures
            r matches Ok(d) && d.spec_metadata().spec_id() == "dns.possible_tunneling"@,
    {
        Ok(Self::new())
    }

    /// Aggregates the query observations of each input flow, in one pass over the
    /// observations; fails when more distinct flows are tracked than allowed.
    fn aggregate_queries(
        flows: &[FlowRecord],
        obs: &[ProtocolObservation],
        s: &TunnelSettings,
    ) -> (r: Result<Vec<DnsFlowAggregate>, DetectorExecutionError>)
        requires
            crate::input::flows_sorted(flows@),
        ensures
            r is Ok <==> tunnel_tracked(obs@, flows@, tunnel_settings_view(*s).2) <= s.max_tracked,
            r matches Err(e) ==> (e matches DetectorExecutionError::ResourceLimitExceeded(m) && m@ == sanitized_message(
                tracking_limit_text(s.max_tracked as nat),
            )),
            r matches Ok(v) ==> v@.len() == flows@.len() && forall|k: int|
                0 <= k < flows@.len() ==> aggregate_view(#[trigger] v@[k]) == tunnel_aggregate(
                    obs@,
                    flows@,
                    flows@[k].reference,
                    tunnel_settings_view(*s).2,
                ),
    {
        let ghost st = tunnel_settings_view(*s).2;
        let nf = flows.len();
        let no = obs.len();
        let mut aggs: Vec<DnsFlowAggregate> = Vec::new();
        let mut k: usize = 0;
        assert(obs@.take(0) =~= Seq::<ProtocolObservation>::empty());
        while k < nf
            invariant
                nf == flows@.len(),
                k <= nf,
                aggs@.len() == k,
                obs@.take(0) =~= Seq::<ProtocolObservation>::empty(),
                forall|j: int|
                    0 <= j < k ==> aggregate_view(#[trigger] aggs@[j]) == tunnel_aggregate(
                        obs@.take(0),
                        flows@,
                        flows@[j].reference,
                        st,
                    ),
            decreases nf - k,
        {
            aggs.push(DnsFlowAggregate::new());
            k = k + 1;
        }
        let mut tracked_count: usize = 0;
        let mut i: usize = 0;
        while i < no
            invariant
                crate::input::flows_sorted(flows@),
                nf == flows@.len(),
                no == obs@.len(),
                aggs@.len() == nf,
                i <= no,
                st == (s.min_wire as nat, s.min_label as nat, s.min_div@),
                forall|j: int|
                    0 <= j < nf ==> aggregate_view(#[trigger] aggs@[j]) == tunnel_aggregate(
                        obs@.take(i as int),
                        flows@,
                        flows@[j].reference,
                        st,
                    ),
                tracked_count == tunnel_tracked(obs@.take(i as int), flows@, st),
                tracked_count <= s.max_tracked,
            decreases no - i,
        {
            let o = &obs[i];
            let ghost prefix = obs@.take(i as int);
            let ghost next = obs@.take(i + 1);
            assert(next.drop_last() =~= prefix);
            assert(next.last() == obs@[i as int]);
            let (idx, questions) = match query_flow_index(flows, o) {
                Some(p) => p,
                None => {
                    i = i + 1;
                    continue;
                },
            };
            let ghost f = flows@[idx as int].reference;
            let q = measure_questions(questions, s.min_wire, s.min_label, s.min_div);
            let mut agg = aggs[idx];
            if agg.dns_query_observation_count == 0 {
                if tracked_count >= s.max_tracked {
                    proof {
                        lemma_tracked_monotone(obs@, flows@, st, i + 1);
                    }
                    let mut msg = String::from_str("exceeded maximum tracked DNS flows capacity (");
                    push_decimal(&mut msg, s.max_tracked as u128);
                    msg.append(")");
                    assert(msg@ =~= tracking_limit_text(s.max_tracked as nat));
                    return Err(DetectorExecutionError::resource_limit(msg.as_str()));
                }
                tracked_count = tracked_count + 1;
            }
            proof {
                lemma_aggregate_counts(prefix, flows@, f, st);
            }
            let ghost before = aggregate_view(agg);
            match agg.record_query(o.reference, q.matching > 0, q.max_wire, q.max_label, q.max_div) {
                Ok(()) => {},
                Err(e) => {
                    return Err(e);
                },
            }
            aggs.set(idx, agg);
            proof {
                assert forall|j: int|
                    0 <= j < nf implies aggregate_view(#[trigger] aggs@[j]) == tunnel_aggregate(
                    next,
                    flows@,
                    flows@[j].reference,
                    st,
                ) by {
                    if j != idx {
                        if j < idx {
                            crate::input::lemma_flows_pairwise(flows@, j, idx as int);
                        } else {
                            crate::input::lemma_flows_pairwise(flows@, idx as int, j);
                        }
                        assert(flows@[j].reference != f);
                    }
                }
            }
            i = i + 1;
        }
        assert(obs@.take(no as int) =~= obs@);
        Ok(aggs)
    }

    /// The finding about one flow.
    fn flow_draft(
        f: FlowReference,
        a: &DnsFlowAggregate,
        ratio: EvidenceRatio,
        s: &TunnelSettings,
        id: &DetectorId,
        version: DetectorVersion,
    ) -> (d: FindingDraft)
        ensures
            crate::views::draft_view(d) == tunnel_draft(
                f,
                aggregate_view(*a),
                ratio@,
                tunnel_settings_view(*s),
                id@,
                version,
            ),
    {
        let mut ms: Vec<EvidenceMeasurement> = Vec::new();
        ms.push(
            EvidenceMeasurement::new(
                "candidate_query_count",
                EvidenceValue::Unsigned(a.candidate_query_count as u128),
                EvidenceUnit::Count,
            ),
        );
        ms.push(
            EvidenceMeasurement::with_threshold(
                "candidate_query_ratio",
                EvidenceValue::Ratio(ratio),
                EvidenceValue::Ratio(s.min_candidate_ratio),
                EvidenceComparison::GreaterThanOrEqual,
                EvidenceUnit::Ratio,
            ),
        );
        ms.push(
            EvidenceMeasurement::with_threshold(
                "dns_query_observation_count",
                EvidenceValue::Unsigned(a.dns_query_observation_count as u128),
                EvidenceValue::Unsigned(s.min_query_obs as u128),
                EvidenceComparison::GreaterThanOrEqual,
                EvidenceUnit::Count,
            ),
        );
        ms.push(
            EvidenceMeasurement::with_threshold(
                "maximum_label_length",
                EvidenceValue::Unsigned(a.maximum_label_length as u128),
                EvidenceValue::Unsigned(s.min_label as u128),
                EvidenceComparison::GreaterThanOrEqual,
                EvidenceUnit::Bytes,
            ),
        );
        ms.push(
            EvidenceMeasurement::with_threshold(
                "maximum_label_octet_diversity_ratio",
                EvidenceValue::Ratio(a.maximum_label_octet_diversity_ratio),
                EvidenceValue::Ratio(s.min_div),
                EvidenceComparison::GreaterThanOrEqual,
                EvidenceUnit::Ratio,
            ),
        );
        ms.push(
            EvidenceMeasurement::with_threshold(
                "maximum_qname_wire_length",
                EvidenceValue::Unsigned(a.maximum_qname_wire_length as u128),
                EvidenceValue::Unsigned(s.min_wire as u128),
                EvidenceComparison::GreaterThanOrEqual,
                EvidenceUnit::Bytes,
            ),
        );
        let mut observations: Vec<ObservationReference> = Vec::new();
        match a.first_candidate_observation {
            Some(x) => {
                observations.push(x);
                match a.last_candidate_observation {
                    Some(y) => {
                        if y != x {
                            observations.push(y);
                        }
                    },
                    None => {},
                }
            },
            None => {},
        }
        let mut flows: Vec<FlowReference> = Vec::new();
        flows.push(f);
        let e = EvidenceDraft {
            kind: EvidenceKind::RatioComparison,
            description: String::from_str("Flow-level DNS query structural and candidate proportion measurements"),
            packet_references: Vec::new(),
            flow_references: flows,
            observation_references: observations,
            measurements: ms,
            limitations: Vec::new(),
        };
        let mut evidence: Vec<EvidenceDraft> = Vec::new();
        evidence.push(e);
        proof { lemma_dns_technique_valid(); }
        let mapping = MitreMapping {
            technique_id: MitreAttackId::from_valid("T1071.004"),
            technique_name: String::from_str("Application Layer Protocol: DNS"),
            tactic: MitreTactic::CommandAndControl,
            rationale: String::from_str(
                "The detector identified repeated DNS query observations with unusually long, high-octet-diversity names consistent with structured data transmission over DNS. This mapping describes an analytical relationship with network protocol characteristics defined in ATT&CK T1071.004, not confirmed malware or external attribution.",
            ),
            provenance: MitreMappingProvenance::DetectorDeclared { detector_id: id.duplicate(), detector_version: version },
        };
        let mut mappings: Vec<MitreMapping> = Vec::new();
        mappings.push(mapping);
        let d = FindingDraft {
            subject: FindingSubject::single_flow(f),
            title: String::from_str("Possible DNS tunneling pattern"),
            summary: tunnel_summary_text(&ratio),
            rationale: tunnel_rationale_text(a, &ratio),
            severity: Severity::Low,
            confidence: Confidence::Medium,
            evidence,
            mitre_mappings: mappings,
        };
        proof {
            let expected = tunnel_draft(f, aggregate_view(*a), ratio@, tunnel_settings_view(*s), id@, version);
            assert(measurement_views(d.evidence@[0].measurements@) =~= expected.6[0].5);
            assert(d.evidence@[0].observation_references@ =~= expected.6[0].4);
            assert(d.evidence@[0].flow_references@ =~= seq![f]);
            assert(d.evidence@[0].packet_references@ =~= Seq::<PacketReference>::empty());
            assert(d.evidence@[0].limitations@ =~= Seq::<crate::domain::EvidenceLimitation>::empty());
            assert(crate::views::evidence_views(d.evidence@) =~= expected.6);
            assert(crate::views::mapping_views(d.mitre_mappings@) =~= expected.7);
        }
        d
    }
}

} // verus!
verus! {

impl Detector for DnsPossibleTunnelingDetector {
    closed spec fn spec_metadata(&self) -> DetectorMetadata {
        self.metadata
    }

    fn metadata(&self) -> (m: &DetectorMetadata) {
        &self.metadata
    }

    open spec fn spec_params_valid(&self, parameters: Seq<ParameterView>) -> bool {
        tunnel_params_valid(parameters)
    }

    open spec fn spec_rejection(&self, parameters: Seq<ParameterView>, e: DetectorConfigError) -> bool {
        tunnel_first_rejection(parameters, e)
    }

    open spec fn spec_fails_internally(
        &self,
        input: DetectionInput<'_>,
        parameters: Seq<ParameterView>,
        prior: Seq<DraftView>,
        finding_budget: nat,
        evidence_budget: nat,
    ) -> bool {
        tunnel_settings(parameters) is None
    }

    fn validate_parameters(&self, parameters: &DetectorParameters) -> (r: Result<(), DetectorConfigError>)
        ensures
            r is Ok <==> tunnel_params_valid(parameters@),
            r matches Err(e) ==> tunnel_first_rejection(parameters@, e),
    {
        let r = validate_with_rules::<DnsPossibleTunnelingDetector>(parameters);
        proof {
            assert((|p: ParameterView| DnsPossibleTunnelingDetector::verdict(p)) =~= (|p: ParameterView| tunnel_verdict(p)));
        }
        r
    }

    open spec fn spec_drafts(&self, input: DetectionInput<'_>, parameters: Seq<ParameterView>) -> Seq<DraftView> {
        collect_outcomes(
            tunnel_outcomes(
                input.observations_view(),
                input.flows_view(),
                tunnel_settings(parameters)->0,
                self.spec_metadata().spec_id(),
                self.spec_metadata().spec_version(),
            ),
        )->0
    }

    open spec fn spec_succeeds(
        &self,
        input: DetectionInput<'_>,
        parameters: Seq<ParameterView>,
        prior: Seq<DraftView>,
        finding_budget: nat,
        evidence_budget: nat,
    ) -> bool {
        tunnel_run_succeeds(
            parameters,
            input.observations_view(),
            input.flows_view(),
            self.spec_metadata().spec_id(),
            self.spec_metadata().spec_version(),
            prior,
            finding_budget,
            evidence_budget,
        )
    }

    fn evaluate(
        &self,
        input: &DetectionInput<'_>,
        parameters: &DetectorParameters,
        output: &mut DetectorDraftSink,
    ) -> (r: Result<(), DetectorExecutionError>)
        ensures
            r is Ok <==> tunnel_run_succeeds(
                parameters@,
                input.observations_view(),
                input.flows_view(),
                self.spec_metadata().spec_id(),
                self.spec_metadata().spec_version(),
                draft_views(old(output).drafts_view()),
                old(output).finding_budget(),
                old(output).evidence_budget(),
            ),
            r is Ok ==> draft_views(final(output).drafts_view()) == draft_views(old(output).drafts_view())
                + collect_outcomes(
                tunnel_outcomes(
                    input.observations_view(),
                    input.flows_view(),
                    tunnel_settings(parameters@)->0,
                    self.spec_metadata().spec_id(),
                    self.spec_metadata().spec_version(),
                ),
            )->0,
            tunnel_settings(parameters@) is None ==> (r matches Err(DetectorExecutionError::InternalError(_))
                && final(output).drafts_view() == old(output).drafts_view()),
            tunnel_settings(parameters@) is Some && !tunnel_within_tracking(
                input.observations_view(),
                input.flows_view(),
                tunnel_settings(parameters@)->0,
            ) ==> (r matches Err(DetectorExecutionError::ResourceLimitExceeded(m)) && m@ == sanitized_message(
                tracking_limit_text((tunnel_settings(parameters@)->0).3),
            ) && final(output).drafts_view() == old(output).drafts_view()),
            tunnel_settings(parameters@) is Some && tunnel_within_tracking(
                input.observations_view(),
                input.flows_view(),
                tunnel_settings(parameters@)->0,
            ) ==> (r matches Err(e) ==> e is ResourceLimitExceeded),
    {
        let s = match read_tunnel_settings(parameters) {
            Ok(s) => s,
            Err(e) => {
                return Err(e);
            },
        };
        let ghost sv = tunnel_settings_view(s);
        let flows = input.flows();
        let obs = input.observations();
        let aggs = match Self::aggregate_queries(flows, obs, &s) {
            Ok(v) => v,
            Err(e) => {
                return Err(e);
            },
        };
        let id = self.metadata.id();
        let version = self.metadata.version();
        let ghost outcomes = tunnel_outcomes(obs@, flows@, sv, id@, version);
        let ghost base = draft_views(output.drafts_view());
        let ghost fb = output.finding_budget();
        let ghost eb = output.evidence_budget();
        assert(outcomes.take(0) =~= Seq::<StepOutcome>::empty());
        output.within_budget();
        proof {
            assert(base + Seq::<DraftView>::empty() =~= base);
            assert(Seq::<DraftView>::empty() + base =~= base);
            crate::views::lemma_view_evidence_total_append(base, Seq::<DraftView>::empty());
        }
        let n = flows.len();
        let mut i: usize = 0;
        while i < n
            invariant
                n == flows@.len(),
                i <= n,
                flows@ == input.flows_view(),
                obs@ == input.observations_view(),
                sv == tunnel_settings_view(s),
                sv == tunnel_settings(parameters@)->0,
                tunnel_settings(parameters@) is Some,
                tunnel_within_tracking(obs@, flows@, sv),
                id@ == self.spec_metadata().spec_id(),
                version == self.spec_metadata().spec_version(),
                aggs@.len() == n,
                forall|k: int|
                    0 <= k < n ==> aggregate_view(#[trigger] aggs@[k]) == tunnel_aggregate(
                        obs@,
                        flows@,
                        flows@[k].reference,
                        sv.2,
                    ),
                outcomes == tunnel_outcomes(obs@, flows@, sv, id@, version),
                base == draft_views(old(output).drafts_view()),
                fb == old(output).finding_budget(),
                eb == old(output).evidence_budget(),
                output.finding_budget() == fb,
                output.evidence_budget() == eb,
                collect_outcomes(outcomes.take(i as int)) is Some,
                draft_views(output.drafts_view()) == base + collect_outcomes(outcomes.take(i as int))->0,
                budget_fits(base, fb, eb, collect_outcomes(outcomes.take(i as int))->0),
            decreases n - i,
        {
            let a = aggs[i];
            let fr = flows[i].reference;
            proof {
                assert(outcomes.take(i + 1).drop_last() =~= outcomes.take(i as int));
                assert(outcomes.take(i + 1).last() == outcomes[i as int]);
                assert(outcomes[i as int] == tunnel_flow_outcome(flows@[i as int], obs@, flows@, sv, id@, version));
                assert(aggregate_view(a) == tunnel_aggregate(obs@, flows@, fr, sv.2));
                lemma_aggregate_counts(obs@, flows@, fr, sv.2);
            }
            if a.dns_query_observation_count < s.min_query_obs || a.candidate_query_count == 0 {
                i = i + 1;
                continue;
            }
            proof {
                lemma_reduced_bounds(a.candidate_query_count as nat, a.dns_query_observation_count as nat);
            }
            let ratio = match EvidenceRatio::from_fraction(
                a.candidate_query_count as u128,
                a.dns_query_observation_count as u128,
            ) {
                Some(r) => r,
                None => {
                    i = i + 1;
                    continue;
                },
            };
            if ratio.lt(&s.min_candidate_ratio) {
                i = i + 1;
                continue;
            }
            let draft = Self::flow_draft(fr, &a, ratio, &s, id, version);
            match output.push_step(draft, Ghost(base), Ghost(outcomes), Ghost(i as int)) {
                Ok(()) => {},
                Err(e) => {
                    proof {
                        if collect_outcomes(outcomes) is Some {
                            lemma_collect_prefix(outcomes, i + 1);
                            crate::views::lemma_view_evidence_total_append(base, collect_outcomes(outcomes.take(i + 1))->0);
                        }
                    }
                    return Err(e);
                },
            }
            i = i + 1;
        }
        proof {
            assert(outcomes.take(n as int) =~= outcomes);
        }
        Ok(())
    }
}

} // verus!

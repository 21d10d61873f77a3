//! Explainable repeated low-volume flow behavior detector and connection peer key.
//!
//! Flags endpoint pairs exhibiting repetitive low-volume flow patterns without asserting
//! malware or confirmed command-and-control.

use vstd::prelude::*;
use crate::config::{DetectorParameter, DetectorParameterValue, DetectorParameters, ParameterView};
use crate::detector::{
    budget_fits, collect_outcomes, lemma_collect_prefix, Detector, DetectorDraftSink, DetectorMetadata,
    IncompleteDataPolicy, StepOutcome,
};
use crate::dns_anomaly::{ratio_setting, unsigned_setting};
use crate::domain::{
    Confidence, DetectorId, DetectorVersion, EvidenceComparison, EvidenceDraft, EvidenceKind,
    EvidenceMeasurement, EvidenceUnit, EvidenceValue, FindingDraft, FindingSubject,
    FindingValidationError, FlowReference, ObservationReference, PacketReference, Severity,
};
use crate::error::{DetectorConfigError, DetectorExecutionError};
use crate::flow::{ip_lt, transport_rank, FlowEndReason, FlowRecord, FlowTemporalValue, IpAddress, TransportProtocol};
use crate::input::{DetectionInput, DetectionInputCompleteness};
use crate::params::{all_accepted, first_rejection_error, validate_with_rules, ParamVerdict, ParameterRules};
use crate::ratio::{lemma_reduced_bounds, reduced, value_lt, EvidenceRatio, FlowDuration};
use crate::sorted::{lemma_sorted_unique, strictly_sorted};
use crate::text::str_equal;
use crate::views::{
    draft_views, duration_view, evidence_view, measurement_views, ratio_view, unsigned_view, DraftView,
};

verus! {

broadcast use vstd::string::group_string_axioms;

/// Transport protocol and canonical peer addresses (first not after second).
pub type PeerKeyView = (TransportProtocol, IpAddress, IpAddress);

/// Canonical, port-agnostic endpoint pair identifying communications between two hosts for a
/// transport protocol.
#[derive(Debug, Clone, Copy, PartialEq, Eq, Structural, Hash)]
pub struct ConnectionPeerKey {
    transport: TransportProtocol,
    peer_a: IpAddress,
    peer_b: IpAddress,
}

impl View for ConnectionPeerKey {
    type V = PeerKeyView;

    closed spec fn view(&self) -> PeerKeyView {
        (self.transport, self.peer_a, self.peer_b)
    }
}

/// The canonical key of a transport and two addresses: the addresses in canonical order.
pub open spec fn canonical_peer_key(t: TransportProtocol, ip1: IpAddress, ip2: IpAddress) -> PeerKeyView {
    if !ip_lt(ip2, ip1) {
        (t, ip1, ip2)
    } else {
        (t, ip2, ip1)
    }
}

/// Strict order on peer keys: transport, then first peer, then second peer.
pub open spec fn peer_lt(a: PeerKeyView, b: PeerKeyView) -> bool {
    ||| transport_rank(a.0) < transport_rank(b.0)
    ||| (a.0 == b.0 && ip_lt(a.1, b.1))
    ||| (a.0 == b.0 && a.1 == b.1 && ip_lt(a.2, b.2))
}

/// The order on peer keys is asymmetric and transitive.
pub proof fn lemma_peer_lt_order()
    ensures
        crate::sorted::asymmetric(|a: PeerKeyView, b: PeerKeyView| peer_lt(a, b)),
        forall|a: PeerKeyView, b: PeerKeyView, c: PeerKeyView| #[trigger] peer_lt(a, b) && #[trigger] peer_lt(b, c) ==> peer_lt(a, c),
{
}

impl ConnectionPeerKey {
    /// Creates a canonical key, ordering the two addresses so the first is not after the second.
    pub fn new(transport: TransportProtocol, ip1: IpAddress, ip2: IpAddress) -> (k: ConnectionPeerKey)
        ensures
            k@ == canonical_peer_key(transport, ip1, ip2),
    {
        if !ip2.lt(&ip1) {
            ConnectionPeerKey { transport, peer_a: ip1, peer_b: ip2 }
        } else {
            ConnectionPeerKey { transport, peer_a: ip2, peer_b: ip1 }
        }
    }

    /// Returns the transport protocol.
    pub fn transport(&self) -> (t: TransportProtocol)
        ensures
            t == self@.0,
    {
        self.transport
    }

    /// Returns the canonical first peer address.
    pub fn peer_a(&self) -> (a: IpAddress)
        ensures
            a == self@.1,
    {
        self.peer_a
    }

    /// Returns the canonical second peer address.
    pub fn peer_b(&self) -> (b: IpAddress)
        ensures
            b == self@.2,
    {
        self.peer_b
    }

    /// Three-way comparison in canonical key order.
    pub fn precedes(&self, other: &ConnectionPeerKey) -> (b: bool)
        ensures
            b == peer_lt(self@, other@),
    {
        let r1 = self.transport.rank();
        let r2 = other.transport.rank();
        if r1 != r2 {
            return r1 < r2;
        }
        assert(self.transport == other.transport) by {
            assert(transport_rank(self.transport) == transport_rank(other.transport));
        }
        if self.peer_a != other.peer_a {
            return self.peer_a.lt(&other.peer_a);
        }
        self.peer_b.lt(&other.peer_b)
    }
}

/// Default minimum eligible flow instances.
pub const DEFAULT_MINIMUM_ELIGIBLE_FLOW_INSTANCES: u64 = 6;

/// Default maximum packets per flow.
pub const DEFAULT_MAXIMUM_PACKETS_PER_FLOW: u64 = 20;

/// Default maximum wire bytes per flow.
pub const DEFAULT_MAXIMUM_WIRE_BYTES_PER_FLOW: u64 = 32_768;

/// Default maximum flow duration in seconds.
pub const DEFAULT_MAXIMUM_FLOW_DURATION_SECS: u64 = 60;

/// Default maximum tracked peer groups.
pub const DEFAULT_MAXIMUM_TRACKED_PEER_GROUPS: usize = 65_536;

/// Largest accepted maximum of tracked peer groups.
pub const MAX_MAXIMUM_TRACKED_PEER_GROUPS: usize = 1_000_000;

/// The verdict of the repeated low-volume flow detector on one parameter.
pub open spec fn low_volume_verdict(p: ParameterView) -> ParamVerdict {
    let key = p.0;
    let value = p.1;
    if key == "minimum_eligible_flow_instances"@ {
        match value {
            DetectorParameterValue::Unsigned(v) => if v < 2 || v > u64::MAX {
                ParamVerdict::OutOfRange("minimum_eligible_flow_instances must be between 2 and u64::MAX")
            } else {
                ParamVerdict::Accepted
            },
            _ => ParamVerdict::WrongType("unsigned integer"),
        }
    } else if key == "minimum_candidate_flow_ratio"@ {
        match value {
            DetectorParameterValue::Ratio(r) => if r@.0 == 0 || r@.0 > r@.1 {
                ParamVerdict::OutOfRange("minimum_candidate_flow_ratio must be in range 0 < r <= 1")
            } else {
                ParamVerdict::Accepted
            },
            _ => ParamVerdict::WrongType("ratio"),
        }
    } else if key == "maximum_packets_per_flow"@ {
        match value {
            DetectorParameterValue::Unsigned(v) => if v < 1 || v > u64::MAX {
                ParamVerdict::OutOfRange("maximum_packets_per_flow must be between 1 and u64::MAX")
            } else {
                ParamVerdict::Accepted
            },
            _ => ParamVerdict::WrongType("unsigned integer"),
        }
    } else if key == "maximum_wire_bytes_per_flow"@ {
        match value {
            DetectorParameterValue::Unsigned(v) => if v < 1 || v > u64::MAX {
                ParamVerdict::OutOfRange("maximum_wire_bytes_per_flow must be between 1 and u64::MAX")
            } else {
                ParamVerdict::Accepted
            },
            _ => ParamVerdict::WrongType("unsigned integer"),
        }
    } else if key == "maximum_flow_duration"@ {
        match value {
            DetectorParameterValue::Duration(d) => if d@.0 == 0 {
                ParamVerdict::OutOfRange("maximum_flow_duration must be strictly greater than zero")
            } else {
                ParamVerdict::Accepted
            },
            _ => ParamVerdict::WrongType("duration"),
        }
    } else if key == "maximum_tracked_peer_groups"@ {
        match value {
            DetectorParameterValue::Unsigned(v) => if v < 1 || v > 1_000_000 {
                ParamVerdict::OutOfRange("maximum_tracked_peer_groups must be between 1 and 1000000")
            } else {
                ParamVerdict::Accepted
            },
            _ => ParamVerdict::WrongType("unsigned integer"),
        }
    } else {
        ParamVerdict::UnknownKey
    }
}

/// Whether every parameter is accepted by the repeated low-volume flow detector.
pub open spec fn low_volume_params_valid(ps: Seq<ParameterView>) -> bool {
    all_accepted(ps, |p: ParameterView| low_volume_verdict(p))
}

/// `e` is the error for the first parameter the repeated low-volume flow detector rejects.
pub open spec fn low_volume_first_rejection(ps: Seq<ParameterView>, e: DetectorConfigError) -> bool {
    first_rejection_error(ps, |p: ParameterView| low_volume_verdict(p), e)
}

/// Settings: minimum eligible instances, minimum candidate ratio, maximum packets, maximum
/// wire bytes, maximum duration, maximum tracked peer groups.
pub type LowVolumeSettingsView = (nat, (nat, nat), nat, nat, (nat, nat), nat);

/// The duration value of a parameter, or a default when absent or of another type.
pub open spec fn duration_setting(ps: Seq<ParameterView>, key: Seq<char>, default: (nat, nat)) -> (nat, nat) {
    match crate::config::lookup_parameter(ps, key) {
        Some(DetectorParameterValue::Duration(d)) => d@,
        _ => default,
    }
}

/// The settings of a parameter list, with defaults; `None` when one does not fit its
/// machine type.
pub open spec fn low_volume_settings(ps: Seq<ParameterView>) -> Option<LowVolumeSettingsView> {
    let min_eligible = unsigned_setting(ps, "minimum_eligible_flow_instances"@, 6);
    let ratio = ratio_setting(ps, "minimum_candidate_flow_ratio"@, (3, 4));
    let max_packets = unsigned_setting(ps, "maximum_packets_per_flow"@, 20);
    let max_wire = unsigned_setting(ps, "maximum_wire_bytes_per_flow"@, 32768);
    let max_duration = duration_setting(ps, "maximum_flow_duration"@, (60, 1));
    let max_groups = unsigned_setting(ps, "maximum_tracked_peer_groups"@, 65536);
    if min_eligible <= u64::MAX && max_packets <= u64::MAX && max_wire <= u64::MAX && max_groups
        <= usize::MAX {
        Some((min_eligible, ratio, max_packets, max_wire, max_duration, max_groups))
    } else {
        None
    }
}

/// The exact duration of a flow, when available.
pub open spec fn flow_duration(f: FlowRecord) -> Option<(nat, nat)> {
    match f.temporal.duration {
        FlowTemporalValue::Available(d) => Some(d@),
        FlowTemporalValue::Unavailable(_) => None,
    }
}

/// A flow that counts toward its peer pair: complete, between distinct hosts, with an exact
/// duration, clean timestamps and untruncated, directional traffic.
pub open spec fn low_volume_eligible(f: FlowRecord) -> bool {
    &&& f.end_reason != FlowEndReason::AnalysisStopped
    &&& f.key.endpoint_a.address != f.key.endpoint_b.address
    &&& flow_duration(f) is Some
    &&& f.temporal.coverage.unavailable_timestamps == 0
    &&& f.temporal.coverage.invalid_timestamps == 0
    &&& f.temporal.coverage.non_monotonic_transitions == 0
    &&& f.traffic.total.truncated_packet_count == 0
    &&& f.traffic.total.packet_count != 0
    &&& f.traffic.same_endpoint.packet_count == 0
}

/// An eligible flow that is short and low-volume under the thresholds.
pub open spec fn low_volume_candidate(f: FlowRecord, s: LowVolumeSettingsView) -> bool {
    &&& f.traffic.total.packet_count <= s.2
    &&& f.traffic.total.wire_bytes <= s.3
    &&& !value_lt(s.4, flow_duration(f)->0)
}

/// The peer key of a flow.
pub open spec fn flow_peer_key(f: FlowRecord) -> PeerKeyView {
    canonical_peer_key(f.key.protocol, f.key.endpoint_a.address, f.key.endpoint_b.address)
}

/// Per-peer aggregate: eligible count, candidate count, maxima of packets, wire bytes and
/// duration over candidates, first and last candidate flow, first and last candidate packet.
pub type PeerAggregate = (
    nat,
    nat,
    nat,
    nat,
    (nat, nat),
    Option<FlowReference>,
    Option<FlowReference>,
    Option<PacketReference>,
    Option<PacketReference>,
);

/// The empty peer aggregate.
pub open spec fn empty_peer_aggregate() -> PeerAggregate {
    (0, 0, 0, 0, (0, 1), None, None, None, None)
}

/// Records one eligible flow into an aggregate.
pub open spec fn peer_step(a: PeerAggregate, f: FlowRecord, candidate: bool) -> PeerAggregate {
    if candidate {
        let d = flow_duration(f)->0;
        (
            a.0 + 1,
            a.1 + 1,
            if f.traffic.total.packet_count > a.2 {
                f.traffic.total.packet_count as nat
            } else {
                a.2
            },
            if f.traffic.total.wire_bytes > a.3 {
                f.traffic.total.wire_bytes as nat
            } else {
                a.3
            },
            if value_lt(a.4, d) {
                d
            } else {
                a.4
            },
            if a.5 is None {
                Some(f.reference)
            } else {
                a.5
            },
            Some(f.reference),
            if a.5 is None {
                Some(f.first_packet)
            } else {
                a.7
            },
            Some(f.last_packet),
        )
    } else {
        (a.0 + 1, a.1, a.2, a.3, a.4, a.5, a.6, a.7, a.8)
    }
}

/// The aggregate of one peer key over a sequence of flows.
pub open spec fn peer_aggregate(flows: Seq<FlowRecord>, k: PeerKeyView, s: LowVolumeSettingsView) -> PeerAggregate
    decreases flows.len(),
{
    if flows.len() == 0 {
        empty_peer_aggregate()
    } else {
        let prev = peer_aggregate(flows.drop_last(), k, s);
        let f = flows.last();
        if low_volume_eligible(f) && flow_peer_key(f) == k {
            peer_step(prev, f, low_volume_candidate(f, s))
        } else {
            prev
        }
    }
}

/// Counts stay within the number of flows, candidates within eligible flows, and the
/// first candidate flow is present exactly when there is a candidate.
pub proof fn lemma_peer_aggregate_counts(flows: Seq<FlowRecord>, k: PeerKeyView, s: LowVolumeSettingsView)
    ensures
        peer_aggregate(flows, k, s).0 <= flows.len(),
        peer_aggregate(flows, k, s).1 <= peer_aggregate(flows, k, s).0,
        (peer_aggregate(flows, k, s).1 > 0) == (peer_aggregate(flows, k, s).5 is Some),
        (peer_aggregate(flows, k, s).1 > 0) == (peer_aggregate(flows, k, s).6 is Some),
        (peer_aggregate(flows, k, s).1 > 0) == (peer_aggregate(flows, k, s).7 is Some),
        (peer_aggregate(flows, k, s).1 > 0) == (peer_aggregate(flows, k, s).8 is Some),
    decreases flows.len(),
{
    if flows.len() > 0 {
        lemma_peer_aggregate_counts(flows.drop_last(), k, s);
    }
}

/// Number of distinct peer keys tracked after a sequence of flows.
pub open spec fn peer_tracked(flows: Seq<FlowRecord>, s: LowVolumeSettingsView) -> nat
    decreases flows.len(),
{
    if flows.len() == 0 {
        0
    } else {
        let prev = peer_tracked(flows.drop_last(), s);
        let f = flows.last();
        if low_volume_eligible(f) && peer_aggregate(flows.drop_last(), flow_peer_key(f), s).0 == 0 {
            prev + 1
        } else {
            prev
        }
    }
}

/// Tracking never shrinks as flows are added.
pub proof fn lemma_peer_tracked_monotone(flows: Seq<FlowRecord>, s: LowVolumeSettingsView, k: int)
    requires
        0 <= k <= flows.len(),
    ensures
        peer_tracked(flows.take(k), s) <= peer_tracked(flows, s),
    decreases flows.len(),
{
    if k < flows.len() {
        lemma_peer_tracked_monotone(flows.drop_last(), s, k);
        assert(flows.drop_last().take(k) =~= flows.take(k));
    } else {
        assert(flows.take(k) =~= flows);
    }
}

/// The peer keys with at least one eligible flow.
pub open spec fn keys_of_flows(ks: Seq<PeerKeyView>, flows: Seq<FlowRecord>, s: LowVolumeSettingsView) -> bool {
    forall|k: PeerKeyView| ks.contains(k) <==> peer_aggregate(flows, k, s).0 > 0
}

/// The peer keys with at least one eligible flow, in canonical key order.
pub open spec fn sorted_peer_keys(flows: Seq<FlowRecord>, s: LowVolumeSettingsView) -> Seq<PeerKeyView> {
    choose|ks: Seq<PeerKeyView>|
        strictly_sorted(ks, |a: PeerKeyView, b: PeerKeyView| peer_lt(a, b)) && keys_of_flows(ks, flows, s)
}

/// The flow references of the evidence: first and last candidate flow, in order, once each.
pub open spec fn candidate_flows(first: FlowReference, last: FlowReference) -> Seq<FlowReference> {
    if first == last {
        seq![first]
    } else if first.ordinal < last.ordinal {
        seq![first, last]
    } else {
        seq![last, first]
    }
}

/// The packet references of the evidence: first and last candidate packet, in order, once each.
pub open spec fn candidate_packets(first: PacketReference, last: PacketReference) -> Seq<PacketReference> {
    if first.capture_record_ordinal == last.capture_record_ordinal {
        seq![first]
    } else if first.capture_record_ordinal < last.capture_record_ordinal {
        seq![first, last]
    } else {
        seq![last, first]
    }
}

/// Rationale of a repeated low-volume flow finding.
pub open spec fn low_volume_rationale() -> Seq<char> {
    "Observed repeated flow instances between the canonical IP peer pair that are short in duration and low in wire bytes and packet count. While repetitive low-volume connections can indicate periodic polling, telemetry, or keepalives, they are also commonly produced by benign services such as health checks, monitoring agents, scheduled polling, API retries, service meshes, load-balancer probes, DNS activity, application heartbeats, or short-lived background tasks."@
}

/// The finding about one peer pair.
pub open spec fn low_volume_draft(a: PeerAggregate, ratio: (nat, nat), s: LowVolumeSettingsView) -> DraftView {
    let pkts = candidate_packets(a.7->0, a.8->0);
    let flows = candidate_flows(a.5->0, a.6->0);
    (
        (pkts, flows, Seq::<ObservationReference>::empty()),
        "Repeated low-volume flow pattern"@,
        "Repeated flow instances between the same canonical IP peer pair are predominantly short and low-volume under configured thresholds."@,
        low_volume_rationale(),
        Severity::Low,
        Confidence::Medium,
        seq![
            (
                EvidenceKind::RatioComparison,
                "Repeated low-volume flow aggregate measurements"@,
                pkts,
                flows,
                Seq::<ObservationReference>::empty(),
                seq![
                    ("candidate_flow_count"@, unsigned_view(a.1), None, EvidenceUnit::Count),
                    ("candidate_flow_ratio"@, ratio_view(ratio), Some((ratio_view(s.1), EvidenceComparison::GreaterThanOrEqual)), EvidenceUnit::Ratio),
                    ("eligible_flow_instance_count"@, unsigned_view(a.0), Some((unsigned_view(s.0), EvidenceComparison::GreaterThanOrEqual)), EvidenceUnit::Count),
                    ("maximum_candidate_duration"@, duration_view(a.4), Some((duration_view(s.4), EvidenceComparison::LessThanOrEqual)), EvidenceUnit::Seconds),
                    ("maximum_candidate_packet_count"@, unsigned_view(a.2), Some((unsigned_view(s.2), EvidenceComparison::LessThanOrEqual)), EvidenceUnit::Packets),
                    ("maximum_candidate_wire_bytes"@, unsigned_view(a.3), Some((unsigned_view(s.3), EvidenceComparison::LessThanOrEqual)), EvidenceUnit::Bytes),
                ],
                Seq::empty(),
            ),
        ],
        Seq::empty(),
    )
}

/// What the detector reports about one peer pair, once every flow is aggregated.
pub open spec fn low_volume_key_outcome(a: PeerAggregate, s: LowVolumeSettingsView) -> StepOutcome {
    if a.0 < s.0 || a.1 == 0 {
        Some(None)
    } else {
        let ratio = reduced(a.1, a.0);
        if value_lt(ratio, s.1) {
            Some(None)
        } else {
            Some(Some(low_volume_draft(a, ratio, s)))
        }
    }
}

/// What the detector reports about each peer pair, in canonical key order.
pub open spec fn low_volume_outcomes(flows: Seq<FlowRecord>, s: LowVolumeSettingsView) -> Seq<StepOutcome> {
    sorted_peer_keys(flows, s).map_values(|k: PeerKeyView| low_volume_key_outcome(peer_aggregate(flows, k, s), s))
}

/// The number of tracked peer groups stays within the configured maximum.
pub open spec fn low_volume_within_tracking(flows: Seq<FlowRecord>, s: LowVolumeSettingsView) -> bool {
    peer_tracked(flows, s) <= s.5
}

/// Whether a run over complete input succeeds: usable thresholds, no more tracked peer
/// groups than allowed, and room in the budgets.
pub open spec fn low_volume_run_succeeds(
    ps: Seq<ParameterView>,
    flows: Seq<FlowRecord>,
    base: Seq<DraftView>,
    finding_budget: nat,
    evidence_budget: nat,
) -> bool {
    &&& low_volume_settings(ps) is Some
    &&& low_volume_within_tracking(flows, low_volume_settings(ps)->0)
    &&& collect_outcomes(low_volume_outcomes(flows, low_volume_settings(ps)->0)) is Some
    &&& budget_fits(
        base,
        finding_budget,
        evidence_budget,
        collect_outcomes(low_volume_outcomes(flows, low_volume_settings(ps)->0))->0,
    )
}

} // verus!
verus! {

/// The order on peer keys is total on distinct keys.
pub proof fn lemma_peer_lt_total(a: PeerKeyView, b: PeerKeyView)
    ensures
        a != b ==> peer_lt(a, b) || peer_lt(b, a),
{
}

/// An aggregate that counted nothing is the empty aggregate.
pub proof fn lemma_peer_aggregate_empty(flows: Seq<FlowRecord>, k: PeerKeyView, s: LowVolumeSettingsView)
    ensures
        peer_aggregate(flows, k, s).0 == 0 ==> peer_aggregate(flows, k, s) == empty_peer_aggregate(),
    decreases flows.len(),
{
    if flows.len() > 0 {
        lemma_peer_aggregate_empty(flows.drop_last(), k, s);
    }
}

/// Peer keys strictly increase in canonical order.
pub open spec fn peer_sorted(ks: Seq<PeerKeyView>) -> bool {
    forall|i: int, j: int| 0 <= i < j < ks.len() ==> #[trigger] peer_lt(ks[i], ks[j])
}

/// Bounded aggregate of the eligible flows of one peer pair.
#[derive(Debug, Clone, Copy)]
pub struct RepeatedFlowAggregate {
    /// Eligible flow instances.
    pub eligible_flow_instance_count: u64,
    /// Candidate (short, low-volume) flow instances.
    pub candidate_flow_count: u64,
    /// Largest candidate packet count.
    pub maximum_candidate_packet_count: u64,
    /// Largest candidate wire byte count.
    pub maximum_candidate_wire_bytes: u64,
    /// Longest candidate duration.
    pub maximum_candidate_duration: FlowDuration,
    /// First candidate flow.
    pub first_candidate_flow: Option<FlowReference>,
    /// Last candidate flow.
    pub last_candidate_flow: Option<FlowReference>,
    /// First packet of the first candidate flow.
    pub first_packet: Option<PacketReference>,
    /// Last packet of the last candidate flow.
    pub last_packet: Option<PacketReference>,
}

/// The abstract content of a peer aggregate.
pub open spec fn peer_view(a: RepeatedFlowAggregate) -> PeerAggregate {
    (
        a.eligible_flow_instance_count as nat,
        a.candidate_flow_count as nat,
        a.maximum_candidate_packet_count as nat,
        a.maximum_candidate_wire_bytes as nat,
        a.maximum_candidate_duration@,
        a.first_candidate_flow,
        a.last_candidate_flow,
        a.first_packet,
        a.last_packet,
    )
}

impl RepeatedFlowAggregate {
    /// The empty aggregate.
    pub fn new() -> (a: RepeatedFlowAggregate)
        ensures
            peer_view(a) == empty_peer_aggregate(),
    {
        RepeatedFlowAggregate {
            eligible_flow_instance_count: 0,
            candidate_flow_count: 0,
            maximum_candidate_packet_count: 0,
            maximum_candidate_wire_bytes: 0,
            maximum_candidate_duration: FlowDuration::zero(),
            first_candidate_flow: None,
            last_candidate_flow: None,
            first_packet: None,
            last_packet: None,
        }
    }

    /// Records one eligible flow of exact duration `duration`; a candidate also updates the
    /// maxima and the first and last candidate flow and packet.
    fn record_eligible(&mut self, flow: &FlowRecord, duration: FlowDuration, is_candidate: bool) -> (r: Result<
        (),
        DetectorExecutionError,
    >)
        requires
            flow_duration(*flow) == Some(duration@),
        ensures
            r is Ok <==> old(self).eligible_flow_instance_count < u64::MAX && (is_candidate
                ==> old(self).candidate_flow_count < u64::MAX),
            r is Ok ==> peer_view(*final(self)) == peer_step(peer_view(*old(self)), *flow, is_candidate),
    {
        if self.eligible_flow_instance_count == u64::MAX {
            return Err(DetectorExecutionError::resource_limit("eligible flow count overflow"));
        }
        if is_candidate && self.candidate_flow_count == u64::MAX {
            return Err(DetectorExecutionError::resource_limit("candidate flow count overflow"));
        }
        self.eligible_flow_instance_count = self.eligible_flow_instance_count + 1;
        if is_candidate {
            self.candidate_flow_count = self.candidate_flow_count + 1;
            let wire_bytes = flow.traffic.total.wire_bytes;
            let packet_count = flow.traffic.total.packet_count;
            if wire_bytes > self.maximum_candidate_wire_bytes {
                self.maximum_candidate_wire_bytes = wire_bytes;
            }
            if packet_count > self.maximum_candidate_packet_count {
                self.maximum_candidate_packet_count = packet_count;
            }
            if self.maximum_candidate_duration.lt(&duration) {
                self.maximum_candidate_duration = duration;
            }
            if self.first_candidate_flow.is_none() {
                self.first_candidate_flow = Some(flow.reference);
                self.first_packet = Some(flow.first_packet);
            }
            self.last_candidate_flow = Some(flow.reference);
            self.last_packet = Some(flow.last_packet);
        }
        Ok(())
    }
}

/// Effective settings of the repeated low-volume flow detector.
pub struct LowVolumeSettings {
    /// Minimum eligible flow instances per peer pair.
    pub min_eligible_instances: u64,
    /// Minimum candidate flow ratio.
    pub min_candidate_ratio: EvidenceRatio,
    /// Maximum packets of a candidate flow.
    pub max_packets: u64,
    /// Maximum wire bytes of a candidate flow.
    pub max_wire_bytes: u64,
    /// Maximum duration of a candidate flow.
    pub max_duration: FlowDuration,
    /// Maximum tracked peer groups.
    pub max_peer_groups: usize,
}

/// The abstract content of the settings.
pub open spec fn low_volume_settings_view(s: LowVolumeSettings) -> LowVolumeSettingsView {
    (
        s.min_eligible_instances as nat,
        s.min_candidate_ratio@,
        s.max_packets as nat,
        s.max_wire_bytes as nat,
        s.max_duration@,
        s.max_peer_groups as nat,
    )
}

/// Some threshold does not fit the detector's counters (as opposed to the tracking limit not
/// fitting the platform).
pub open spec fn low_volume_threshold_unusable(ps: Seq<ParameterView>) -> bool {
    ||| unsigned_setting(ps, "minimum_eligible_flow_instances"@, 6) > u64::MAX
    ||| unsigned_setting(ps, "maximum_packets_per_flow"@, 20) > u64::MAX
    ||| unsigned_setting(ps, "maximum_wire_bytes_per_flow"@, 32768) > u64::MAX
}

/// Reads the settings from the parameters, with defaults.
fn read_low_volume_settings(parameters: &DetectorParameters) -> (r: Result<LowVolumeSettings, DetectorExecutionError>)
    ensures
        r is Ok <==> low_volume_settings(parameters@) is Some,
        r matches Ok(s) ==> low_volume_settings_view(s) == low_volume_settings(parameters@)->0,
        r matches Err(e) ==> (e is InternalError <==> low_volume_threshold_unusable(parameters@)),
{
    let min_eligible = parameters.unsigned_or("minimum_eligible_flow_instances", DEFAULT_MINIMUM_ELIGIBLE_FLOW_INSTANCES as u128);
    if min_eligible > u64::MAX as u128 {
        return Err(DetectorExecutionError::internal_error("invalid minimum_eligible_flow_instances"));
    }
    let ratio = parameters.ratio_or("minimum_candidate_flow_ratio", EvidenceRatio::from_lowest_terms(3, 4));
    let max_packets = parameters.unsigned_or("maximum_packets_per_flow", DEFAULT_MAXIMUM_PACKETS_PER_FLOW as u128);
    if max_packets > u64::MAX as u128 {
        return Err(DetectorExecutionError::internal_error("invalid maximum_packets_per_flow"));
    }
    let max_wire = parameters.unsigned_or("maximum_wire_bytes_per_flow", DEFAULT_MAXIMUM_WIRE_BYTES_PER_FLOW as u128);
    if max_wire > u64::MAX as u128 {
        return Err(DetectorExecutionError::internal_error("invalid maximum_wire_bytes_per_flow"));
    }
    let max_duration = parameters.duration_or(
        "maximum_flow_duration",
        FlowDuration::from_secs(DEFAULT_MAXIMUM_FLOW_DURATION_SECS),
    );
    let max_groups = parameters.unsigned_or("maximum_tracked_peer_groups", DEFAULT_MAXIMUM_TRACKED_PEER_GROUPS as u128);
    if max_groups > usize::MAX as u128 {
        return Err(
            DetectorExecutionError::resource_limit(
                "maximum_tracked_peer_groups exceeds platform pointer width",
            ),
        );
    }
    Ok(
        LowVolumeSettings {
            min_eligible_instances: min_eligible as u64,
            min_candidate_ratio: ratio,
            max_packets: max_packets as u64,
            max_wire_bytes: max_wire as u64,
            max_duration,
            max_peer_groups: max_groups as usize,
        },
    )
}

/// The exact duration of an eligible flow, or `None` for a flow that does not count.
fn eligible_duration(flow: &FlowRecord) -> (r: Option<FlowDuration>)
    ensures
        r is Some <==> low_volume_eligible(*flow),
        r matches Some(d) ==> flow_duration(*flow) == Some(d@),
{
    match flow.end_reason {
        FlowEndReason::AnalysisStopped => {
            return None;
        },
        _ => {},
    }
    if flow.key.endpoint_a.address == flow.key.endpoint_b.address {
        return None;
    }
    let duration = match flow.temporal.duration {
        FlowTemporalValue::Available(d) => d,
        FlowTemporalValue::Unavailable(_) => {
            return None;
        },
    };
    if flow.temporal.coverage.unavailable_timestamps > 0 || flow.temporal.coverage.invalid_timestamps > 0
        || flow.temporal.coverage.non_monotonic_transitions > 0 {
        return None;
    }
    if flow.traffic.total.truncated_packet_count > 0 || flow.traffic.total.packet_count == 0
        || flow.traffic.same_endpoint.packet_count > 0 {
        return None;
    }
    Some(duration)
}

/// The peer keys of a sequence of entries.
pub open spec fn entry_keys(es: Seq<(ConnectionPeerKey, RepeatedFlowAggregate)>) -> Seq<PeerKeyView> {
    es.map_values(|e: (ConnectionPeerKey, RepeatedFlowAggregate)| e.0@)
}

} // verus!
verus! {

/// Aggregates the eligible flows per peer pair, keeping the pairs in canonical key order;
/// fails when more peer pairs are tracked than allowed.
fn aggregate_peers(flows: &[FlowRecord], s: &LowVolumeSettings) -> (r: Result<
    Vec<(ConnectionPeerKey, RepeatedFlowAggregate)>,
    DetectorExecutionError,
>)
    ensures
        r is Ok <==> peer_tracked(flows@, low_volume_settings_view(*s)) <= s.max_peer_groups,
        r matches Err(e) ==> e is ResourceLimitExceeded,
        r matches Ok(es) ==> peer_sorted(entry_keys(es@)) && keys_of_flows(
            entry_keys(es@),
            flows@,
            low_volume_settings_view(*s),
        ) && forall|m: int|
            0 <= m < es@.len() ==> peer_view(#[trigger] es@[m].1) == peer_aggregate(
                flows@,
                es@[m].0@,
                low_volume_settings_view(*s),
            ),
{
    let ghost sv = low_volume_settings_view(*s);
    let n = flows.len();
    let mut es: Vec<(ConnectionPeerKey, RepeatedFlowAggregate)> = Vec::new();
    let mut i: usize = 0;
    assert(flows@.take(0) =~= Seq::<FlowRecord>::empty());
    assert(entry_keys(es@) =~= Seq::<PeerKeyView>::empty());
    while i < n
        invariant
            n == flows@.len(),
            i <= n,
            sv == low_volume_settings_view(*s),
            peer_sorted(entry_keys(es@)),
            forall|k: PeerKeyView|
                entry_keys(es@).contains(k) <==> #[trigger] peer_aggregate(flows@.take(i as int), k, sv).0 > 0,
            forall|m: int|
                0 <= m < es@.len() ==> peer_view(#[trigger] es@[m].1) == peer_aggregate(
                    flows@.take(i as int),
                    es@[m].0@,
                    sv,
                ),
            es@.len() == peer_tracked(flows@.take(i as int), sv),
            es@.len() <= s.max_peer_groups,
        decreases n - i,
    {
        let flow = &flows[i];
        let ghost prefix = flows@.take(i as int);
        let ghost next = flows@.take(i + 1);
        let ghost old_es = es@;
        let ghost old_keys = entry_keys(es@);
        assert(next.drop_last() =~= prefix);
        assert(next.last() == flows@[i as int]);
        let duration = match eligible_duration(flow) {
            Some(d) => d,
            None => {
                proof {
                    assert forall|k: PeerKeyView| #[trigger] peer_aggregate(next, k, sv) == peer_aggregate(prefix, k, sv) by {}
                }
                i = i + 1;
                continue;
            },
        };
        let is_candidate = flow.traffic.total.packet_count <= s.max_packets
            && flow.traffic.total.wire_bytes <= s.max_wire_bytes && !s.max_duration.lt(&duration);
        assert(is_candidate == low_volume_candidate(*flow, sv));
        let key = ConnectionPeerKey::new(flow.key.protocol, flow.key.endpoint_a.address, flow.key.endpoint_b.address);
        assert(key@ == flow_peer_key(*flow));
        let len = es.len();
        let mut j: usize = 0;
        loop
            invariant
                j <= len,
                len == es@.len(),
                es@ == old_es,
                forall|m: int| 0 <= m < j ==> #[trigger] peer_lt(entry_keys(es@)[m], key@),
            ensures
                j <= len,
                forall|m: int| 0 <= m < j ==> #[trigger] peer_lt(entry_keys(es@)[m], key@),
                j < len ==> !peer_lt(entry_keys(es@)[j as int], key@),
            decreases len - j,
        {
            if j >= len {
                break;
            }
            assert(entry_keys(es@)[j as int] == es@[j as int].0@);
            if !es[j].0.precedes(&key) {
                break;
            }
            j = j + 1;
        }
        proof {
            lemma_peer_aggregate_counts(prefix, key@, sv);
            lemma_peer_lt_order();
        }
        if j < len && es[j].0 == key {
            let mut agg = es[j].1;
            proof {
                assert(old_keys[j as int] == key@);
                assert(old_keys.contains(key@));
                assert(peer_aggregate(prefix, key@, sv).0 > 0);
                assert(peer_view(agg) == peer_aggregate(prefix, key@, sv));
            }
            match agg.record_eligible(flow, duration, is_candidate) {
                Ok(()) => {},
                Err(e) => {
                    return Err(e);
                },
            }
            es.set(j, (key, agg));
            proof {
                assert(entry_keys(es@) =~= old_keys);
                assert forall|m: int|
                    0 <= m < es@.len() implies peer_view(#[trigger] es@[m].1) == peer_aggregate(
                    next,
                    es@[m].0@,
                    sv,
                ) by {
                    if m != j {
                        assert(old_keys[m] == es@[m].0@);
                        if m < j {
                            assert(peer_lt(old_keys[m], old_keys[j as int]));
                        } else {
                            assert(peer_lt(old_keys[j as int], old_keys[m]));
                        }
                    }
                }
                assert forall|k: PeerKeyView|
                    entry_keys(es@).contains(k) <==> #[trigger] peer_aggregate(next, k, sv).0 > 0 by {
                    if k != key@ {
                        assert(peer_aggregate(next, k, sv) == peer_aggregate(prefix, k, sv));
                    } else {
                        assert(old_keys.contains(key@));
                    }
                }
            }
        } else {
            proof {
                assert forall|m: int| 0 <= m < len implies old_keys[m] != key@ by {
                    if m < j {
                        assert(peer_lt(old_keys[m], key@));
                    } else {
                        lemma_peer_lt_total(old_keys[j as int], key@);
                        assert(peer_lt(key@, old_keys[j as int]));
                        if m > j {
                            assert(peer_lt(old_keys[j as int], old_keys[m]));
                        }
                    }
                }
                assert(!old_keys.contains(key@));
                assert(peer_aggregate(prefix, key@, sv).0 == 0);
                lemma_peer_aggregate_empty(prefix, key@, sv);
            }
            if len >= s.max_peer_groups {
                proof {
                    lemma_peer_tracked_monotone(flows@, sv, i + 1);
                }
                return Err(
                    DetectorExecutionError::resource_limit(
                        "maximum tracked connection peer groups limit reached in repeated low-volume flow detector",
                    ),
                );
            }
            let mut agg = RepeatedFlowAggregate::new();
            match agg.record_eligible(flow, duration, is_candidate) {
                Ok(()) => {},
                Err(e) => {
                    return Err(e);
                },
            }
            es.insert(j, (key, agg));
            proof {
                let nk = entry_keys(es@);
                assert(nk =~= old_keys.insert(j as int, key@));
                assert forall|p: int, q: int| 0 <= p < q < nk.len() implies #[trigger] peer_lt(nk[p], nk[q]) by {
                    if q < j {
                        assert(peer_lt(old_keys[p], old_keys[q]));
                    } else if q == j {
                        assert(peer_lt(old_keys[p], key@));
                    } else if p < j {
                        assert(peer_lt(old_keys[p], old_keys[q - 1]));
                    } else if p == j {
                        lemma_peer_lt_total(old_keys[j as int], key@);
                        if q - 1 > j {
                            assert(peer_lt(old_keys[j as int], old_keys[q - 1]));
                        }
                    } else {
                        assert(peer_lt(old_keys[p - 1], old_keys[q - 1]));
                    }
                }
                assert forall|m: int|
                    0 <= m < es@.len() implies peer_view(#[trigger] es@[m].1) == peer_aggregate(
                    next,
                    es@[m].0@,
                    sv,
                ) by {
                    if m < j {
                        assert(es@[m] == old_es[m]);
                        assert(old_keys[m] == es@[m].0@);
                    } else if m > j {
                        assert(es@[m] == old_es[m - 1]);
                        assert(old_keys[m - 1] == es@[m].0@);
                    }
                }
                assert forall|k: PeerKeyView|
                    entry_keys(es@).contains(k) <==> #[trigger] peer_aggregate(next, k, sv).0 > 0 by {
                    if k == key@ {
                        assert(nk[j as int] == key@);
                        assert(peer_aggregate(next, k, sv).0 > 0);
                    } else {
                        assert(peer_aggregate(next, k, sv) == peer_aggregate(prefix, k, sv));
                        if old_keys.contains(k) {
                            let m = choose|m: int| 0 <= m < old_keys.len() && old_keys[m] == k;
                            if m < j {
                                assert(nk[m] == k);
                            } else {
                                assert(nk[m + 1] == k);
                            }
                        }
                        if nk.contains(k) {
                            let m = choose|m: int| 0 <= m < nk.len() && nk[m] == k;
                            if m < j {
                                assert(old_keys[m] == k);
                            } else {
                                assert(old_keys[m - 1] == k);
                            }
                        }
                    }
                }
            }
        }
        i = i + 1;
    }
    assert(flows@.take(n as int) =~= flows@);
    Ok(es)
}

} // verus!
verus! {

/// The canonical order of the peer keys with eligible flows is the one any sorted listing
/// of them has.
proof fn lemma_sorted_peer_keys(ks: Seq<PeerKeyView>, flows: Seq<FlowRecord>, s: LowVolumeSettingsView)
    requires
        peer_sorted(ks),
        keys_of_flows(ks, flows, s),
    ensures
        sorted_peer_keys(flows, s) == ks,
{
    let lt = |a: PeerKeyView, b: PeerKeyView| peer_lt(a, b);
    lemma_peer_lt_order();
    assert(strictly_sorted(ks, lt));
    let chosen = sorted_peer_keys(flows, s);
    assert(strictly_sorted(chosen, lt) && keys_of_flows(chosen, flows, s));
    lemma_sorted_unique(chosen, ks, lt);
}

proof fn lemma_low_volume_id_valid()
    ensures
        crate::domain::valid_detector_id("behavior.repeated_low_volume_flows"@),
{
    reveal_strlit("behavior.repeated_low_volume_flows");
    let s = "behavior.repeated_low_volume_flows"@;
    assert forall|i: int| 1 <= i < s.len() implies #[trigger] crate::domain::is_detector_id_char(s[i]) by {
        assert(1 <= i <= 33);
    }
}

/// Explainable repeated low-volume flow detector.
///
/// Identifies endpoint pairs that exchange repetitive short, low-volume flows without
/// asserting confirmed malware or command-and-control.
#[derive(Debug)]
pub struct RepeatedLowVolumeFlowDetector {
    metadata: DetectorMetadata,
}

impl ParameterRules for RepeatedLowVolumeFlowDetector {
    open spec fn verdict(p: ParameterView) -> ParamVerdict {
        low_volume_verdict(p)
    }

    fn check(p: &DetectorParameter) -> (v: ParamVerdict) {
        let key = p.key.as_str();
        if str_equal(key, "minimum_eligible_flow_instances") {
            match p.value {
                DetectorParameterValue::Unsigned(v) => if v < 2 || v > u64::MAX as u128 {
                    ParamVerdict::OutOfRange("minimum_eligible_flow_instances must be between 2 and u64::MAX")
                } else {
                    ParamVerdict::Accepted
                },
                _ => ParamVerdict::WrongType("unsigned integer"),
            }
        } else if str_equal(key, "minimum_candidate_flow_ratio") {
            match p.value {
                DetectorParameterValue::Ratio(r) => if r.numerator() == 0 || r.exceeds_one() {
                    ParamVerdict::OutOfRange("minimum_candidate_flow_ratio must be in range 0 < r <= 1")
                } else {
                    ParamVerdict::Accepted
                },
                _ => ParamVerdict::WrongType("ratio"),
            }
        } else if str_equal(key, "maximum_packets_per_flow") {
            match p.value {
                DetectorParameterValue::Unsigned(v) => if v < 1 || v > u64::MAX as u128 {
                    ParamVerdict::OutOfRange("maximum_packets_per_flow must be between 1 and u64::MAX")
                } else {
                    ParamVerdict::Accepted
                },
                _ => ParamVerdict::WrongType("unsigned integer"),
            }
        } else if str_equal(key, "maximum_wire_bytes_per_flow") {
            match p.value {
                DetectorParameterValue::Unsigned(v) => if v < 1 || v > u64::MAX as u128 {
                    ParamVerdict::OutOfRange("maximum_wire_bytes_per_flow must be between 1 and u64::MAX")
                } else {
                    ParamVerdict::Accepted
                },
                _ => ParamVerdict::WrongType("unsigned integer"),
            }
        } else if str_equal(key, "maximum_flow_duration") {
            match p.value {
                DetectorParameterValue::Duration(d) => if d.numerator() == 0 {
                    ParamVerdict::OutOfRange("maximum_flow_duration must be strictly greater than zero")
                } else {
                    ParamVerdict::Accepted
                },
                _ => ParamVerdict::WrongType("duration"),
            }
        } else if str_equal(key, "maximum_tracked_peer_groups") {
            match p.value {
                DetectorParameterValue::Unsigned(v) => if v < 1 || v > 1_000_000 {
                    ParamVerdict::OutOfRange("maximum_tracked_peer_groups must be between 1 and 1000000")
                } else {
                    ParamVerdict::Accepted
                },
                _ => ParamVerdict::WrongType("unsigned integer"),
            }
        } else {
            ParamVerdict::UnknownKey
        }
    }
}

impl RepeatedLowVolumeFlowDetector {
    /// Creates the detector with its canonical metadata (`behavior.repeated_low_volume_flows`,
    /// version 1.0.0, skipping partial input).
    pub fn new() -> (d: RepeatedLowVolumeFlowDetector)
        ensures
            d.spec_metadata().spec_id() == "behavior.repeated_low_volume_flows"@,
            d.spec_metadata().spec_version() == (DetectorVersion { major: 1, minor: 0, patch: 0 }),
            d.spec_metadata().spec_policy() == IncompleteDataPolicy::Skip,
    {
        proof { lemma_low_volume_id_valid(); }
        RepeatedLowVolumeFlowDetector {
            metadata: DetectorMetadata::new(
                DetectorId::from_valid("behavior.repeated_low_volume_flows"),
                DetectorVersion::new(1, 0, 0),
                String::from_str("Repeated low-volume flow pattern"),
                String::from_str("Identifies canonical IP peer pairs exhibiting repeated short, low-volume flows"),
                IncompleteDataPolicy::Skip,
            ),
        }
    }

    /// Creates the detector; it never fails, as its canonical metadata is valid.
    pub fn try_new() -> (r: Result<RepeatedLowVolumeFlowDetector, FindingValidationError>)
        ensures
            r matches Ok(d) && d.spec_metadata().spec_id() == "behavior.repeated_low_volume_flows"@,
    {
        Ok(Self::new())
    }

    /// The finding about one peer pair.
    fn peer_draft(a: &RepeatedFlowAggregate, ratio: EvidenceRatio, s: &LowVolumeSettings) -> (d: FindingDraft)
        requires
            a.first_candidate_flow is Some,
            a.last_candidate_flow is Some,
            a.first_packet is Some,
            a.last_packet is Some,
        ensures
            crate::views::draft_view(d) == low_volume_draft(peer_view(*a), ratio@, low_volume_settings_view(*s)),
    {
        let first_flow = a.first_candidate_flow.unwrap();
        let last_flow = a.last_candidate_flow.unwrap();
        let mut flow_refs: Vec<FlowReference> = Vec::new();
        if first_flow == last_flow {
            flow_refs.push(first_flow);
        } else if first_flow.ordinal < last_flow.ordinal {
            flow_refs.push(first_flow);
            flow_refs.push(last_flow);
        } else {
            flow_refs.push(last_flow);
            flow_refs.push(first_flow);
        }
        let first_packet = a.first_packet.unwrap();
        let last_packet = a.last_packet.unwrap();
        let mut pkts: Vec<PacketReference> = Vec::new();
        if first_packet.capture_record_ordinal == last_packet.capture_record_ordinal {
            pkts.push(first_packet);
        } else if first_packet.capture_record_ordinal < last_packet.capture_record_ordinal {
            pkts.push(first_packet);
            pkts.push(last_packet);
        } else {
            pkts.push(last_packet);
            pkts.push(first_packet);
        }
        let mut ms: Vec<EvidenceMeasurement> = Vec::new();
        ms.push(
            EvidenceMeasurement::new(
                "candidate_flow_count",
                EvidenceValue::Unsigned(a.candidate_flow_count as u128),
                EvidenceUnit::Count,
            ),
        );
        ms.push(
            EvidenceMeasurement::with_threshold(
                "candidate_flow_ratio",
                EvidenceValue::Ratio(ratio),
                EvidenceValue::Ratio(s.min_candidate_ratio),
                EvidenceComparison::GreaterThanOrEqual,
                EvidenceUnit::Ratio,
            ),
        );
        ms.push(
            EvidenceMeasurement::with_threshold(
                "eligible_flow_instance_count",
                EvidenceValue::Unsigned(a.eligible_flow_instance_count as u128),
                EvidenceValue::Unsigned(s.min_eligible_instances as u128),
                EvidenceComparison::GreaterThanOrEqual,
                EvidenceUnit::Count,
            ),
        );
        ms.push(
            EvidenceMeasurement::with_threshold(
                "maximum_candidate_duration",
                EvidenceValue::Duration(a.maximum_candidate_duration),
                EvidenceValue::Duration(s.max_duration),
                EvidenceComparison::LessThanOrEqual,
                EvidenceUnit::Seconds,
            ),
        );
        ms.push(
            EvidenceMeasurement::with_threshold(
                "maximum_candidate_packet_count",
                EvidenceValue::Unsigned(a.maximum_candidate_packet_count as u128),
                EvidenceValue::Unsigned(s.max_packets as u128),
                EvidenceComparison::LessThanOrEqual,
                EvidenceUnit::Packets,
            ),
        );
        ms.push(
            EvidenceMeasurement::with_threshold(
                "maximum_candidate_wire_bytes",
                EvidenceValue::Unsigned(a.maximum_candidate_wire_bytes as u128),
                EvidenceValue::Unsigned(s.max_wire_bytes as u128),
                EvidenceComparison::LessThanOrEqual,
                EvidenceUnit::Bytes,
            ),
        );
        let e = EvidenceDraft {
            kind: EvidenceKind::RatioComparison,
            description: String::from_str("Repeated low-volume flow aggregate measurements"),
            packet_references: crate::domain::copy_vec(&pkts),
            flow_references: crate::domain::copy_vec(&flow_refs),
            observation_references: Vec::new(),
            measurements: ms,
            limitations: Vec::new(),
        };
        let mut evidence: Vec<EvidenceDraft> = Vec::new();
        evidence.push(e);
        let d = FindingDraft {
            subject: FindingSubject {
                packet_references: pkts,
                flow_references: flow_refs,
                observation_references: Vec::new(),
            },
            title: String::from_str("Repeated low-volume flow pattern"),
            summary: String::from_str(
                "Repeated flow instances between the same canonical IP peer pair are predominantly short and low-volume under configured thresholds.",
            ),
            rationale: String::from_str(
                "Observed repeated flow instances between the canonical IP peer pair that are short in duration and low in wire bytes and packet count. While repetitive low-volume connections can indicate periodic polling, telemetry, or keepalives, they are also commonly produced by benign services such as health checks, monitoring agents, scheduled polling, API retries, service meshes, load-balancer probes, DNS activity, application heartbeats, or short-lived background tasks.",
            ),
            severity: Severity::Low,
            confidence: Confidence::Medium,
            evidence,
            mitre_mappings: Vec::new(),
        };
        proof {
            let expected = low_volume_draft(peer_view(*a), ratio@, low_volume_settings_view(*s));
            assert(d.subject.packet_references@ =~= expected.0.0);
            assert(d.subject.flow_references@ =~= expected.0.1);
            assert(d.subject.observation_references@ =~= expected.0.2);
            assert(measurement_views(d.evidence@[0].measurements@) =~= expected.6[0].5);
            assert(d.evidence@[0].observation_references@ =~= Seq::<ObservationReference>::empty());
            assert(d.evidence@[0].limitations@ =~= Seq::<crate::domain::EvidenceLimitation>::empty());
            assert(crate::views::evidence_views(d.evidence@) =~= expected.6);
            assert(crate::views::mapping_views(d.mitre_mappings@) =~= expected.7);
        }
        d
    }
}

} // verus!
verus! {

impl Detector for RepeatedLowVolumeFlowDetector {
    closed spec fn spec_metadata(&self) -> DetectorMetadata {
        self.metadata
    }

    fn metadata(&self) -> (m: &DetectorMetadata) {
        &self.metadata
    }

    open spec fn spec_params_valid(&self, parameters: Seq<ParameterView>) -> bool {
        low_volume_params_valid(parameters)
    }

    open spec fn spec_rejection(&self, parameters: Seq<ParameterView>, e: DetectorConfigError) -> bool {
        low_volume_first_rejection(parameters, e)
    }

    open spec fn spec_fails_internally(
        &self,
        input: DetectionInput<'_>,
        parameters: Seq<ParameterView>,
        prior: Seq<DraftView>,
        finding_budget: nat,
        evidence_budget: nat,
    ) -> bool {
        input.completeness_view() == DetectionInputCompleteness::Complete && low_volume_threshold_unusable(parameters)
    }

    fn validate_parameters(&self, parameters: &DetectorParameters) -> (r: Result<(), DetectorConfigError>)
        ensures
            r is Ok <==> low_volume_params_valid(parameters@),
            r matches Err(e) ==> low_volume_first_rejection(parameters@, e),
    {
        let r = validate_with_rules::<RepeatedLowVolumeFlowDetector>(parameters);
        proof {
            assert((|p: ParameterView| RepeatedLowVolumeFlowDetector::verdict(p)) =~= (|p: ParameterView| low_volume_verdict(p)));
        }
        r
    }

    open spec fn spec_drafts(&self, input: DetectionInput<'_>, parameters: Seq<ParameterView>) -> Seq<DraftView> {
        if input.completeness_view() == DetectionInputCompleteness::Partial {
            Seq::empty()
        } else {
            collect_outcomes(low_volume_outcomes(input.flows_view(), low_volume_settings(parameters)->0))->0
        }
    }

    open spec fn spec_succeeds(
        &self,
        input: DetectionInput<'_>,
        parameters: Seq<ParameterView>,
        prior: Seq<DraftView>,
        finding_budget: nat,
        evidence_budget: nat,
    ) -> bool {
        input.completeness_view() == DetectionInputCompleteness::Partial || low_volume_run_succeeds(
            parameters,
            input.flows_view(),
            prior,
            finding_budget,
            evidence_budget,
        )
    }

    fn evaluate(
        &self,
        input: &DetectionInput<'_>,
        parameters: &DetectorParameters,
        output: &mut DetectorDraftSink,
    ) -> (r: Result<(), DetectorExecutionError>)
        ensures
            input.completeness_view() == DetectionInputCompleteness::Partial ==> r is Ok
                && final(output).drafts_view() == old(output).drafts_view(),
            input.completeness_view() == DetectionInputCompleteness::Complete ==> (r is Ok
                <==> low_volume_run_succeeds(
                parameters@,
                input.flows_view(),
                draft_views(old(output).drafts_view()),
                old(output).finding_budget(),
                old(output).evidence_budget(),
            )),
            input.completeness_view() == DetectionInputCompleteness::Complete && r is Ok ==> draft_views(
                final(output).drafts_view(),
            ) == draft_views(old(output).drafts_view()) + collect_outcomes(
                low_volume_outcomes(input.flows_view(), low_volume_settings(parameters@)->0),
            )->0,
            input.completeness_view() == DetectionInputCompleteness::Complete && low_volume_settings(parameters@) is None
                ==> (r is Err && (r matches Err(e) ==> (e is InternalError <==> low_volume_threshold_unusable(
                parameters@,
            ))) && final(output).drafts_view() == old(output).drafts_view()),
            input.completeness_view() == DetectionInputCompleteness::Complete && low_volume_settings(parameters@) is Some
                && !low_volume_within_tracking(input.flows_view(), low_volume_settings(parameters@)->0) ==> (r matches Err(
                DetectorExecutionError::ResourceLimitExceeded(_),
            ) && final(output).drafts_view() == old(output).drafts_view()),
            input.completeness_view() == DetectionInputCompleteness::Complete && low_volume_settings(parameters@) is Some
                && low_volume_within_tracking(input.flows_view(), low_volume_settings(parameters@)->0) ==> (r matches Err(
                e,
            ) ==> e is ResourceLimitExceeded),
    {
        if input.completeness().is_partial() {
            return Ok(());
        }
        let s = match read_low_volume_settings(parameters) {
            Ok(s) => s,
            Err(e) => {
                return Err(e);
            },
        };
        let ghost sv = low_volume_settings_view(s);
        let flows = input.flows();
        let es = match aggregate_peers(flows, &s) {
            Ok(es) => es,
            Err(e) => {
                return Err(e);
            },
        };
        proof {
            lemma_sorted_peer_keys(entry_keys(es@), flows@, sv);
        }
        let ghost outcomes = low_volume_outcomes(flows@, sv);
        assert(outcomes.len() == es@.len());
        let ghost base = draft_views(output.drafts_view());
        let ghost fb = output.finding_budget();
        let ghost eb = output.evidence_budget();
        assert(outcomes.take(0) =~= Seq::<StepOutcome>::empty());
        output.within_budget();
        proof {
            assert(base + Seq::<DraftView>::empty() =~= base);
            assert(Seq::<DraftView>::empty() + base =~= base);
            crate::views::lemma_view_evidence_total_append(base, Seq::<DraftView>::empty());
        }
        let n = es.len();
        let mut i: usize = 0;
        while i < n
            invariant
                n == es@.len(),
                i <= n,
                flows@ == input.flows_view(),
                input.completeness_view() == DetectionInputCompleteness::Complete,
                sv == low_volume_settings_view(s),
                sv == low_volume_settings(parameters@)->0,
                low_volume_settings(parameters@) is Some,
                low_volume_within_tracking(flows@, sv),
                sorted_peer_keys(flows@, sv) == entry_keys(es@),
                forall|m: int|
                    0 <= m < es@.len() ==> peer_view(#[trigger] es@[m].1) == peer_aggregate(
                        flows@,
                        es@[m].0@,
                        sv,
                    ),
                outcomes == low_volume_outcomes(flows@, sv),
                base == draft_views(old(output).drafts_view()),
                fb == old(output).finding_budget(),
                eb == old(output).evidence_budget(),
                output.finding_budget() == fb,
                output.evidence_budget() == eb,
                collect_outcomes(outcomes.take(i as int)) is Some,
                draft_views(output.drafts_view()) == base + collect_outcomes(outcomes.take(i as int))->0,
                budget_fits(base, fb, eb, collect_outcomes(outcomes.take(i as int))->0),
            decreases n - i,
        {
            let a = es[i].1;
            proof {
                assert(outcomes.take(i + 1).drop_last() =~= outcomes.take(i as int));
                assert(outcomes.take(i + 1).last() == outcomes[i as int]);
                assert(entry_keys(es@)[i as int] == es@[i as int].0@);
                assert(outcomes[i as int] == low_volume_key_outcome(peer_view(a), sv));
                lemma_peer_aggregate_counts(flows@, es@[i as int].0@, sv);
            }
            if a.eligible_flow_instance_count < s.min_eligible_instances || a.candidate_flow_count == 0 {
                i = i + 1;
                continue;
            }
            proof {
                lemma_reduced_bounds(a.candidate_flow_count as nat, a.eligible_flow_instance_count as nat);
            }
            let ratio = match EvidenceRatio::from_fraction(
                a.candidate_flow_count as u128,
                a.eligible_flow_instance_count as u128,
            ) {
                Some(r) => r,
                None => {
                    return Err(DetectorExecutionError::internal_error("invalid candidate ratio fraction"));
                },
            };
            if ratio.lt(&s.min_candidate_ratio) {
                i = i + 1;
                continue;
            }
            let draft = Self::peer_draft(&a, ratio, &s);
            match output.push_step(draft, Ghost(base), Ghost(outcomes), Ghost(i as int)) {
                Ok(()) => {},
                Err(e) => {
                    proof {
                        if collect_outcomes(outcomes) is Some {
                            lemma_collect_prefix(outcomes, i + 1);
                            crate::views::lemma_view_evidence_total_append(base, collect_outcomes(outcomes.take(i + 1))->0);
                        }
                    }
                    return Err(e);
                },
            }
            i = i + 1;
        }
        proof {
            assert(outcomes.take(n as int) =~= outcomes);
        }
        Ok(())
    }
}

} // verus!

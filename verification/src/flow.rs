//! Reconstructed flow records and normalized protocol observations, as read by detectors.

use vstd::prelude::*;
use crate::domain::{FlowReference, ObservationReference, PacketReference, ProtocolKind};
use crate::ratio::FlowDuration;

verus! {

/// Transport protocol of a flow.
#[derive(Debug, Clone, Copy, PartialEq, Eq, Structural, Hash)]
pub enum TransportProtocol {
    /// TCP.
    Tcp,
    /// UDP.
    Udp,
}

/// Rank of a transport protocol in canonical ordering (TCP before UDP).
pub open spec fn transport_rank(t: TransportProtocol) -> nat {
    match t {
        TransportProtocol::Tcp => 0,
        TransportProtocol::Udp => 1,
    }
}

impl TransportProtocol {
    /// Canonical rank (TCP, UDP).
    pub fn rank(&self) -> (r: u8)
        ensures
            r == transport_rank(*self),
    {
        match self {
            TransportProtocol::Tcp => 0,
            TransportProtocol::Udp => 1,
        }
    }

    /// Upper-case protocol label.
    pub fn as_str(&self) -> (s: &'static str)
        ensures
            s@ == (match *self {
                TransportProtocol::Tcp => "TCP"@,
                TransportProtocol::Udp => "UDP"@,
            }),
    {
        match self {
            TransportProtocol::Tcp => "TCP",
            TransportProtocol::Udp => "UDP",
        }
    }
}

/// An IP address. IPv4 addresses are held as their big-endian 32-bit value and IPv6
/// addresses as their big-endian 128-bit value, so numeric order is octet order.
#[derive(Debug, Clone, Copy, PartialEq, Eq, Structural, Hash)]
pub enum IpAddress {
    /// IPv4.
    Ipv4(u32),
    /// IPv6.
    Ipv6(u128),
}

/// Strict canonical order on addresses: every IPv4 address before every IPv6 address,
/// then numerically.
pub open spec fn ip_lt(a: IpAddress, b: IpAddress) -> bool {
    match (a, b) {
        (IpAddress::Ipv4(x), IpAddress::Ipv4(y)) => x < y,
        (IpAddress::Ipv4(_), IpAddress::Ipv6(_)) => true,
        (IpAddress::Ipv6(_), IpAddress::Ipv4(_)) => false,
        (IpAddress::Ipv6(x), IpAddress::Ipv6(y)) => x < y,
    }
}

impl IpAddress {
    /// An IPv4 address from its four octets.
    pub fn ipv4(octets: [u8; 4]) -> (a: IpAddress)
        ensures
            a == IpAddress::Ipv4(
                ((octets[0] as u32) * 0x100_0000 + (octets[1] as u32) * 0x1_0000 + (octets[2] as u32)
                    * 0x100 + (octets[3] as u32)) as u32,
            ),
    {
        IpAddress::Ipv4(
            (octets[0] as u32) * 0x100_0000 + (octets[1] as u32) * 0x1_0000 + (octets[2] as u32)
                * 0x100 + (octets[3] as u32),
        )
    }

    /// Whether `self` sorts strictly before `other`.
    pub fn lt(&self, other: &IpAddress) -> (b: bool)
        ensures
            b == ip_lt(*self, *other),
    {
        match (self, other) {
            (IpAddress::Ipv4(x), IpAddress::Ipv4(y)) => *x < *y,
            (IpAddress::Ipv4(_), IpAddress::Ipv6(_)) => true,
            (IpAddress::Ipv6(_), IpAddress::Ipv4(_)) => false,
            (IpAddress::Ipv6(x), IpAddress::Ipv6(y)) => *x < *y,
        }
    }
}

/// One side of a flow.
#[derive(Debug, Clone, Copy, PartialEq, Eq, Structural, Hash)]
pub struct FlowEndpoint {
    /// Address.
    pub address: IpAddress,
    /// Port.
    pub port: u16,
}

/// Canonical bidirectional flow key.
#[derive(Debug, Clone, Copy, PartialEq, Eq, Structural, Hash)]
pub struct FlowKey {
    /// Transport protocol.
    pub protocol: TransportProtocol,
    /// Canonical first endpoint.
    pub endpoint_a: FlowEndpoint,
    /// Canonical second endpoint.
    pub endpoint_b: FlowEndpoint,
}

/// Packet and byte counters for one traffic direction.
#[derive(Debug, Clone, Copy, PartialEq, Eq, Structural, Hash, Default)]
pub struct FlowTrafficCounters {
    /// Packets.
    pub packet_count: u64,
    /// Captured bytes.
    pub captured_bytes: u64,
    /// Original wire bytes.
    pub wire_bytes: u64,
    /// Packets truncated by the capture snap length.
    pub truncated_packet_count: u64,
}

/// Traffic counters in total and per direction.
#[derive(Debug, Clone, Copy, PartialEq, Eq, Structural, Hash, Default)]
pub struct FlowTrafficStatistics {
    /// All packets.
    pub total: FlowTrafficCounters,
    /// Packets from endpoint A to endpoint B.
    pub a_to_b: FlowTrafficCounters,
    /// Packets from endpoint B to endpoint A.
    pub b_to_a: FlowTrafficCounters,
    /// Packets whose source and destination endpoints are identical.
    pub same_endpoint: FlowTrafficCounters,
}

/// Why a temporal metric is unavailable.
#[derive(Debug, Clone, Copy, PartialEq, Eq, Structural, Hash)]
pub enum FlowTemporalUnavailableReason {
    /// Too few timestamps.
    InsufficientSamples,
    /// Timestamps were missing or invalid.
    InvalidTimestamps,
    /// The exact value is not representable.
    NotRepresentable,
}

/// An exact temporal metric, when available.
#[derive(Debug, Clone, Copy, PartialEq, Eq, Structural, Hash)]
pub enum FlowTemporalValue {
    /// Exact value.
    Available(FlowDuration),
    /// No value, with reason.
    Unavailable(FlowTemporalUnavailableReason),
}

/// Timestamp quality counters of a flow.
#[derive(Debug, Clone, Copy, PartialEq, Eq, Structural, Hash, Default)]
pub struct FlowTimestampCoverage {
    /// Packets without a timestamp.
    pub unavailable_timestamps: u64,
    /// Packets with an invalid timestamp.
    pub invalid_timestamps: u64,
    /// Timestamp transitions that went backwards.
    pub non_monotonic_transitions: u64,
}

/// Exact inter-arrival statistics for one traffic direction.
#[derive(Debug, Clone, Copy, PartialEq, Eq, Structural, Hash)]
pub struct FlowInterArrivalMetrics {
    /// Number of inter-arrival intervals.
    pub interval_sample_count: u64,
    /// Number of successive interval deltas.
    pub successive_delta_sample_count: u64,
    /// Number of timestamp discontinuities.
    pub discontinuity_count: u64,
    /// Mean interval.
    pub mean_interval: FlowTemporalValue,
    /// Minimum interval.
    pub minimum_interval: FlowTemporalValue,
    /// Maximum interval.
    pub maximum_interval: FlowTemporalValue,
    /// Mean absolute difference between successive intervals (jitter).
    pub mean_absolute_successive_interval_delta: FlowTemporalValue,
}

/// Exact temporal metrics of a flow.
#[derive(Debug, Clone, Copy, PartialEq, Eq, Structural, Hash)]
pub struct FlowTemporalMetrics {
    /// Time from first to last packet.
    pub duration: FlowTemporalValue,
    /// Timestamp quality.
    pub coverage: FlowTimestampCoverage,
    /// Inter-arrival statistics from A to B.
    pub a_to_b_inter_arrival: FlowInterArrivalMetrics,
    /// Inter-arrival statistics from B to A.
    pub b_to_a_inter_arrival: FlowInterArrivalMetrics,
}

/// Why a flow instance ended.
#[derive(Debug, Clone, Copy, PartialEq, Eq, Structural, Hash)]
pub enum FlowEndReason {
    /// The capture ended.
    EndOfInput,
    /// A TCP reset was seen.
    TcpReset,
    /// A TCP close handshake completed.
    TcpClose,
    /// The idle timeout elapsed.
    IdleTimeout,
    /// Analysis stopped early (budget or error); the flow may be incomplete.
    AnalysisStopped,
}

/// The label of an end reason: the variant's name.
pub open spec fn end_reason_name(r: FlowEndReason) -> Seq<char> {
    match r {
        FlowEndReason::EndOfInput => "EndOfInput"@,
        FlowEndReason::TcpReset => "TcpReset"@,
        FlowEndReason::TcpClose => "TcpClose"@,
        FlowEndReason::IdleTimeout => "IdleTimeout"@,
        FlowEndReason::AnalysisStopped => "AnalysisStopped"@,
    }
}

impl FlowEndReason {
    /// Label of the end reason.
    pub fn as_str(&self) -> (s: &'static str)
        ensures
            s@ == end_reason_name(*self),
    {
        match self {
            FlowEndReason::EndOfInput => "EndOfInput",
            FlowEndReason::TcpReset => "TcpReset",
            FlowEndReason::TcpClose => "TcpClose",
            FlowEndReason::IdleTimeout => "IdleTimeout",
            FlowEndReason::AnalysisStopped => "AnalysisStopped",
        }
    }
}

/// A reconstructed bidirectional flow instance.
#[derive(Debug, Clone, Copy, PartialEq, Eq, Structural, Hash)]
pub struct FlowRecord {
    /// Canonical reference.
    pub reference: FlowReference,
    /// Flow key.
    pub key: FlowKey,
    /// First packet of the flow.
    pub first_packet: PacketReference,
    /// Last packet of the flow.
    pub last_packet: PacketReference,
    /// Traffic counters.
    pub traffic: FlowTrafficStatistics,
    /// Temporal metrics.
    pub temporal: FlowTemporalMetrics,
    /// Why the flow ended.
    pub end_reason: FlowEndReason,
}

/// Direction of a packet within its flow.
#[derive(Debug, Clone, Copy, PartialEq, Eq, Structural, Hash)]
pub enum FlowDirection {
    /// From endpoint A to endpoint B.
    AToB,
    /// From endpoint B to endpoint A.
    BToA,
    /// Source and destination endpoints are identical.
    SameEndpoint,
}

/// How an observation relates to reconstructed flows.
#[derive(Debug, Clone, Copy, PartialEq, Eq, Structural, Hash)]
pub enum ObservationFlowAssociation {
    /// Carried by a packet of a flow, in a direction.
    Associated {
        /// Flow.
        flow: FlowReference,
        /// Direction.
        direction: FlowDirection,
    },
    /// Not associated with any flow.
    Unassociated,
    /// The carrying packet was excluded from flow reconstruction.
    Excluded,
}

/// Whether an observation was fully parsed.
#[derive(Debug, Clone, Copy, PartialEq, Eq, Structural, Hash)]
pub enum ObservationCompleteness {
    /// Fully parsed.
    Complete,
    /// Parsing stopped early.
    Partial,
}

/// Maximum wire length of a DNS name in octets.
pub const MAX_DNS_NAME_WIRE_LENGTH: usize = 255;

/// A DNS domain name as wire labels, at most [`MAX_DNS_NAME_WIRE_LENGTH`] octets on the wire.
#[derive(Debug, PartialEq, Eq)]
pub struct DnsName {
    labels: Vec<Vec<u8>>,
}

/// Wire length of a name: one length octet plus the octets of each label, plus the
/// terminating root octet.
pub open spec fn wire_length_of(labels: Seq<Seq<u8>>) -> nat
    decreases labels.len(),
{
    if labels.len() == 0 {
        1
    } else {
        wire_length_of(labels.drop_last()) + 1 + labels.last().len()
    }
}

/// The wire length of a prefix of the labels is at most that of all labels.
pub proof fn lemma_wire_length_prefix(labels: Seq<Seq<u8>>, k: int)
    requires
        0 <= k <= labels.len(),
    ensures
        wire_length_of(labels.take(k)) <= wire_length_of(labels),
    decreases labels.len(),
{
    if k < labels.len() {
        lemma_wire_length_prefix(labels.drop_last(), k);
        assert(labels.drop_last().take(k) =~= labels.take(k));
    } else {
        assert(labels.take(k) =~= labels);
    }
}

/// The byte sequences of a list of labels.
pub open spec fn label_views(labels: Seq<Vec<u8>>) -> Seq<Seq<u8>> {
    labels.map_values(|l: Vec<u8>| l@)
}

impl DnsName {
    /// The labels as byte sequences.
    pub closed spec fn label_seqs(&self) -> Seq<Seq<u8>> {
        label_views(self.labels@)
    }

    /// The name fits the DNS wire limit.
    #[verifier::type_invariant]
    closed spec fn inv(self) -> bool {
        wire_length_of(label_views(self.labels@)) <= MAX_DNS_NAME_WIRE_LENGTH
    }

    /// Builds a name from its labels; `None` when its wire length exceeds the DNS limit.
    pub fn try_new(labels: Vec<Vec<u8>>) -> (r: Option<DnsName>)
        ensures
            r is Some <==> wire_length_of(label_views(labels@)) <= MAX_DNS_NAME_WIRE_LENGTH,
            r matches Some(n) ==> n.label_seqs() == label_views(labels@),
    {
        match wire_length_within(&labels) {
            Some(_) => Some(DnsName { labels }),
            None => None,
        }
    }

    /// The labels, in order.
    pub fn labels(&self) -> (s: &[Vec<u8>])
        ensures
            label_views(s@) == self.label_seqs(),
    {
        self.labels.as_slice()
    }

    /// The wire length in octets.
    pub fn wire_length(&self) -> (n: usize)
        ensures
            n == wire_length_of(self.label_seqs()),
            n <= MAX_DNS_NAME_WIRE_LENGTH,
    {
        proof { use_type_invariant(self); }
        match wire_length_within(&self.labels) {
            Some(n) => n,
            None => 0,
        }
    }

    /// A copy of this name.
    pub fn duplicate(&self) -> (r: DnsName)
        ensures
            r.label_seqs() == self.label_seqs(),
    {
        proof { use_type_invariant(self); }
        let mut out: Vec<Vec<u8>> = Vec::new();
        let n = self.labels.len();
        let mut i: usize = 0;
        while i < n
            invariant
                n == self.labels@.len(),
                i <= n,
                out@.len() == i,
                forall|j: int| 0 <= j < i ==> (#[trigger] out@[j])@ == self.labels@[j]@,
            decreases n - i,
        {
            let c = crate::domain::copy_vec(&self.labels[i]);
            out.push(c);
            i = i + 1;
        }
        assert(label_views(out@) =~= label_views(self.labels@));
        DnsName { labels: out }
    }
}

/// The wire length of the labels when it is within the DNS limit.
fn wire_length_within(labels: &Vec<Vec<u8>>) -> (r: Option<usize>)
    ensures
        r is Some <==> wire_length_of(label_views(labels@)) <= MAX_DNS_NAME_WIRE_LENGTH,
        r matches Some(n) ==> n == wire_length_of(label_views(labels@)),
{
    let ghost ls = label_views(labels@);
    let n = labels.len();
    let mut total: usize = 1;
    let mut i: usize = 0;
    assert(ls.take(0) =~= Seq::<Seq<u8>>::empty());
    while i < n
        invariant
            n == labels@.len(),
            ls == label_views(labels@),
            i <= n,
            total == wire_length_of(ls.take(i as int)),
            total <= MAX_DNS_NAME_WIRE_LENGTH,
        decreases n - i,
    {
        let len = labels[i].len();
        assert(ls.take(i + 1).drop_last() =~= ls.take(i as int));
        if len >= MAX_DNS_NAME_WIRE_LENGTH || total + 1 + len > MAX_DNS_NAME_WIRE_LENGTH {
            proof {
                lemma_wire_length_prefix(ls, i + 1);
            }
            return None;
        }
        total = total + 1 + len;
        i = i + 1;
    }
    assert(ls.take(n as int) =~= ls);
    Some(total)
}

/// One question of a DNS message.
#[derive(Debug, PartialEq, Eq)]
pub struct DnsQuestion {
    /// Queried name.
    pub name: DnsName,
    /// Query type.
    pub qtype: u16,
    /// Query class.
    pub qclass: u16,
}

/// Whether a DNS message is a query or a response.
#[derive(Debug, Clone, Copy, PartialEq, Eq, Structural, Hash)]
pub enum DnsMessageKind {
    /// Query.
    Query,
    /// Response.
    Response,
}

/// A normalized DNS message as the detectors read it.
#[derive(Debug, PartialEq, Eq)]
pub struct DnsObservation {
    /// Query or response.
    pub message_kind: DnsMessageKind,
    /// The QR header flag.
    pub qr: bool,
    /// Questions.
    pub questions: Vec<DnsQuestion>,
}

/// Observation payload per protocol.
#[derive(Debug, PartialEq, Eq)]
pub enum ProtocolObservationData {
    /// DNS message metadata.
    Dns(DnsObservation),
    /// HTTP/1.x message metadata (not read by detectors).
    Http,
    /// TLS handshake metadata (not read by detectors).
    Tls,
}

/// A normalized protocol observation.
#[derive(Debug, PartialEq, Eq)]
pub struct ProtocolObservation {
    /// Canonical reference.
    pub reference: ObservationReference,
    /// Flow association.
    pub flow_association: ObservationFlowAssociation,
    /// Parse completeness.
    pub completeness: ObservationCompleteness,
    /// Payload.
    pub data: ProtocolObservationData,
}

impl ProtocolObservation {
    /// The packet that carried this observation.
    pub open spec fn packet(&self) -> PacketReference {
        PacketReference { capture_record_ordinal: self.reference.packet_ordinal }
    }

    /// The protocol of this observation.
    pub fn protocol_kind(&self) -> (p: ProtocolKind)
        ensures
            p == self.reference.protocol,
    {
        self.reference.protocol
    }
}

} // verus!

//! What every reported pattern satisfies of its configured thresholds, stated over the raw
//! measurements the detectors read.

use vstd::prelude::*;
use crate::connection_behavior::{
    flow_peer_key, low_volume_candidate, low_volume_eligible, low_volume_outcomes, peer_aggregate,
    sorted_peer_keys, LowVolumeSettingsView, PeerKeyView,
};
use crate::dns_anomaly::{
    distinct_octets, diversity_ratio, is_complete_dns_query, long_query_outcome, query_maxima,
    question_shape, shape_maxima, tunnel_aggregate, tunnel_flow_outcome, tunnel_query_flow,
    ShapeSettingsView, TunnelSettingsView,
};
use crate::domain::{DetectorVersion, EvidenceComparison, FlowReference};
use crate::flow::{
    wire_length_of, DnsQuestion, FlowDirection, FlowInterArrivalMetrics, FlowRecord, FlowTemporalValue,
    ProtocolObservation,
};
use crate::periodic_beaconing::{
    available, beacon_direction, beacon_flow_eligible, beacon_flow_outcome, optional_evidence, BeaconSettingsView,
};
use crate::ratio::{
    cross_parts, difference, lemma_cross_parts, lemma_reduced_same_value, quotient, reduced, same_value,
    value_le, value_lt,
};
use crate::views::{EvidenceView, MeasurementView};

verus! {

/// The measured value of a measurement satisfies the comparison against its threshold, when
/// it has one.
pub open spec fn meets_threshold(m: MeasurementView) -> bool {
    match m.2 {
        None => true,
        Some((t, c)) => match c {
            EvidenceComparison::GreaterThanOrEqual => value_le((t.1, t.2), (m.1.1, m.1.2)),
            EvidenceComparison::LessThanOrEqual => value_le((m.1.1, m.1.2), (t.1, t.2)),
        },
    }
}

/// Every measurement of the evidence satisfies its own threshold.
pub open spec fn evidence_within_thresholds(e: EvidenceView) -> bool {
    forall|i: int| 0 <= i < e.5.len() ==> meets_threshold(#[trigger] e.5[i])
}

/// An available temporal value has a positive denominator, as every exact duration does.
pub open spec fn temporal_value_valid(v: FlowTemporalValue) -> bool {
    available(v) matches Some(d) ==> d.1 > 0
}

/// The exact durations of inter-arrival metrics have positive denominators.
pub open spec fn inter_arrival_valid(m: FlowInterArrivalMetrics) -> bool {
    &&& temporal_value_valid(m.mean_interval)
    &&& temporal_value_valid(m.minimum_interval)
    &&& temporal_value_valid(m.maximum_interval)
    &&& temporal_value_valid(m.mean_absolute_successive_interval_delta)
}

/// A flow is reported as possible periodic beaconing only when its timestamps are clean and
/// it has evidence for at least one direction, each satisfying every threshold it records.
pub proof fn law_beacon_flow_within_thresholds(f: FlowRecord, s: BeaconSettingsView)
    requires
        inter_arrival_valid(f.temporal.a_to_b_inter_arrival),
        inter_arrival_valid(f.temporal.b_to_a_inter_arrival),
    ensures
        beacon_flow_outcome(f, s) matches Some(Some(d)) ==> {
            &&& beacon_flow_eligible(f)
            &&& 1 <= d.6.len() <= 2
            &&& forall|j: int| 0 <= j < d.6.len() ==> evidence_within_thresholds(#[trigger] d.6[j])
        },
{
    law_beacon_direction_within_thresholds(f.reference, FlowDirection::AToB, f.temporal.a_to_b_inter_arrival, s);
    law_beacon_direction_within_thresholds(f.reference, FlowDirection::BToA, f.temporal.b_to_a_inter_arrival, s);
    if let Some(Some(d)) = beacon_flow_outcome(f, s) {
        let a = beacon_direction(f.reference, FlowDirection::AToB, f.temporal.a_to_b_inter_arrival, s)->0;
        let b = beacon_direction(f.reference, FlowDirection::BToA, f.temporal.b_to_a_inter_arrival, s)->0;
        let ea = optional_evidence(a);
        let eb = optional_evidence(b);
        assert(d.6 == ea + eb);
        assert forall|j: int| 0 <= j < d.6.len() implies evidence_within_thresholds(#[trigger] d.6[j]) by {
            if j < ea.len() {
                assert(d.6[j] == ea[j]);
            } else {
                assert(d.6[j] == eb[j - ea.len()]);
            }
        }
    }
}

/// An upper bound carries over to a fraction of the same value.
pub proof fn lemma_upper_bound_same_value(x: (nat, nat), y: (nat, nat), t: (nat, nat))
    requires
        value_le(x, t),
        same_value(x, y),
        x.1 > 0,
    ensures
        value_le(y, t),
{
    assert(y.0 * t.1 <= t.0 * y.1) by (nonlinear_arith)
        requires
            x.0 * t.1 <= t.0 * x.1,
            x.0 * y.1 == y.0 * x.1,
            x.1 > 0,
    ;
}

/// A lower bound carries over to a fraction of the same value.
pub proof fn lemma_lower_bound_same_value(t: (nat, nat), x: (nat, nat), y: (nat, nat))
    requires
        value_le(t, x),
        same_value(x, y),
        x.1 > 0,
    ensures
        value_le(t, y),
{
    assert(t.0 * y.1 <= y.0 * t.1) by (nonlinear_arith)
        requires
            t.0 * x.1 <= x.0 * t.1,
            x.0 * y.1 == y.0 * x.1,
            x.1 > 0,
    ;
}

/// A direction yields periodic beaconing evidence only when it has no timestamp
/// discontinuity, at least the minimum number of interval samples (and one fewer successive
/// deltas), all four interval statistics, a minimum interval no greater than the maximum
/// interval, a positive mean interval of at least the minimum mean interval, and a relative jitter (mean absolute successive
/// interval delta divided by mean interval) of at most the maximum jitter ratio; every
/// measurement of the evidence satisfies its own threshold.
pub proof fn law_beacon_direction_within_thresholds(
    flow: FlowReference,
    direction: FlowDirection,
    m: FlowInterArrivalMetrics,
    s: BeaconSettingsView,
)
    requires
        inter_arrival_valid(m),
    ensures
        beacon_direction(flow, direction, m, s) matches Some(Some(ev)) ==> {
            let mean = available(m.mean_interval)->0;
            let jitter = available(m.mean_absolute_successive_interval_delta)->0;
            &&& m.discontinuity_count == 0
            &&& m.interval_sample_count >= s.0
            &&& m.successive_delta_sample_count + 1 >= s.0
            &&& available(m.mean_interval) is Some
            &&& available(m.minimum_interval) is Some
            &&& available(m.maximum_interval) is Some
            &&& available(m.mean_absolute_successive_interval_delta) is Some
            &&& mean.0 > 0
            &&& value_le(s.3, mean)
            &&& value_le(available(m.minimum_interval)->0, available(m.maximum_interval)->0)
            &&& value_le((jitter.0 * mean.1, jitter.1 * mean.0), s.1)
            &&& evidence_within_thresholds(ev)
        },
{
    if let Some(Some(ev)) = beacon_direction(flow, direction, m, s) {
        let mean = available(m.mean_interval)->0;
        let jitter = available(m.mean_absolute_successive_interval_delta)->0;
        let cp = cross_parts(jitter, mean);
        lemma_cross_parts(jitter, mean);
        lemma_reduced_same_value(cp.0, cp.1);
        let jr = reduced(cp.0, cp.1);
        assert(value_le(jr, s.1));
        lemma_upper_bound_same_value(jr, cp, s.1);
        lemma_upper_bound_same_value(cp, (jitter.0 * mean.1, jitter.1 * mean.0), s.1);
        let min = available(m.minimum_interval)->0;
        let max = available(m.maximum_interval)->0;
        let diff = difference(max, min);
        let spread = reduced(diff.0 as nat, diff.1 as nat);
        let sr = quotient(spread, mean)->0;
        let ms = crate::periodic_beaconing::beacon_measurements(m, s, mean, min, max, jitter, jr, sr);
        assert(ev.5 == ms);
        assert(meets_threshold(ms[0]));
        let n = m.interval_sample_count as nat;
        assert(s.0 * 1 <= n * 1) by (nonlinear_arith)
            requires
                s.0 <= n,
        ;
        assert(meets_threshold(ms[1]));
        assert(meets_threshold(ms[2]));
        assert(meets_threshold(ms[3]));
        assert(meets_threshold(ms[4]));
        assert(meets_threshold(ms[5]));
        assert(meets_threshold(ms[6]));
        assert(meets_threshold(ms[7]));
        assert(meets_threshold(ms[8]));
        assert forall|i: int| 0 <= i < ev.5.len() implies meets_threshold(#[trigger] ev.5[i]) by {
            assert(0 <= i < 9);
        }
    }
}

/// The eligible flows of `flows` between the peer pair `k`.
pub open spec fn peer_eligible_flows(flows: Seq<FlowRecord>, k: PeerKeyView) -> Seq<FlowRecord> {
    flows.filter(|f: FlowRecord| low_volume_eligible(f) && flow_peer_key(f) == k)
}

/// The eligible flows of `flows` between the peer pair `k` that are short and low-volume.
pub open spec fn peer_candidate_flows(flows: Seq<FlowRecord>, k: PeerKeyView, s: LowVolumeSettingsView) -> Seq<FlowRecord> {
    flows.filter(|f: FlowRecord| low_volume_eligible(f) && flow_peer_key(f) == k && low_volume_candidate(f, s))
}

/// The aggregate of a peer pair counts its eligible flows and its candidate flows.
pub proof fn lemma_peer_aggregate_counts_flows(flows: Seq<FlowRecord>, k: PeerKeyView, s: LowVolumeSettingsView)
    ensures
        peer_aggregate(flows, k, s).0 == peer_eligible_flows(flows, k).len(),
        peer_aggregate(flows, k, s).1 == peer_candidate_flows(flows, k, s).len(),
    decreases flows.len(),
{
    if flows.len() > 0 {
        lemma_peer_aggregate_counts_flows(flows.drop_last(), k, s);
        reveal(Seq::filter);
        let f = flows.last();
        let pe = |f: FlowRecord| low_volume_eligible(f) && flow_peer_key(f) == k;
        let pc = |f: FlowRecord| low_volume_eligible(f) && flow_peer_key(f) == k && low_volume_candidate(f, s);
        assert(flows.filter(pe) == if pe(f) {
            flows.drop_last().filter(pe).push(f)
        } else {
            flows.drop_last().filter(pe)
        });
        assert(flows.filter(pc) == if pc(f) {
            flows.drop_last().filter(pc).push(f)
        } else {
            flows.drop_last().filter(pc)
        });
        assert(peer_eligible_flows(flows, k) == flows.filter(pe));
        assert(peer_candidate_flows(flows, k, s) == flows.filter(pc));
        assert(peer_eligible_flows(flows.drop_last(), k) == flows.drop_last().filter(pe));
        assert(peer_candidate_flows(flows.drop_last(), k, s) == flows.drop_last().filter(pc));
    }
}

/// The maxima recorded over the candidate flows of a peer pair stay within the packet, wire
/// byte and duration limits that make a flow a candidate.
pub proof fn lemma_peer_aggregate_within_limits(flows: Seq<FlowRecord>, k: PeerKeyView, s: LowVolumeSettingsView)
    ensures
        peer_aggregate(flows, k, s).2 <= s.2,
        peer_aggregate(flows, k, s).3 <= s.3,
        value_le(peer_aggregate(flows, k, s).4, s.4),
    decreases flows.len(),
{
    if flows.len() > 0 {
        lemma_peer_aggregate_within_limits(flows.drop_last(), k, s);
    }
}

/// A peer pair is reported as a repeated low-volume pattern only when it has at least the
/// minimum number of eligible flows, at least one candidate flow, and a candidate proportion
/// (candidate flows divided by eligible flows) of at least the minimum candidate flow ratio;
/// every measurement of its evidence satisfies its own threshold.
pub proof fn law_low_volume_reports_meet_ratio(flows: Seq<FlowRecord>, s: LowVolumeSettingsView, i: int)
    requires
        0 <= i < low_volume_outcomes(flows, s).len(),
    ensures
        low_volume_outcomes(flows, s)[i] matches Some(Some(d)) ==> {
            let k = sorted_peer_keys(flows, s)[i];
            let eligible = peer_eligible_flows(flows, k).len();
            let candidates = peer_candidate_flows(flows, k, s).len();
            &&& eligible >= s.0
            &&& candidates > 0
            &&& value_le(s.1, (candidates, eligible))
            &&& d.6.len() == 1
            &&& evidence_within_thresholds(d.6[0])
        },
{
    if let Some(Some(d)) = low_volume_outcomes(flows, s)[i] {
        let k = sorted_peer_keys(flows, s)[i];
        let a = peer_aggregate(flows, k, s);
        lemma_peer_aggregate_counts_flows(flows, k, s);
        crate::connection_behavior::lemma_peer_aggregate_counts(flows, k, s);
        assert(low_volume_outcomes(flows, s)[i] == crate::connection_behavior::low_volume_key_outcome(a, s));
        let ratio = reduced(a.1, a.0);
        lemma_reduced_same_value(a.1, a.0);
        lemma_lower_bound_same_value(s.1, ratio, (a.1, a.0));
        assert(s.0 * 1 <= a.0 * 1) by (nonlinear_arith)
            requires
                s.0 <= a.0,
        ;
        lemma_peer_aggregate_within_limits(flows, k, s);
        assert(a.2 * 1 <= s.2 * 1 && a.3 * 1 <= s.3 * 1) by (nonlinear_arith)
            requires
                a.2 <= s.2,
                a.3 <= s.3,
        ;
        let ms = d.6[0].5;
        assert(meets_threshold(ms[0]));
        assert(meets_threshold(ms[1]));
        assert(meets_threshold(ms[2]));
        assert(meets_threshold(ms[3]));
        assert(meets_threshold(ms[4]));
        assert(meets_threshold(ms[5]));
        assert forall|j: int| 0 <= j < ms.len() implies meets_threshold(#[trigger] ms[j]) by {
            assert(0 <= j < 6);
        }
    }
}

/// The complete DNS query observations of `obs` that count toward the flow `f`.
pub open spec fn flow_query_observations(
    obs: Seq<ProtocolObservation>,
    flows: Seq<FlowRecord>,
    f: FlowReference,
) -> Seq<ProtocolObservation> {
    obs.filter(|o: ProtocolObservation| tunnel_query_flow(o, flows) == Some(f))
}

/// Those query observations of the flow `f` with at least one question matching the long,
/// high-diversity name shape.
pub open spec fn flow_candidate_queries(
    obs: Seq<ProtocolObservation>,
    flows: Seq<FlowRecord>,
    f: FlowReference,
    st: ShapeSettingsView,
) -> Seq<ProtocolObservation> {
    obs.filter(
        |o: ProtocolObservation|
            tunnel_query_flow(o, flows) == Some(f) && query_maxima(o.data->Dns_0.questions@, st).0 > 0,
    )
}

/// The aggregate of a flow counts its query observations and its candidate queries.
pub proof fn lemma_tunnel_aggregate_counts_queries(
    obs: Seq<ProtocolObservation>,
    flows: Seq<FlowRecord>,
    f: FlowReference,
    st: ShapeSettingsView,
)
    ensures
        tunnel_aggregate(obs, flows, f, st).0 == flow_query_observations(obs, flows, f).len(),
        tunnel_aggregate(obs, flows, f, st).1 == flow_candidate_queries(obs, flows, f, st).len(),
    decreases obs.len(),
{
    if obs.len() > 0 {
        lemma_tunnel_aggregate_counts_queries(obs.drop_last(), flows, f, st);
        reveal(Seq::filter);
        let o = obs.last();
        let pq = |o: ProtocolObservation| tunnel_query_flow(o, flows) == Some(f);
        let pc = |o: ProtocolObservation|
            tunnel_query_flow(o, flows) == Some(f) && query_maxima(o.data->Dns_0.questions@, st).0 > 0;
        assert(obs.filter(pq) == if pq(o) {
            obs.drop_last().filter(pq).push(o)
        } else {
            obs.drop_last().filter(pq)
        });
        assert(obs.filter(pc) == if pc(o) {
            obs.drop_last().filter(pc).push(o)
        } else {
            obs.drop_last().filter(pc)
        });
        assert(flow_query_observations(obs, flows, f) == obs.filter(pq));
        assert(flow_candidate_queries(obs, flows, f, st) == obs.filter(pc));
        assert(flow_query_observations(obs.drop_last(), flows, f) == obs.drop_last().filter(pq));
        assert(flow_candidate_queries(obs.drop_last(), flows, f, st) == obs.drop_last().filter(pc));
    }
}

/// The highest qualifying label diversity of a name has a positive denominator.
pub proof fn lemma_shape_diversity_denominator(labels: Seq<Seq<u8>>, min_label: nat)
    ensures
        shape_maxima(labels, min_label).1.1 > 0,
{
    lemma_shape_maxima_sources(labels, min_label);
    let m = shape_maxima(labels, min_label);
    if m.1 != (0nat, 1nat) {
        let i = choose|i: int|
            0 <= i < labels.len() && (#[trigger] labels[i]).len() >= min_label && m.1 == diversity_ratio(labels[i]);
        if labels[i].len() > 0 {
            lemma_reduced_same_value(distinct_octets(labels[i]), labels[i].len());
        }
    }
}

/// Over the questions of one query, the maxima among matching questions reach the shape
/// thresholds once some question matches; with no matching question they are all zero.
pub proof fn lemma_query_maxima_meet_shape(qs: Seq<DnsQuestion>, st: ShapeSettingsView)
    ensures
        query_maxima(qs, st).3.1 > 0,
        query_maxima(qs, st).0 == 0 ==> query_maxima(qs, st) == (0nat, 0nat, 0nat, (0nat, 1nat)),
        query_maxima(qs, st).0 > 0 ==> {
            &&& query_maxima(qs, st).1 >= st.0
            &&& query_maxima(qs, st).2 >= st.1
            &&& value_le(st.2, query_maxima(qs, st).3)
        },
    decreases qs.len(),
{
    if qs.len() > 0 {
        lemma_query_maxima_meet_shape(qs.drop_last(), st);
        lemma_shape_diversity_denominator(qs.last().name.label_seqs(), st.1);
        let sh = question_shape(qs.last(), st.0, st.1, st.2);
        let prev = query_maxima(qs.drop_last(), st);
        let r = query_maxima(qs, st);
        if sh.3 {
            assert(value_le(st.2, sh.2));
            if value_lt(prev.3, sh.2) {
                assert(r.3 == sh.2);
            } else {
                assert(r.3 == prev.3);
                if prev.0 == 0 {
                    assert(prev.3 == (0nat, 1nat));
                    assert(sh.2.0 == 0) by (nonlinear_arith)
                        requires
                            !(prev.3.0 * sh.2.1 < sh.2.0 * prev.3.1),
                            prev.3.0 == 0,
                            prev.3.1 == 1,
                    ;
                    assert(st.2.0 == 0) by (nonlinear_arith)
                        requires
                            st.2.0 * sh.2.1 <= sh.2.0 * st.2.1,
                            sh.2.0 == 0,
                            sh.2.1 > 0,
                    ;
                    assert(value_le(st.2, r.3));
                }
            }
            assert(r.1 >= st.0);
            assert(r.2 >= st.1);
        }
    }
}

/// Once a flow has a candidate query, the maxima recorded over its candidate queries reach
/// the shape thresholds; with no candidate they are all zero.
pub proof fn lemma_tunnel_aggregate_meets_shape(
    obs: Seq<ProtocolObservation>,
    flows: Seq<FlowRecord>,
    f: FlowReference,
    st: ShapeSettingsView,
)
    ensures
        tunnel_aggregate(obs, flows, f, st).4.1 > 0,
        tunnel_aggregate(obs, flows, f, st).1 == 0 ==> {
            &&& tunnel_aggregate(obs, flows, f, st).2 == 0
            &&& tunnel_aggregate(obs, flows, f, st).3 == 0
            &&& tunnel_aggregate(obs, flows, f, st).4 == (0nat, 1nat)
        },
        tunnel_aggregate(obs, flows, f, st).1 > 0 ==> {
            &&& tunnel_aggregate(obs, flows, f, st).2 >= st.0
            &&& tunnel_aggregate(obs, flows, f, st).3 >= st.1
            &&& value_le(st.2, tunnel_aggregate(obs, flows, f, st).4)
        },
    decreases obs.len(),
{
    if obs.len() > 0 {
        lemma_tunnel_aggregate_meets_shape(obs.drop_last(), flows, f, st);
        let o = obs.last();
        lemma_query_maxima_meet_shape(o.data->Dns_0.questions@, st);
        let q = query_maxima(o.data->Dns_0.questions@, st);
        let prev = tunnel_aggregate(obs.drop_last(), flows, f, st);
        let r = tunnel_aggregate(obs, flows, f, st);
        if tunnel_query_flow(o, flows) == Some(f) && q.0 > 0 {
            if value_lt(prev.4, q.3) {
                assert(r.4 == q.3);
            } else {
                assert(r.4 == prev.4);
                if prev.1 == 0 {
                    assert(prev.4 == (0nat, 1nat));
                    assert(q.3.0 == 0) by (nonlinear_arith)
                        requires
                            !(prev.4.0 * q.3.1 < q.3.0 * prev.4.1),
                            prev.4.0 == 0,
                            prev.4.1 == 1,
                    ;
                    assert(st.2.0 == 0) by (nonlinear_arith)
                        requires
                            st.2.0 * q.3.1 <= q.3.0 * st.2.1,
                            q.3.0 == 0,
                            q.3.1 > 0,
                    ;
                    assert(value_le(st.2, r.4));
                }
            }
            assert(r.2 >= st.0);
            assert(r.3 >= st.1);
        }
    }
}

/// A flow is reported as a possible DNS tunneling pattern only when it has at least the
/// minimum number of DNS query observations, at least one candidate query, and a candidate
/// proportion (candidate queries divided by query observations) of at least the minimum
/// candidate query ratio; every measurement of its evidence (candidate ratio, query count, and
/// the longest name, longest label and highest diversity among candidates) satisfies its own
/// threshold.
pub proof fn law_tunneling_reports_meet_ratio(
    fr: FlowRecord,
    obs: Seq<ProtocolObservation>,
    flows: Seq<FlowRecord>,
    s: TunnelSettingsView,
    id: Seq<char>,
    version: DetectorVersion,
)
    ensures
        tunnel_flow_outcome(fr, obs, flows, s, id, version) matches Some(Some(d)) ==> {
            let queries = flow_query_observations(obs, flows, fr.reference).len();
            let candidates = flow_candidate_queries(obs, flows, fr.reference, s.2).len();
            &&& queries >= s.0
            &&& candidates > 0
            &&& value_le(s.1, (candidates, queries))
            &&& d.6.len() == 1
            &&& evidence_within_thresholds(d.6[0])
        },
{
    if let Some(Some(d)) = tunnel_flow_outcome(fr, obs, flows, s, id, version) {
        let a = tunnel_aggregate(obs, flows, fr.reference, s.2);
        lemma_tunnel_aggregate_counts_queries(obs, flows, fr.reference, s.2);
        crate::dns_anomaly::lemma_aggregate_counts(obs, flows, fr.reference, s.2);
        let ratio = reduced(a.1, a.0);
        lemma_reduced_same_value(a.1, a.0);
        lemma_lower_bound_same_value(s.1, ratio, (a.1, a.0));
        assert(s.0 * 1 <= a.0 * 1) by (nonlinear_arith)
            requires
                s.0 <= a.0,
        ;
        lemma_tunnel_aggregate_meets_shape(obs, flows, fr.reference, s.2);
        assert(s.2.0 * 1 <= a.2 * 1 && s.2.1 * 1 <= a.3 * 1) by (nonlinear_arith)
            requires
                s.2.0 <= a.2,
                s.2.1 <= a.3,
        ;
        let ms = d.6[0].5;
        assert(meets_threshold(ms[0]));
        assert(meets_threshold(ms[1]));
        assert(meets_threshold(ms[2]));
        assert(meets_threshold(ms[3]));
        assert(meets_threshold(ms[4]));
        assert(meets_threshold(ms[5]));
        assert forall|j: int| 0 <= j < ms.len() implies meets_threshold(#[trigger] ms[j]) by {
            assert(0 <= j < 6);
        }
    }
}

/// The longest qualifying label and the highest qualifying diversity are each either the
/// value for no qualifying label or that of some label of at least `min_label` octets.
pub proof fn lemma_shape_maxima_sources(labels: Seq<Seq<u8>>, min_label: nat)
    ensures
        shape_maxima(labels, min_label).0 == 0 || exists|i: int|
            0 <= i < labels.len() && (#[trigger] labels[i]).len() >= min_label
                && shape_maxima(labels, min_label).0 == labels[i].len(),
        shape_maxima(labels, min_label).1 == (0nat, 1nat) || exists|i: int|
            0 <= i < labels.len() && (#[trigger] labels[i]).len() >= min_label
                && shape_maxima(labels, min_label).1 == diversity_ratio(labels[i]),
    decreases labels.len(),
{
    if labels.len() > 0 {
        let init = labels.drop_last();
        lemma_shape_maxima_sources(init, min_label);
        let prev = shape_maxima(init, min_label);
        let last = labels.len() - 1;
        assert(labels[last] == labels.last());
        if prev.0 != 0 {
            let i = choose|i: int|
                0 <= i < init.len() && (#[trigger] init[i]).len() >= min_label && prev.0 == init[i].len();
            assert(labels[i] == init[i]);
        }
        if prev.1 != (0nat, 1nat) {
            let i = choose|i: int|
                0 <= i < init.len() && (#[trigger] init[i]).len() >= min_label && prev.1 == diversity_ratio(init[i]);
            assert(labels[i] == init[i]);
        }
    }
}

/// A DNS question matches the long-name shape only when its name's wire length is at least
/// the minimum, some label is at least the minimum label length, and (for a positive minimum
/// diversity) some label of at least the minimum label length has a proportion of distinct
/// octets (distinct octets divided by label length) of at least the minimum diversity ratio.
pub proof fn law_question_shape_meets_thresholds(q: DnsQuestion, min_wire: nat, min_label: nat, min_div: (nat, nat))
    ensures
        question_shape(q, min_wire, min_label, min_div).3 ==> {
            let labels = q.name.label_seqs();
            &&& wire_length_of(labels) >= min_wire
            &&& (min_label > 0 ==> exists|i: int| 0 <= i < labels.len() && (#[trigger] labels[i]).len() >= min_label)
            &&& (min_div.0 > 0 ==> exists|i: int|
                0 <= i < labels.len() && (#[trigger] labels[i]).len() >= min_label && labels[i].len() > 0
                    && value_le(min_div, (distinct_octets(labels[i]), labels[i].len())))
        },
{
    let labels = q.name.label_seqs();
    let m = shape_maxima(labels, min_label);
    lemma_shape_maxima_sources(labels, min_label);
    if question_shape(q, min_wire, min_label, min_div).3 {
        if min_label > 0 {
            let i = choose|i: int|
                0 <= i < labels.len() && (#[trigger] labels[i]).len() >= min_label && m.0 == labels[i].len();
            assert(labels[i].len() >= min_label);
        }
        if min_div.0 > 0 {
            assert(m.1 != (0nat, 1nat));
            let i = choose|i: int|
                0 <= i < labels.len() && (#[trigger] labels[i]).len() >= min_label && m.1 == diversity_ratio(labels[i]);
            let l = labels[i];
            assert(l.len() > 0);
            lemma_reduced_same_value(distinct_octets(l), l.len());
            lemma_lower_bound_same_value(min_div, m.1, (distinct_octets(l), l.len()));
        }
    }
}

/// Some question of a query matches the shape rule exactly when the count of matching
/// questions is positive.
pub proof fn lemma_query_maxima_matching_question(qs: Seq<DnsQuestion>, st: ShapeSettingsView)
    ensures
        query_maxima(qs, st).0 > 0 <==> exists|j: int|
            0 <= j < qs.len() && question_shape(#[trigger] qs[j], st.0, st.1, st.2).3,
    decreases qs.len(),
{
    if qs.len() > 0 {
        let init = qs.drop_last();
        lemma_query_maxima_matching_question(init, st);
        let last = qs.len() - 1;
        assert(qs[last] == qs.last());
        if query_maxima(init, st).0 > 0 {
            let j = choose|j: int| 0 <= j < init.len() && question_shape(#[trigger] init[j], st.0, st.1, st.2).3;
            assert(qs[j] == init[j]);
        }
        if exists|j: int| 0 <= j < qs.len() && question_shape(#[trigger] qs[j], st.0, st.1, st.2).3 {
            let j = choose|j: int| 0 <= j < qs.len() && question_shape(#[trigger] qs[j], st.0, st.1, st.2).3;
            if j < last {
                assert(init[j] == qs[j]);
            }
        }
    }
}

/// A DNS query observation is reported as an unusually long query name only when it is a
/// complete query with some question matching the long-name shape; every measurement of its
/// evidence (longest name, longest label and highest diversity among matching questions)
/// satisfies its own threshold.
pub proof fn law_long_query_reports_meet_shape(o: ProtocolObservation, st: ShapeSettingsView)
    ensures
        long_query_outcome(o, st) matches Some(Some(d)) ==> {
            let qs = o.data->Dns_0.questions@;
            &&& is_complete_dns_query(o)
            &&& exists|j: int| 0 <= j < qs.len() && question_shape(#[trigger] qs[j], st.0, st.1, st.2).3
            &&& d.6.len() == 1
            &&& evidence_within_thresholds(d.6[0])
        },
{
    if let Some(Some(d)) = long_query_outcome(o, st) {
        let qs = o.data->Dns_0.questions@;
        let q = query_maxima(qs, st);
        lemma_query_maxima_matching_question(qs, st);
        lemma_query_maxima_meet_shape(qs, st);
        assert(st.0 * 1 <= q.1 * 1 && st.1 * 1 <= q.2 * 1) by (nonlinear_arith)
            requires
                st.0 <= q.1,
                st.1 <= q.2,
        ;
        let ms = d.6[0].5;
        assert(meets_threshold(ms[0]));
        assert(meets_threshold(ms[1]));
        assert(meets_threshold(ms[2]));
        assert(meets_threshold(ms[3]));
        assert(meets_threshold(ms[4]));
        assert forall|j: int| 0 <= j < ms.len() implies meets_threshold(#[trigger] ms[j]) by {
            assert(0 <= j < 5);
        }
    }
}

} // verus!

//! Explainable periodic beaconing detector over exact directional flow temporal metrics.
//!
//! Evaluates regular, low-jitter directional traffic patterns without floating-point numbers
//! or heuristic malware claims.

use vstd::prelude::*;
use crate::config::{lemma_lookup_member, lookup_parameter, DetectorParameter, DetectorParameterValue, DetectorParameters, ParameterView};
use crate::detector::{
    budget_fits, collect_outcomes, lemma_collect_prefix, lemma_overflow_not_internal, steps_fail_internally, Detector, DetectorDraftSink, DetectorMetadata,
    IncompleteDataPolicy, StepOutcome,
};
use crate::domain::{
    Confidence, DetectorId, DetectorVersion, EvidenceComparison, EvidenceDraft, EvidenceKind,
    EvidenceMeasurement, EvidenceUnit, EvidenceValue, FindingDraft, FindingSubject,
    FindingValidationError, FlowReference, PacketReference, ObservationReference, Severity,
    valid_detector_id,
};
use crate::error::{DetectorConfigError, DetectorExecutionError};
use crate::flow::{FlowDirection, FlowEndReason, FlowInterArrivalMetrics, FlowRecord, FlowTemporalValue};
use crate::input::DetectionInput;
use crate::params::{all_accepted, first_rejection_error, validate_with_rules, ParamVerdict, ParameterRules};
use crate::ratio::{
    cross_parts, difference, gcd, gcd_spec, lemma_cross_parts, lemma_reduced_same_value,
    lemma_same_value_trans, lemma_u64_parts_product, quotient, reduced, reducible_to_u64, same_value,
    value_le, value_lt, EvidenceRatio, FlowDuration,
};
use crate::views::{
    draft_views, duration_view, evidence_view, measurement_views, ratio_view, unsigned_view, DraftView,
    EvidenceView, MeasurementView,
};

verus! {

broadcast use vstd::string::group_string_axioms;

/// Default minimum interval samples.
pub const DEFAULT_MINIMUM_INTERVAL_SAMPLES: u64 = 6;

/// Hard minimum allowed for minimum interval samples.
pub const HARD_MIN_INTERVAL_SAMPLES: u64 = 3;

/// Default maximum jitter ratio numerator.
pub const DEFAULT_MAX_JITTER_NUMERATOR: u64 = 1;

/// Default maximum jitter ratio denominator (10%).
pub const DEFAULT_MAX_JITTER_DENOMINATOR: u64 = 10;

/// Default maximum spread ratio numerator.
pub const DEFAULT_MAX_SPREAD_NUMERATOR: u64 = 1;

/// Default maximum spread ratio denominator (25%).
pub const DEFAULT_MAX_SPREAD_DENOMINATOR: u64 = 4;

/// Default minimum mean interval in seconds.
pub const DEFAULT_MIN_MEAN_INTERVAL_SECS: u64 = 1;

/// Exact quotient `num / den` of two durations as a ratio in lowest terms, cancelling
/// common factors first. Fails when `den` is zero or the result does not fit.
pub fn compute_duration_ratio(dur_num: &FlowDuration, dur_den: &FlowDuration) -> (r: Result<
    EvidenceRatio,
    DetectorExecutionError,
>)
    ensures
        r is Ok <==> quotient(dur_num@, dur_den@) is Some,
        r matches Ok(x) ==> x@ == quotient(dur_num@, dur_den@)->0 && same_value(
            x@,
            (dur_num@.0 * dur_den@.1, dur_num@.1 * dur_den@.0),
        ),
        r matches Err(e) ==> e is InternalError,
{
    if dur_den.numerator() == 0 {
        return Err(
            DetectorExecutionError::internal_error(
                "unable to construct exact duration ratio: zero denominator",
            ),
        );
    }
    let a = dur_num.numerator() as u128;
    let b = dur_num.denominator() as u128;
    let c = dur_den.numerator() as u128;
    let d = dur_den.denominator() as u128;
    proof {
        lemma_cross_parts(dur_num@, dur_den@);
    }
    let g1 = gcd(a, c);
    proof {
        crate::ratio::lemma_gcd_divides(a as nat, c as nat);
    }
    let a1 = a / g1;
    let c1 = c / g1;
    let g2 = gcd(d, b);
    proof {
        crate::ratio::lemma_gcd_divides(d as nat, b as nat);
    }
    let d1 = d / g2;
    let b1 = b / g2;
    proof {
        lemma_u64_parts_product(a1 as nat, d1 as nat);
        lemma_u64_parts_product(b1 as nat, c1 as nat);
    }
    let num = match a1.checked_mul(d1) {
        Some(x) => x,
        None => {
            return Err(
                DetectorExecutionError::internal_error(
                    "unable to construct exact duration ratio: numerator overflow",
                ),
            );
        },
    };
    let den = match b1.checked_mul(c1) {
        Some(x) => x,
        None => {
            return Err(
                DetectorExecutionError::internal_error(
                    "unable to construct exact duration ratio: denominator overflow",
                ),
            );
        },
    };
    assert((num as nat, den as nat) == cross_parts(dur_num@, dur_den@));
    match EvidenceRatio::from_fraction(num, den) {
        Some(x) => {
            proof {
                lemma_same_value_trans(
                    x@,
                    (num as nat, den as nat),
                    (dur_num@.0 * dur_den@.1, dur_num@.1 * dur_den@.0),
                );
            }
            Ok(x)
        },
        None => Err(DetectorExecutionError::internal_error("unable to construct exact duration ratio")),
    }
}

/// The verdict of the beaconing detector on one parameter.
pub open spec fn beacon_verdict(p: ParameterView) -> ParamVerdict {
    let key = p.0;
    let value = p.1;
    if key == "minimum_interval_samples"@ {
        match value {
            DetectorParameterValue::Unsigned(u) => if u < 3 {
                ParamVerdict::OutOfRange("minimum interval samples must be at least 3")
            } else if u > u64::MAX {
                ParamVerdict::OutOfRange("minimum interval samples exceeds u64 bounds")
            } else {
                ParamVerdict::Accepted
            },
            _ => ParamVerdict::WrongType("unsigned integer"),
        }
    } else if key == "maximum_jitter_ratio"@ {
        match value {
            DetectorParameterValue::Ratio(r) => if r@.0 > r@.1 {
                ParamVerdict::OutOfRange("maximum jitter ratio cannot exceed 1.0 (1/1)")
            } else {
                ParamVerdict::Accepted
            },
            _ => ParamVerdict::WrongType("evidence ratio"),
        }
    } else if key == "maximum_spread_ratio"@ {
        match value {
            DetectorParameterValue::Ratio(r) => if r@.0 > r@.1 {
                ParamVerdict::OutOfRange("maximum spread ratio cannot exceed 1.0 (1/1)")
            } else {
                ParamVerdict::Accepted
            },
            _ => ParamVerdict::WrongType("evidence ratio"),
        }
    } else if key == "minimum_mean_interval"@ {
        match value {
            DetectorParameterValue::Duration(d) => if d@.0 == 0 {
                ParamVerdict::OutOfRange("minimum mean interval must be greater than zero")
            } else {
                ParamVerdict::Accepted
            },
            _ => ParamVerdict::WrongType("flow duration"),
        }
    } else {
        ParamVerdict::UnknownKey
    }
}

/// Whether every parameter is accepted by the beaconing detector.
pub open spec fn beacon_params_valid(ps: Seq<ParameterView>) -> bool {
    all_accepted(ps, |p: ParameterView| beacon_verdict(p))
}

/// `e` is the error for the first parameter the beaconing detector rejects.
pub open spec fn beacon_first_rejection(ps: Seq<ParameterView>, e: DetectorConfigError) -> bool {
    first_rejection_error(ps, |p: ParameterView| beacon_verdict(p), e)
}

/// Effective settings: minimum samples, maximum jitter ratio, maximum spread ratio,
/// minimum mean interval; defaults where a parameter is absent.
pub type BeaconSettingsView = (nat, (nat, nat), (nat, nat), (nat, nat));

/// The effective settings of a parameter list.
pub open spec fn beacon_settings(ps: Seq<ParameterView>) -> BeaconSettingsView {
    (
        match lookup_parameter(ps, "minimum_interval_samples"@) {
            Some(DetectorParameterValue::Unsigned(u)) => u as nat,
            _ => 6,
        },
        match lookup_parameter(ps, "maximum_jitter_ratio"@) {
            Some(DetectorParameterValue::Ratio(r)) => r@,
            _ => (1, 10),
        },
        match lookup_parameter(ps, "maximum_spread_ratio"@) {
            Some(DetectorParameterValue::Ratio(r)) => r@,
            _ => (1, 4),
        },
        match lookup_parameter(ps, "minimum_mean_interval"@) {
            Some(DetectorParameterValue::Duration(d)) => d@,
            _ => (1, 1),
        },
    )
}

/// The exact value of an available temporal metric.
pub open spec fn available(v: FlowTemporalValue) -> Option<(nat, nat)> {
    match v {
        FlowTemporalValue::Available(d) => Some(d@),
        FlowTemporalValue::Unavailable(_) => None,
    }
}

/// Description of the evidence for one direction.
pub open spec fn direction_description(direction: FlowDirection) -> Seq<char> {
    match direction {
        FlowDirection::AToB => "A-to-B periodic inter-arrival timing metrics"@,
        FlowDirection::BToA => "B-to-A periodic inter-arrival timing metrics"@,
        FlowDirection::SameEndpoint => "Same-endpoint periodic inter-arrival timing metrics"@,
    }
}

/// The measurements of one periodic direction, in metric key order.
pub open spec fn beacon_measurements(
    m: FlowInterArrivalMetrics,
    s: BeaconSettingsView,
    mean: (nat, nat),
    min: (nat, nat),
    max: (nat, nat),
    jitter: (nat, nat),
    jitter_ratio: (nat, nat),
    spread_ratio: (nat, nat),
) -> Seq<MeasurementView> {
    seq![
        ("discontinuity_count"@, unsigned_view(0), None, EvidenceUnit::Count),
        ("interval_sample_count"@, unsigned_view(m.interval_sample_count as nat), Some((unsigned_view(s.0), EvidenceComparison::GreaterThanOrEqual)), EvidenceUnit::Count),
        ("maximum_interval"@, duration_view(max), None, EvidenceUnit::Seconds),
        ("mean_absolute_successive_interval_delta"@, duration_view(jitter), None, EvidenceUnit::Seconds),
        ("mean_interval"@, duration_view(mean), Some((duration_view(s.3), EvidenceComparison::GreaterThanOrEqual)), EvidenceUnit::Seconds),
        ("minimum_interval"@, duration_view(min), None, EvidenceUnit::Seconds),
        ("relative_jitter_ratio"@, ratio_view(jitter_ratio), Some((ratio_view(s.1), EvidenceComparison::LessThanOrEqual)), EvidenceUnit::Ratio),
        ("spread_ratio"@, ratio_view(spread_ratio), Some((ratio_view(s.2), EvidenceComparison::LessThanOrEqual)), EvidenceUnit::Ratio),
        ("successive_delta_sample_count"@, unsigned_view(m.successive_delta_sample_count as nat), None, EvidenceUnit::Count),
    ]
}

/// Outcome of the periodicity rules on one direction: `None` when an exact ratio cannot be
/// built, `Some(None)` when the direction does not look periodic, otherwise its evidence.
pub open spec fn beacon_direction(
    flow: FlowReference,
    direction: FlowDirection,
    m: FlowInterArrivalMetrics,
    s: BeaconSettingsView,
) -> Option<Option<EvidenceView>> {
    let min_deltas: nat = if s.0 >= 1 { (s.0 - 1) as nat } else { 0 };
    if m.discontinuity_count > 0 || m.interval_sample_count < s.0 || m.successive_delta_sample_count < min_deltas {
        Some(None)
    } else if available(m.mean_interval) is None || available(m.minimum_interval) is None
        || available(m.maximum_interval) is None
        || available(m.mean_absolute_successive_interval_delta) is None {
        Some(None)
    } else {
        let mean = available(m.mean_interval)->0;
        let min = available(m.minimum_interval)->0;
        let max = available(m.maximum_interval)->0;
        let jitter = available(m.mean_absolute_successive_interval_delta)->0;
        let diff = difference(max, min);
        if mean.0 == 0 || value_lt(mean, s.3) {
            Some(None)
        } else if !value_le(min, max) || !reducible_to_u64(diff.0 as nat, diff.1 as nat) {
            Some(None)
        } else {
            let spread = reduced(diff.0 as nat, diff.1 as nat);
            match quotient(jitter, mean) {
                None => None,
                Some(jr) => if value_lt(s.1, jr) {
                    Some(None)
                } else {
                    match quotient(spread, mean) {
                        None => None,
                        Some(sr) => if value_lt(s.2, sr) {
                            Some(None)
                        } else {
                            Some(
                                Some(
                                    (
                                        EvidenceKind::TemporalMetric,
                                        direction_description(direction),
                                        Seq::<PacketReference>::empty(),
                                        seq![flow],
                                        Seq::<ObservationReference>::empty(),
                                        beacon_measurements(m, s, mean, min, max, jitter, jr, sr),
                                        Seq::empty(),
                                    ),
                                ),
                            )
                        },
                    }
                },
            }
        }
    }
}

/// A flow whose timestamps are clean enough to be judged for periodicity.
pub open spec fn beacon_flow_eligible(f: FlowRecord) -> bool {
    &&& f.end_reason != FlowEndReason::AnalysisStopped
    &&& f.temporal.coverage.unavailable_timestamps == 0
    &&& f.temporal.coverage.invalid_timestamps == 0
    &&& f.temporal.coverage.non_monotonic_transitions == 0
    &&& f.temporal.duration is Available
}

/// Rationale of a periodic beaconing finding.
pub open spec fn beacon_rationale() -> Seq<char> {
    "Directional traffic in this flow exhibits low-jitter periodic inter-arrival timing satisfying configured statistical thresholds. Periodic timing is common in application keepalives, health checks, monitoring agents, scheduled polling, and heartbeat traffic, and does not establish malicious activity without independent corroborating evidence."@
}

/// The finding about one flow with its directional evidence.
pub open spec fn beacon_draft(flow: FlowReference, evidence: Seq<EvidenceView>) -> DraftView {
    (
        (Seq::<PacketReference>::empty(), seq![flow], Seq::<ObservationReference>::empty()),
        "Possible periodic beaconing behavior"@,
        "Observed highly regular directional packet timing intervals consistent with possible periodic beaconing"@,
        beacon_rationale(),
        Severity::Low,
        Confidence::Medium,
        evidence,
        Seq::empty(),
    )
}

/// Evidence of an optional direction as a sequence.
pub open spec fn optional_evidence(e: Option<EvidenceView>) -> Seq<EvidenceView> {
    match e {
        Some(v) => seq![v],
        None => Seq::empty(),
    }
}

/// The view of an optional evidence draft.
pub open spec fn optional_view(e: Option<EvidenceDraft>) -> Option<EvidenceView> {
    match e {
        Some(x) => Some(evidence_view(x)),
        None => None,
    }
}

/// What the detector does with one flow.
pub open spec fn beacon_flow_outcome(f: FlowRecord, s: BeaconSettingsView) -> StepOutcome {
    if !beacon_flow_eligible(f) {
        Some(None)
    } else {
        match beacon_direction(f.reference, FlowDirection::AToB, f.temporal.a_to_b_inter_arrival, s) {
            None => None,
            Some(a) => match beacon_direction(
                f.reference,
                FlowDirection::BToA,
                f.temporal.b_to_a_inter_arrival,
                s,
            ) {
                None => None,
                Some(b) => {
                    let evidence = optional_evidence(a) + optional_evidence(b);
                    if evidence.len() == 0 {
                        Some(None)
                    } else {
                        Some(Some(beacon_draft(f.reference, evidence)))
                    }
                },
            },
        }
    }
}

/// What the detector does with each flow, in input order.
pub open spec fn beacon_outcomes(flows: Seq<FlowRecord>, s: BeaconSettingsView) -> Seq<StepOutcome> {
    flows.map_values(|f: FlowRecord| beacon_flow_outcome(f, s))
}

/// Detector identifying periodic communication patterns across directional flow intervals.
///
/// Evaluates inter-arrival timing statistics independently for both flow directions
/// (`A -> B` and `B -> A`), applying exact rational thresholds for sample count, minimum mean
/// interval, relative jitter ratio, and spread ratio.
#[derive(Debug)]
pub struct PeriodicBeaconingDetector {
    metadata: DetectorMetadata,
}

impl ParameterRules for PeriodicBeaconingDetector {
    open spec fn verdict(p: ParameterView) -> ParamVerdict {
        beacon_verdict(p)
    }

    fn check(p: &DetectorParameter) -> (v: ParamVerdict) {
        let key = p.key.as_str();
        if crate::text::str_equal(key, "minimum_interval_samples") {
            match p.value {
                DetectorParameterValue::Unsigned(u) => if u < 3 {
                    ParamVerdict::OutOfRange("minimum interval samples must be at least 3")
                } else if u > u64::MAX as u128 {
                    ParamVerdict::OutOfRange("minimum interval samples exceeds u64 bounds")
                } else {
                    ParamVerdict::Accepted
                },
                _ => ParamVerdict::WrongType("unsigned integer"),
            }
        } else if crate::text::str_equal(key, "maximum_jitter_ratio") {
            match p.value {
                DetectorParameterValue::Ratio(r) => if r.exceeds_one() {
                    ParamVerdict::OutOfRange("maximum jitter ratio cannot exceed 1.0 (1/1)")
                } else {
                    ParamVerdict::Accepted
                },
                _ => ParamVerdict::WrongType("evidence ratio"),
            }
        } else if crate::text::str_equal(key, "maximum_spread_ratio") {
            match p.value {
                DetectorParameterValue::Ratio(r) => if r.exceeds_one() {
                    ParamVerdict::OutOfRange("maximum spread ratio cannot exceed 1.0 (1/1)")
                } else {
                    ParamVerdict::Accepted
                },
                _ => ParamVerdict::WrongType("evidence ratio"),
            }
        } else if crate::text::str_equal(key, "minimum_mean_interval") {
            match p.value {
                DetectorParameterValue::Duration(d) => if d.numerator() == 0 {
                    ParamVerdict::OutOfRange("minimum mean interval must be greater than zero")
                } else {
                    ParamVerdict::Accepted
                },
                _ => ParamVerdict::WrongType("flow duration"),
            }
        } else {
            ParamVerdict::UnknownKey
        }
    }
}

proof fn lemma_beaconing_id_valid()
    ensures
        crate::domain::valid_detector_id("behavior.periodic_beaconing"@),
{
    reveal_strlit("behavior.periodic_beaconing");
    let s = "behavior.periodic_beaconing"@;
    assert forall|i: int| 1 <= i < s.len() implies #[trigger] crate::domain::is_detector_id_char(s[i]) by {
        assert(1 <= i <= 26);
    }
}

impl PeriodicBeaconingDetector {
    /// Creates the detector with its canonical metadata (`behavior.periodic_beaconing`,
    /// version 1.0.0, skipping partial input).
    pub fn new() -> (d: PeriodicBeaconingDetector)
        ensures
            d.spec_metadata().spec_id() == "behavior.periodic_beaconing"@,
            d.spec_metadata().spec_version() == (DetectorVersion { major: 1, minor: 0, patch: 0 }),
            d.spec_metadata().spec_policy() == IncompleteDataPolicy::Skip,
    {
        proof { lemma_beaconing_id_valid(); }
        PeriodicBeaconingDetector {
            metadata: DetectorMetadata::new(
                DetectorId::from_valid("behavior.periodic_beaconing"),
                DetectorVersion::new(1, 0, 0),
                String::from_str("Possible periodic beaconing behavior"),
                String::from_str(
                    "Identify reconstructed flow instances exhibiting highly regular directional packet inter-arrival timing using exact temporal metrics",
                ),
                IncompleteDataPolicy::Skip,
            ),
        }
    }

    /// Creates the detector; it never fails, as its canonical metadata is valid.
    pub fn try_new() -> (r: Result<PeriodicBeaconingDetector, FindingValidationError>)
        ensures
            r matches Ok(d) && d.spec_metadata().spec_id() == "behavior.periodic_beaconing"@
                && d.spec_metadata().spec_version() == (DetectorVersion { major: 1, minor: 0, patch: 0 })
                && d.spec_metadata().spec_policy() == IncompleteDataPolicy::Skip,
    {
        Ok(Self::new())
    }

    /// Validates the parameters and returns the effective settings: minimum interval samples,
    /// maximum jitter ratio, maximum spread ratio, minimum mean interval.
    pub fn parse_and_validate_parameters(parameters: &DetectorParameters) -> (r: Result<
        (u64, EvidenceRatio, EvidenceRatio, FlowDuration),
        DetectorConfigError,
    >)
        ensures
            r is Ok <==> beacon_params_valid(parameters@),
            r matches Err(e) ==> beacon_first_rejection(parameters@, e),
            r matches Ok(s) ==> (s.0 as nat, s.1@, s.2@, s.3@) == beacon_settings(parameters@),
    {
        match validate_with_rules::<PeriodicBeaconingDetector>(parameters) {
            Err(e) => {
                proof {
                    assert((|p: ParameterView| PeriodicBeaconingDetector::verdict(p)) =~= (|p: ParameterView| beacon_verdict(p)));
                }
                return Err(e);
            },
            Ok(()) => {},
        }
        let ghost ps = parameters@;
        proof {
            assert((|p: ParameterView| PeriodicBeaconingDetector::verdict(p)) =~= (|p: ParameterView| beacon_verdict(p)));
        }
        assert(beacon_params_valid(ps));
        let min_samples = match parameters.get("minimum_interval_samples") {
            Some(DetectorParameterValue::Unsigned(u)) => {
                proof {
                    lemma_lookup_member(ps, "minimum_interval_samples"@);
                    let i = choose|i: int| 0 <= i < ps.len() && (#[trigger] ps[i]).0 == "minimum_interval_samples"@ && ps[i].1 == DetectorParameterValue::Unsigned(*u);
                    let f = |p: ParameterView| beacon_verdict(p);
                    assert(f(ps[i]) is Accepted);
                }
                *u as u64
            },
            _ => DEFAULT_MINIMUM_INTERVAL_SAMPLES,
        };
        let max_jitter = match parameters.get("maximum_jitter_ratio") {
            Some(DetectorParameterValue::Ratio(r)) => *r,
            _ => EvidenceRatio::from_lowest_terms(1, 10),
        };
        let max_spread = match parameters.get("maximum_spread_ratio") {
            Some(DetectorParameterValue::Ratio(r)) => *r,
            _ => EvidenceRatio::from_lowest_terms(1, 4),
        };
        let min_mean_interval = match parameters.get("minimum_mean_interval") {
            Some(DetectorParameterValue::Duration(d)) => *d,
            _ => FlowDuration::from_secs(DEFAULT_MIN_MEAN_INTERVAL_SECS),
        };
        Ok((min_samples, max_jitter, max_spread, min_mean_interval))
    }


    /// Whether a flow's timestamps are clean enough to be judged.
    fn flow_eligible(flow: &FlowRecord) -> (b: bool)
        ensures
            b == beacon_flow_eligible(*flow),
    {
        let stopped = match flow.end_reason {
            FlowEndReason::AnalysisStopped => true,
            _ => false,
        };
        let available = match flow.temporal.duration {
            FlowTemporalValue::Available(_) => true,
            FlowTemporalValue::Unavailable(_) => false,
        };
        !stopped && flow.temporal.coverage.unavailable_timestamps == 0
            && flow.temporal.coverage.invalid_timestamps == 0
            && flow.temporal.coverage.non_monotonic_transitions == 0 && available
    }

    /// The finding about a flow with the evidence of its periodic directions.
    fn flow_draft(flow: FlowReference, a: Option<EvidenceDraft>, b: Option<EvidenceDraft>) -> (d: FindingDraft)
        ensures
            crate::views::draft_view(d) == beacon_draft(
                flow,
                optional_evidence(optional_view(a)) + optional_evidence(optional_view(b)),
            ),
            d.evidence@.len() == (if a is Some { 1nat } else { 0nat }) + (if b is Some { 1nat } else { 0nat }),
    {
        let ghost va = optional_view(a);
        let ghost vb = optional_view(b);
        let mut evidence: Vec<EvidenceDraft> = Vec::new();
        match a {
            Some(e) => evidence.push(e),
            None => {},
        }
        match b {
            Some(e) => evidence.push(e),
            None => {},
        }
        let draft = FindingDraft {
            subject: FindingSubject::single_flow(flow),
            title: String::from_str("Possible periodic beaconing behavior"),
            summary: String::from_str(
                "Observed highly regular directional packet timing intervals consistent with possible periodic beaconing",
            ),
            rationale: String::from_str(
                "Directional traffic in this flow exhibits low-jitter periodic inter-arrival timing satisfying configured statistical thresholds. Periodic timing is common in application keepalives, health checks, monitoring agents, scheduled polling, and heartbeat traffic, and does not establish malicious activity without independent corroborating evidence.",
            ),
            severity: Severity::Low,
            confidence: Confidence::Medium,
            evidence,
            mitre_mappings: Vec::new(),
        };
        proof {
            assert(crate::views::evidence_views(draft.evidence@) =~= optional_evidence(va) + optional_evidence(vb));
            assert(crate::views::mapping_views(draft.mitre_mappings@) =~= Seq::empty());
        }
        draft
    }

    /// Judges one direction of a flow against the periodicity rules and builds its evidence.
    pub fn evaluate_direction(
        flow: &FlowRecord,
        direction: FlowDirection,
        metrics: &FlowInterArrivalMetrics,
        min_samples: u64,
        max_jitter: EvidenceRatio,
        max_spread: EvidenceRatio,
        min_mean_interval: FlowDuration,
    ) -> (r: Result<Option<EvidenceDraft>, DetectorExecutionError>)
        ensures
            (match beacon_direction(
                flow.reference,
                direction,
                *metrics,
                (min_samples as nat, max_jitter@, max_spread@, min_mean_interval@),
            ) {
                None => r is Err,
                Some(None) => r matches Ok(None),
                Some(Some(ev)) => r matches Ok(Some(e)) && evidence_view(e) == ev,
            }),
            r matches Err(e) ==> e is InternalError,
    {
        let ghost s = (min_samples as nat, max_jitter@, max_spread@, min_mean_interval@);
        if metrics.discontinuity_count > 0 {
            return Ok(None);
        }
        if metrics.interval_sample_count < min_samples {
            return Ok(None);
        }
        let min_deltas = if min_samples >= 1 {
            min_samples - 1
        } else {
            0
        };
        if metrics.successive_delta_sample_count < min_deltas {
            return Ok(None);
        }
        let mean_dur = match metrics.mean_interval {
            FlowTemporalValue::Available(d) => d,
            FlowTemporalValue::Unavailable(_) => {
                return Ok(None);
            },
        };
        let min_dur = match metrics.minimum_interval {
            FlowTemporalValue::Available(d) => d,
            FlowTemporalValue::Unavailable(_) => {
                return Ok(None);
            },
        };
        let max_dur = match metrics.maximum_interval {
            FlowTemporalValue::Available(d) => d,
            FlowTemporalValue::Unavailable(_) => {
                return Ok(None);
            },
        };
        let jitter_dur = match metrics.mean_absolute_successive_interval_delta {
            FlowTemporalValue::Available(d) => d,
            FlowTemporalValue::Unavailable(_) => {
                return Ok(None);
            },
        };
        if mean_dur.numerator() == 0 || mean_dur.lt(&min_mean_interval) {
            return Ok(None);
        }
        let spread_dur = match max_dur.checked_sub(&min_dur) {
            Some(x) => x,
            None => {
                return Ok(None);
            },
        };
        let observed_jitter_ratio = match compute_duration_ratio(&jitter_dur, &mean_dur) {
            Ok(x) => x,
            Err(e) => {
                return Err(e);
            },
        };
        if max_jitter.lt(&observed_jitter_ratio) {
            return Ok(None);
        }
        let observed_spread_ratio = match compute_duration_ratio(&spread_dur, &mean_dur) {
            Ok(x) => x,
            Err(e) => {
                return Err(e);
            },
        };
        if max_spread.lt(&observed_spread_ratio) {
            return Ok(None);
        }
        let desc = match direction {
            FlowDirection::AToB => "A-to-B periodic inter-arrival timing metrics",
            FlowDirection::BToA => "B-to-A periodic inter-arrival timing metrics",
            FlowDirection::SameEndpoint => "Same-endpoint periodic inter-arrival timing metrics",
        };
        let mut ms: Vec<EvidenceMeasurement> = Vec::new();
        ms.push(EvidenceMeasurement::new("discontinuity_count", EvidenceValue::Unsigned(0), EvidenceUnit::Count));
        ms.push(
            EvidenceMeasurement::with_threshold(
                "interval_sample_count",
                EvidenceValue::Unsigned(metrics.interval_sample_count as u128),
                EvidenceValue::Unsigned(min_samples as u128),
                EvidenceComparison::GreaterThanOrEqual,
                EvidenceUnit::Count,
            ),
        );
        ms.push(EvidenceMeasurement::new("maximum_interval", EvidenceValue::Duration(max_dur), EvidenceUnit::Seconds));
        ms.push(
            EvidenceMeasurement::new(
                "mean_absolute_successive_interval_delta",
                EvidenceValue::Duration(jitter_dur),
                EvidenceUnit::Seconds,
            ),
        );
        ms.push(
            EvidenceMeasurement::with_threshold(
                "mean_interval",
                EvidenceValue::Duration(mean_dur),
                EvidenceValue::Duration(min_mean_interval),
                EvidenceComparison::GreaterThanOrEqual,
                EvidenceUnit::Seconds,
            ),
        );
        ms.push(EvidenceMeasurement::new("minimum_interval", EvidenceValue::Duration(min_dur), EvidenceUnit::Seconds));
        ms.push(
            EvidenceMeasurement::with_threshold(
                "relative_jitter_ratio",
                EvidenceValue::Ratio(observed_jitter_ratio),
                EvidenceValue::Ratio(max_jitter),
                EvidenceComparison::LessThanOrEqual,
                EvidenceUnit::Ratio,
            ),
        );
        ms.push(
            EvidenceMeasurement::with_threshold(
                "spread_ratio",
                EvidenceValue::Ratio(observed_spread_ratio),
                EvidenceValue::Ratio(max_spread),
                EvidenceComparison::LessThanOrEqual,
                EvidenceUnit::Ratio,
            ),
        );
        ms.push(
            EvidenceMeasurement::new(
                "successive_delta_sample_count",
                EvidenceValue::Unsigned(metrics.successive_delta_sample_count as u128),
                EvidenceUnit::Count,
            ),
        );
        let mut flows: Vec<FlowReference> = Vec::new();
        flows.push(flow.reference);
        let e = EvidenceDraft {
            kind: EvidenceKind::TemporalMetric,
            description: String::from_str(desc),
            packet_references: Vec::new(),
            flow_references: flows,
            observation_references: Vec::new(),
            measurements: ms,
            limitations: Vec::new(),
        };
        proof {
            assert(measurement_views(e.measurements@) =~= beacon_measurements(
                *metrics,
                s,
                mean_dur@,
                min_dur@,
                max_dur@,
                jitter_dur@,
                observed_jitter_ratio@,
                observed_spread_ratio@,
            ));
            assert(e.flow_references@ =~= seq![flow.reference]);
            assert(e.packet_references@ =~= Seq::<PacketReference>::empty());
            assert(e.observation_references@ =~= Seq::<ObservationReference>::empty());
            assert(e.limitations@ =~= Seq::<crate::domain::EvidenceLimitation>::empty());
        }
        Ok(Some(e))
    }
}

/// Whether a run succeeds: valid parameters, exact ratios everywhere, and room in the budgets.
pub open spec fn beacon_run_succeeds(
    ps: Seq<ParameterView>,
    flows: Seq<FlowRecord>,
    base: Seq<DraftView>,
    finding_budget: nat,
    evidence_budget: nat,
) -> bool {
    &&& beacon_params_valid(ps)
    &&& collect_outcomes(beacon_outcomes(flows, beacon_settings(ps))) is Some
    &&& budget_fits(
        base,
        finding_budget,
        evidence_budget,
        collect_outcomes(beacon_outcomes(flows, beacon_settings(ps)))->0,
    )
}

impl Detector for PeriodicBeaconingDetector {
    closed spec fn spec_metadata(&self) -> DetectorMetadata {
        self.metadata
    }

    fn metadata(&self) -> (m: &DetectorMetadata) {
        &self.metadata
    }

    open spec fn spec_params_valid(&self, parameters: Seq<ParameterView>) -> bool {
        beacon_params_valid(parameters)
    }

    open spec fn spec_rejection(&self, parameters: Seq<ParameterView>, e: DetectorConfigError) -> bool {
        beacon_first_rejection(parameters, e)
    }

    open spec fn spec_fails_internally(
        &self,
        input: DetectionInput<'_>,
        parameters: Seq<ParameterView>,
        prior: Seq<DraftView>,
        finding_budget: nat,
        evidence_budget: nat,
    ) -> bool {
        !beacon_params_valid(parameters) || steps_fail_internally(
            beacon_outcomes(input.flows_view(), beacon_settings(parameters)),
            prior,
            finding_budget,
            evidence_budget,
        )
    }

    fn validate_parameters(&self, parameters: &DetectorParameters) -> (r: Result<(), DetectorConfigError>)
        ensures
            r is Ok <==> beacon_params_valid(parameters@),
            r matches Err(e) ==> beacon_first_rejection(parameters@, e),
    {
        match Self::parse_and_validate_parameters(parameters) {
            Ok(_) => Ok(()),
            Err(e) => Err(e),
        }
    }

    open spec fn spec_drafts(&self, input: DetectionInput<'_>, parameters: Seq<ParameterView>) -> Seq<DraftView> {
        collect_outcomes(beacon_outcomes(input.flows_view(), beacon_settings(parameters)))->0
    }

    open spec fn spec_succeeds(
        &self,
        input: DetectionInput<'_>,
        parameters: Seq<ParameterView>,
        prior: Seq<DraftView>,
        finding_budget: nat,
        evidence_budget: nat,
    ) -> bool {
        beacon_run_succeeds(parameters, input.flows_view(), prior, finding_budget, evidence_budget)
    }

    fn evaluate(
        &self,
        input: &DetectionInput<'_>,
        parameters: &DetectorParameters,
        output: &mut DetectorDraftSink,
    ) -> (r: Result<(), DetectorExecutionError>)
        ensures
            r is Ok <==> beacon_run_succeeds(
                parameters@,
                input.flows_view(),
                draft_views(old(output).drafts_view()),
                old(output).finding_budget(),
                old(output).evidence_budget(),
            ),
            r is Ok ==> draft_views(final(output).drafts_view()) == draft_views(old(output).drafts_view())
                + collect_outcomes(beacon_outcomes(input.flows_view(), beacon_settings(parameters@)))->0,
            !beacon_params_valid(parameters@) ==> (r matches Err(DetectorExecutionError::InternalError(_))
                && final(output).drafts_view() == old(output).drafts_view()),
            beacon_params_valid(parameters@) ==> (r matches Err(e) ==> (e is InternalError <==> steps_fail_internally(
                beacon_outcomes(input.flows_view(), beacon_settings(parameters@)),
                draft_views(old(output).drafts_view()),
                old(output).finding_budget(),
                old(output).evidence_budget(),
            ))),
    {
        let settings = match Self::parse_and_validate_parameters(parameters) {
            Ok(s) => s,
            Err(_) => {
                return Err(DetectorExecutionError::internal_error("unexpected parameter validation failure"));
            },
        };
        let (min_samples, max_jitter, max_spread, min_mean_interval) = settings;
        let ghost s = beacon_settings(parameters@);
        let flows = input.flows();
        let n = flows.len();
        let ghost outcomes = beacon_outcomes(flows@, s);
        let ghost base = draft_views(output.drafts_view());
        let ghost fb = output.finding_budget();
        let ghost eb = output.evidence_budget();
        assert(outcomes.take(0) =~= Seq::<StepOutcome>::empty());
        output.within_budget();
        proof {
            assert(base + Seq::<DraftView>::empty() =~= base);
            assert(Seq::<DraftView>::empty() + base =~= base);
            crate::views::lemma_view_evidence_total_append(base, Seq::<DraftView>::empty());
        }
        let mut i: usize = 0;
        while i < n
            invariant
                n == flows@.len(),
                i <= n,
                s == (min_samples as nat, max_jitter@, max_spread@, min_mean_interval@),
                flows@ == input.flows_view(),
                outcomes == beacon_outcomes(flows@, s),
                s == beacon_settings(parameters@),
                base == draft_views(old(output).drafts_view()),
                fb == old(output).finding_budget(),
                eb == old(output).evidence_budget(),
                beacon_params_valid(parameters@),
                output.finding_budget() == fb,
                output.evidence_budget() == eb,
                collect_outcomes(outcomes.take(i as int)) is Some,
                draft_views(output.drafts_view()) == base + collect_outcomes(outcomes.take(i as int))->0,
                budget_fits(base, fb, eb, collect_outcomes(outcomes.take(i as int))->0),
            decreases n - i,
        {
            let flow = &flows[i];
            let ghost before = collect_outcomes(outcomes.take(i as int))->0;
            proof {
                assert(outcomes.take(i + 1).drop_last() =~= outcomes.take(i as int));
                assert(outcomes.take(i + 1).last() == outcomes[i as int]);
                assert(outcomes[i as int] == beacon_flow_outcome(*flow, s));
            }
            let eligible = Self::flow_eligible(flow);
            if !eligible {
                i = i + 1;
                continue;
            }
            let a = match Self::evaluate_direction(
                flow,
                FlowDirection::AToB,
                &flow.temporal.a_to_b_inter_arrival,
                min_samples,
                max_jitter,
                max_spread,
                min_mean_interval,
            ) {
                Ok(x) => x,
                Err(e) => {
                    proof {
                        if collect_outcomes(outcomes) is Some {
                            lemma_collect_prefix(outcomes, i + 1);
                        }
                        assert(outcomes[i as int] is None);
                        assert(steps_fail_internally(outcomes, base, fb, eb));
                    }
                    return Err(e);
                },
            };
            let b = match Self::evaluate_direction(
                flow,
                FlowDirection::BToA,
                &flow.temporal.b_to_a_inter_arrival,
                min_samples,
                max_jitter,
                max_spread,
                min_mean_interval,
            ) {
                Ok(x) => x,
                Err(e) => {
                    proof {
                        if collect_outcomes(outcomes) is Some {
                            lemma_collect_prefix(outcomes, i + 1);
                        }
                        assert(outcomes[i as int] is None);
                        assert(steps_fail_internally(outcomes, base, fb, eb));
                    }
                    return Err(e);
                },
            };
            if a.is_none() && b.is_none() {
                i = i + 1;
                continue;
            }
            let draft = Self::flow_draft(flow.reference, a, b);
            match output.push_step(draft, Ghost(base), Ghost(outcomes), Ghost(i as int)) {
                Ok(()) => {},
                Err(e) => {
                    proof {
                        if collect_outcomes(outcomes) is Some {
                            lemma_collect_prefix(outcomes, i + 1);
                            crate::views::lemma_view_evidence_total_append(base, collect_outcomes(outcomes.take(i + 1))->0);
                        }
                        lemma_overflow_not_internal(outcomes, base, fb, eb, i as int);
                    }
                    return Err(e);
                },
            }
            i = i + 1;
        }
        proof {
            assert(outcomes.take(n as int) =~= outcomes);
        }
        Ok(())
    }
}

} // verus!

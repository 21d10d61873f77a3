use pcapraven::analysis::{detection_input_limitations, AnalysisError};
use pcapraven::builtin::{build_builtin_registries, BuiltinDetector};
use pcapraven::config::{DetectorConfig, DetectorConfigurations};
use pcapraven::connection_behavior::RepeatedLowVolumeFlowDetector;
use pcapraven::correlation::{CorrelationDraftSink, CorrelationRegistry, FindingCorrelator};
use pcapraven::detector::Detector;
use pcapraven::dns_anomaly::{DnsLongQueryNameDetector, DnsPossibleTunnelingDetector};
use pcapraven::domain::{
    Confidence, DetectorId, DetectorVersion, EvidenceReference, FindingRecord, FindingReference,
    FindingSubject, FlowReference, MitreAttackId, ObservationReference, PacketReference,
    ProtocolKind, Severity,
};
use pcapraven::engine::{
    execute_detection, execute_detection_with_correlators, CorrelatorExecutionStatus,
    DetectorExecutionStatus,
};
use pcapraven::error::{DetectionEngineError, DetectionInputError, DetectorConfigError, DetectorRegistryError};
use pcapraven::filtering::{filter_findings_and_evidence, FindingFilter};
use pcapraven::flow::{
    DnsMessageKind, DnsName, DnsObservation, DnsQuestion, FlowDirection, FlowEndReason,
    FlowEndpoint, FlowInterArrivalMetrics, FlowKey, FlowRecord, FlowTemporalMetrics,
    FlowTemporalUnavailableReason, FlowTemporalValue, FlowTimestampCoverage,
    FlowTrafficCounters, FlowTrafficStatistics, IpAddress, ObservationCompleteness,
    ObservationFlowAssociation, ProtocolObservation, ProtocolObservationData, TransportProtocol,
};
use pcapraven::input::{DetectionInput, DetectionInputCompleteness, DetectionInputLimitation};
use pcapraven::limits::DetectionLimits;
use pcapraven::multi_signal::PossibleC2MultiSignalCorrelator;
use pcapraven::periodic_beaconing::PeriodicBeaconingDetector;
use pcapraven::ratio::FlowDuration;
use pcapraven::registry::DetectorRegistry;

fn unavailable_metrics() -> FlowInterArrivalMetrics {
    let u = FlowTemporalValue::Unavailable(FlowTemporalUnavailableReason::InsufficientSamples);
    FlowInterArrivalMetrics {
        interval_sample_count: 0,
        successive_delta_sample_count: 0,
        discontinuity_count: 0,
        mean_interval: u,
        minimum_interval: u,
        maximum_interval: u,
        mean_absolute_successive_interval_delta: u,
    }
}

fn periodic_metrics(samples: u64, secs: u64) -> FlowInterArrivalMetrics {
    let d = FlowTemporalValue::Available(FlowDuration::from_secs(secs));
    FlowInterArrivalMetrics {
        interval_sample_count: samples,
        successive_delta_sample_count: samples - 1,
        discontinuity_count: 0,
        mean_interval: d,
        minimum_interval: d,
        maximum_interval: d,
        mean_absolute_successive_interval_delta: FlowTemporalValue::Available(FlowDuration::zero()),
    }
}

fn flow(ordinal: u64, a_to_b: FlowInterArrivalMetrics) -> FlowRecord {
    let counters = FlowTrafficCounters {
        packet_count: 100,
        captured_bytes: 100_000,
        wire_bytes: 100_000,
        truncated_packet_count: 0,
    };
    FlowRecord {
        reference: FlowReference { ordinal },
        key: FlowKey {
            protocol: TransportProtocol::Udp,
            endpoint_a: FlowEndpoint { address: IpAddress::Ipv4(0x0a00_0001), port: 40000 + ordinal as u16 },
            endpoint_b: FlowEndpoint { address: IpAddress::Ipv4(0x0808_0808), port: 53 },
        },
        first_packet: PacketReference { capture_record_ordinal: ordinal * 1000 },
        last_packet: PacketReference { capture_record_ordinal: ordinal * 1000 + 999 },
        traffic: FlowTrafficStatistics {
            total: counters,
            a_to_b: counters,
            b_to_a: FlowTrafficCounters::default(),
            same_endpoint: FlowTrafficCounters::default(),
        },
        temporal: FlowTemporalMetrics {
            duration: FlowTemporalValue::Available(FlowDuration::from_secs(1000)),
            coverage: FlowTimestampCoverage::default(),
            a_to_b_inter_arrival: a_to_b,
            b_to_a_inter_arrival: unavailable_metrics(),
        },
        end_reason: FlowEndReason::EndOfInput,
    }
}

fn diverse_label(offset: u8) -> Vec<u8> {
    let alphabet = b"abcdefghijklmnopqrstuvwxyz0123456789";
    (0..60u8).map(|i| alphabet[((i as usize) + offset as usize) % alphabet.len()]).collect()
}

fn tunnel_query(packet: u64, flow_ordinal: u64) -> ProtocolObservation {
    let name = DnsName::try_new(vec![diverse_label(0), diverse_label(7), b"example".to_vec()]).unwrap();
    ProtocolObservation {
        reference: ObservationReference { packet_ordinal: packet, protocol: ProtocolKind::Dns, sub_index: 0 },
        flow_association: ObservationFlowAssociation::Associated {
            flow: FlowReference { ordinal: flow_ordinal },
            direction: FlowDirection::AToB,
        },
        completeness: ObservationCompleteness::Complete,
        data: ProtocolObservationData::Dns(DnsObservation {
            message_kind: DnsMessageKind::Query,
            qr: false,
            questions: vec![DnsQuestion { name, qtype: 16, qclass: 1 }],
        }),
    }
}

fn detector_index(outcome_ids: &[String], id: &str) -> usize {
    outcome_ids.iter().position(|x| x == id).unwrap()
}

#[test]
fn empty_input_runs_every_builtin_detector_and_correlator() {
    let (detectors, correlators) = build_builtin_registries().unwrap();
    let input = DetectionInput::try_new(&[], &[], DetectionInputCompleteness::Complete, &[]).unwrap();
    let outcome = execute_detection_with_correlators(
        &detectors,
        &correlators,
        &input,
        &DetectorConfigurations::new(),
        &DetectionLimits::default_limits(),
    )
    .unwrap();
    assert_eq!(outcome.completion, DetectionInputCompleteness::Complete);
    assert_eq!(outcome.detector_executions.len(), 4);
    let ids: Vec<String> = outcome.detector_executions.iter().map(|r| r.detector_id.as_str().to_string()).collect();
    assert_eq!(
        ids,
        vec![
            "behavior.periodic_beaconing",
            "behavior.repeated_low_volume_flows",
            "dns.long_query_name",
            "dns.possible_tunneling"
        ]
    );
    for r in &outcome.detector_executions {
        assert_eq!(r.status, DetectorExecutionStatus::Executed);
    }
    assert_eq!(outcome.correlator_executions.len(), 1);
    assert_eq!(outcome.correlator_executions[0].status, CorrelatorExecutionStatus::Executed);
    assert!(outcome.findings.is_empty());
    assert!(outcome.evidence.is_empty());
    assert!(outcome.diagnostics.is_empty());
}

#[test]
fn periodic_flow_yields_one_beaconing_finding() {
    let flows = vec![flow(0, periodic_metrics(10, 10))];
    let input = DetectionInput::try_new(&flows, &[], DetectionInputCompleteness::Complete, &[]).unwrap();
    let mut registry: DetectorRegistry<PeriodicBeaconingDetector> = DetectorRegistry::with_default_capacity();
    registry.register(PeriodicBeaconingDetector::new()).unwrap();
    let outcome =
        execute_detection(&registry, &input, &DetectorConfigurations::new(), &DetectionLimits::default_limits())
            .unwrap();
    assert_eq!(outcome.findings.len(), 1);
    assert_eq!(outcome.evidence.len(), 1);
    let f = &outcome.findings[0];
    assert_eq!(f.reference.id, 0);
    assert_eq!(f.detector_id.as_str(), "behavior.periodic_beaconing");
    assert_eq!(f.title, "Possible periodic beaconing behavior");
    assert_eq!(f.severity, Severity::Low);
    assert_eq!(f.subject.flow_references, vec![FlowReference { ordinal: 0 }]);
    assert_eq!(f.evidence_references, vec![EvidenceReference { id: 0 }]);
    assert_eq!(outcome.evidence[0].reference.id, 0);
    assert_eq!(outcome.evidence[0].evidence.description, "A-to-B periodic inter-arrival timing metrics");
}

#[test]
fn irregular_flow_yields_nothing() {
    let mut m = periodic_metrics(10, 10);
    m.maximum_interval = FlowTemporalValue::Available(FlowDuration::from_secs(30));
    let flows = vec![flow(0, m)];
    let input = DetectionInput::try_new(&flows, &[], DetectionInputCompleteness::Complete, &[]).unwrap();
    let mut registry: DetectorRegistry<PeriodicBeaconingDetector> = DetectorRegistry::with_default_capacity();
    registry.register(PeriodicBeaconingDetector::new()).unwrap();
    let outcome =
        execute_detection(&registry, &input, &DetectorConfigurations::new(), &DetectionLimits::default_limits())
            .unwrap();
    assert!(outcome.findings.is_empty());
    assert_eq!(outcome.detector_executions[0].status, DetectorExecutionStatus::Executed);
}

fn c2_scenario() -> (Vec<FlowRecord>, Vec<ProtocolObservation>) {
    let flows = vec![flow(0, periodic_metrics(10, 10)), flow(1, unavailable_metrics())];
    let observations: Vec<ProtocolObservation> = (0..8u64).map(|k| tunnel_query(10 + k, 0)).collect();
    (flows, observations)
}

#[test]
fn beaconing_and_tunneling_on_one_flow_are_correlated() {
    let (flows, observations) = c2_scenario();
    let input = DetectionInput::try_new(&flows, &observations, DetectionInputCompleteness::Complete, &[]).unwrap();
    let (detectors, correlators) = build_builtin_registries().unwrap();
    let outcome = execute_detection_with_correlators(
        &detectors,
        &correlators,
        &input,
        &DetectorConfigurations::new(),
        &DetectionLimits::default_limits(),
    )
    .unwrap();
    assert_eq!(outcome.completion, DetectionInputCompleteness::Complete);
    assert_eq!(outcome.correlator_executions[0].status, CorrelatorExecutionStatus::Executed);
    let correlated: Vec<&FindingRecord> = outcome
        .findings
        .iter()
        .filter(|f| f.detector_id.as_str() == "behavior.possible_c2_multi_signal")
        .collect();
    assert_eq!(correlated.len(), 1);
    let c = correlated[0];
    assert_eq!(c.reference.id as usize, outcome.findings.len() - 1);
    assert_eq!(c.title, "Possible multi-signal C2-like behavior");
    assert_eq!(c.severity, Severity::Medium);
    assert_eq!(c.confidence, Confidence::Medium);
    assert_eq!(c.subject.flow_references, vec![FlowReference { ordinal: 0 }]);
    assert_eq!(c.source_finding_references.len(), 2);
    let beacon = outcome.findings.iter().find(|f| f.detector_id.as_str() == "behavior.periodic_beaconing").unwrap();
    let tunnel = outcome.findings.iter().find(|f| f.detector_id.as_str() == "dns.possible_tunneling").unwrap();
    let mut expected_sources = vec![beacon.reference, tunnel.reference];
    expected_sources.sort_by_key(|r| r.id);
    assert_eq!(c.source_finding_references, expected_sources);
    let mut expected_evidence = beacon.evidence_references.clone();
    expected_evidence.extend(tunnel.evidence_references.iter().copied());
    expected_evidence.sort_by_key(|e| e.id);
    expected_evidence.dedup();
    assert_eq!(c.evidence_references, expected_evidence);
    assert_eq!(c.mitre_mappings.len(), 1);
    assert_eq!(c.mitre_mappings[0].technique_id.as_str(), "T1071.004");
    // correlated findings reuse evidence records
    let max_evidence_id = c.evidence_references.iter().map(|e| e.id).max().unwrap();
    assert!((max_evidence_id as usize) < outcome.evidence.len());
}

#[test]
fn disabled_source_detector_skips_the_correlator() {
    let (flows, observations) = c2_scenario();
    let input = DetectionInput::try_new(&flows, &observations, DetectionInputCompleteness::Complete, &[]).unwrap();
    let (detectors, correlators) = build_builtin_registries().unwrap();
    let mut configs = DetectorConfigurations::new();
    configs.insert(DetectorId::try_new("dns.possible_tunneling").unwrap(), DetectorConfig::disabled());
    let outcome = execute_detection_with_correlators(
        &detectors,
        &correlators,
        &input,
        &configs,
        &DetectionLimits::default_limits(),
    )
    .unwrap();
    let ids: Vec<String> = outcome.detector_executions.iter().map(|r| r.detector_id.as_str().to_string()).collect();
    let k = detector_index(&ids, "dns.possible_tunneling");
    assert_eq!(outcome.detector_executions[k].status, DetectorExecutionStatus::Disabled);
    assert_eq!(outcome.correlator_executions[0].status, CorrelatorExecutionStatus::SkippedUnavailableSources);
    assert!(outcome.findings.iter().all(|f| f.source_finding_references.is_empty()));
}

#[test]
fn configuration_for_an_unregistered_detector_is_rejected_before_running() {
    let (detectors, correlators) = build_builtin_registries().unwrap();
    let input = DetectionInput::try_new(&[], &[], DetectionInputCompleteness::Complete, &[]).unwrap();
    let mut configs = DetectorConfigurations::new();
    configs.insert(DetectorId::try_new("dns.unknown_detector").unwrap(), DetectorConfig::enabled());
    let r = execute_detection_with_correlators(
        &detectors,
        &correlators,
        &input,
        &configs,
        &DetectionLimits::default_limits(),
    );
    match r {
        Err(DetectionEngineError::Config(DetectorConfigError::UnregisteredDetector(id))) => {
            assert_eq!(id.as_str(), "dns.unknown_detector")
        }
        other => panic!("unexpected result: {other:?}"),
    }
}

#[test]
fn partial_input_skips_skip_policy_detectors_and_correlators() {
    let flows = vec![flow(0, periodic_metrics(10, 10))];
    let lims = [DetectionInputLimitation::CaptureTruncated];
    let input = DetectionInput::try_new(&flows, &[], DetectionInputCompleteness::Partial, &lims).unwrap();
    let (detectors, correlators) = build_builtin_registries().unwrap();
    let outcome = execute_detection_with_correlators(
        &detectors,
        &correlators,
        &input,
        &DetectorConfigurations::new(),
        &DetectionLimits::default_limits(),
    )
    .unwrap();
    assert_eq!(outcome.completion, DetectionInputCompleteness::Partial);
    for r in &outcome.detector_executions {
        assert_eq!(r.status, DetectorExecutionStatus::SkippedIncompleteData);
    }
    assert_eq!(outcome.correlator_executions[0].status, CorrelatorExecutionStatus::SkippedIncompleteData);
    assert!(outcome.findings.is_empty());
}

#[test]
fn output_over_budget_is_rejected_as_a_whole() {
    let flows = vec![flow(0, periodic_metrics(10, 10)), flow(1, periodic_metrics(10, 20))];
    let input = DetectionInput::try_new(&flows, &[], DetectionInputCompleteness::Complete, &[]).unwrap();
    let mut registry: DetectorRegistry<PeriodicBeaconingDetector> = DetectorRegistry::with_default_capacity();
    registry.register(PeriodicBeaconingDetector::new()).unwrap();
    let limits = DetectionLimits::try_new(64, 32, 1, 100, 10).unwrap();
    let outcome = execute_detection(&registry, &input, &DetectorConfigurations::new(), &limits).unwrap();
    assert_eq!(outcome.detector_executions[0].status, DetectorExecutionStatus::ResourceLimited);
    assert_eq!(outcome.completion, DetectionInputCompleteness::Partial);
    assert!(outcome.findings.is_empty());
    assert!(outcome.evidence.is_empty());
    assert_eq!(outcome.diagnostics.len(), 1);
    assert!(outcome.diagnostics[0]
        .starts_with("output budget exceeded, rejecting output from detector 'behavior.periodic_beaconing': "));
}

#[test]
fn too_many_registered_detectors_for_the_limits_is_an_error() {
    let (detectors, _) = build_builtin_registries().unwrap();
    let input = DetectionInput::try_new(&[], &[], DetectionInputCompleteness::Complete, &[]).unwrap();
    let limits = DetectionLimits::try_new(3, 32, 100, 100, 10).unwrap();
    match execute_detection(&detectors, &input, &DetectorConfigurations::new(), &limits) {
        Err(DetectionEngineError::ResourceLimit { resource, capacity }) => {
            assert_eq!(resource, "registered_detectors");
            assert_eq!(capacity, 3);
        }
        other => panic!("unexpected result: {other:?}"),
    }
}

#[test]
fn registration_order_does_not_change_canonical_order() {
    let mut a: DetectorRegistry<BuiltinDetector> = DetectorRegistry::with_default_capacity();
    a.register(BuiltinDetector::DnsLongQueryName(DnsLongQueryNameDetector::new())).unwrap();
    a.register(BuiltinDetector::PeriodicBeaconing(PeriodicBeaconingDetector::new())).unwrap();
    a.register(BuiltinDetector::DnsPossibleTunneling(DnsPossibleTunnelingDetector::new())).unwrap();
    let mut b: DetectorRegistry<BuiltinDetector> = DetectorRegistry::with_default_capacity();
    b.register(BuiltinDetector::DnsPossibleTunneling(DnsPossibleTunnelingDetector::new())).unwrap();
    b.register(BuiltinDetector::DnsLongQueryName(DnsLongQueryNameDetector::new())).unwrap();
    b.register(BuiltinDetector::PeriodicBeaconing(PeriodicBeaconingDetector::new())).unwrap();
    let ia: Vec<&str> = a.iter().iter().map(|d| d.metadata().id().as_str()).collect();
    let ib: Vec<&str> = b.iter().iter().map(|d| d.metadata().id().as_str()).collect();
    assert_eq!(ia, ib);
    assert_eq!(ia, vec!["behavior.periodic_beaconing", "dns.long_query_name", "dns.possible_tunneling"]);
}

#[test]
fn duplicate_registration_is_rejected() {
    let mut a: DetectorRegistry<RepeatedLowVolumeFlowDetector> = DetectorRegistry::with_default_capacity();
    assert!(a.register(RepeatedLowVolumeFlowDetector::new()).is_ok());
    assert!(a.register(RepeatedLowVolumeFlowDetector::new()).is_err());
    assert_eq!(a.len(), 1);
}

#[test]
fn detection_input_rejects_unordered_flows() {
    let flows = vec![flow(2, unavailable_metrics()), flow(1, unavailable_metrics())];
    match DetectionInput::try_new(&flows, &[], DetectionInputCompleteness::Complete, &[]) {
        Err(DetectionInputError::OutOfOrderFlow { previous, attempted }) => {
            assert_eq!(previous, 2);
            assert_eq!(attempted, 1);
        }
        _ => panic!("expected an ordering error"),
    }
    let dup = vec![flow(1, unavailable_metrics()), flow(1, unavailable_metrics())];
    assert!(matches!(
        DetectionInput::try_new(&dup, &[], DetectionInputCompleteness::Complete, &[]),
        Err(DetectionInputError::DuplicateFlow(_))
    ));
    assert!(matches!(
        DetectionInput::try_new(&[], &[], DetectionInputCompleteness::Partial, &[]),
        Err(DetectionInputError::PartialInputWithoutLimitations)
    ));
    let lims = [DetectionInputLimitation::FlowBudgetReached];
    assert!(matches!(
        DetectionInput::try_new(&[], &[], DetectionInputCompleteness::Complete, &lims),
        Err(DetectionInputError::CompleteInputWithLimitations)
    ));
}

#[test]
fn input_limitations_follow_recording_order() {
    let (c, v) = detection_input_limitations(false, false, false, false);
    assert_eq!(c, DetectionInputCompleteness::Complete);
    assert!(v.is_empty());
    let (c, v) = detection_input_limitations(true, true, false, true);
    assert_eq!(c, DetectionInputCompleteness::Partial);
    assert_eq!(
        v,
        vec![
            DetectionInputLimitation::CaptureTruncated,
            DetectionInputLimitation::PacketCountBudgetReached,
            DetectionInputLimitation::FlowBudgetReached
        ]
    );
    let (_, v) = detection_input_limitations(false, false, true, true);
    assert_eq!(
        v,
        vec![DetectionInputLimitation::ObservationBudgetReached, DetectionInputLimitation::FlowBudgetReached]
    );
}

#[test]
fn analysis_error_exposes_its_message() {
    assert_eq!(AnalysisError::Config("bad".to_string()).message(), "bad");
    assert_eq!(AnalysisError::Fatal("worse".to_string()).message(), "worse");
}

fn record(id: u64, detector: &str, severity: Severity, flows: Vec<u64>, evidence: Vec<u64>) -> FindingRecord {
    FindingRecord {
        reference: FindingReference { id },
        detector_id: DetectorId::try_new(detector).unwrap(),
        detector_version: DetectorVersion::new(1, 0, 0),
        subject: FindingSubject {
            packet_references: vec![],
            flow_references: flows.into_iter().map(|o| FlowReference { ordinal: o }).collect(),
            observation_references: vec![],
        },
        title: "t".to_string(),
        summary: "s".to_string(),
        rationale: "r".to_string(),
        severity,
        confidence: Confidence::Medium,
        evidence_references: evidence.into_iter().map(|e| EvidenceReference { id: e }).collect(),
        source_finding_references: vec![],
        mitre_mappings: vec![],
    }
}

#[test]
fn correlator_pairs_last_signals_per_flow_in_flow_order() {
    let primary = vec![
        record(0, "behavior.periodic_beaconing", Severity::Low, vec![5], vec![0]),
        record(1, "dns.possible_tunneling", Severity::Low, vec![5], vec![1, 2]),
        record(2, "behavior.periodic_beaconing", Severity::Low, vec![3], vec![3]),
        record(3, "dns.possible_tunneling", Severity::Low, vec![3], vec![3, 4]),
        record(4, "behavior.periodic_beaconing", Severity::Low, vec![5], vec![5]),
        record(5, "dns.possible_tunneling", Severity::Low, vec![9], vec![6]),
        record(6, "behavior.periodic_beaconing", Severity::Low, vec![7, 8], vec![7]),
    ];
    let c = PossibleC2MultiSignalCorrelator::new();
    let mut sink = CorrelationDraftSink::new(10);
    assert!(c.correlate(&primary, &[], &mut sink).is_ok());
    let drafts = sink.into_drafts();
    assert_eq!(drafts.len(), 2);
    assert_eq!(drafts[0].subject().flow_references, vec![FlowReference { ordinal: 3 }]);
    assert_eq!(drafts[0].source_finding_references(), &[FindingReference { id: 2 }, FindingReference { id: 3 }]);
    assert_eq!(drafts[0].evidence_references(), &[EvidenceReference { id: 3 }, EvidenceReference { id: 4 }]);
    assert_eq!(drafts[1].subject().flow_references, vec![FlowReference { ordinal: 5 }]);
    // the last beaconing finding on flow 5 is finding 4
    assert_eq!(drafts[1].source_finding_references(), &[FindingReference { id: 1 }, FindingReference { id: 4 }]);
    assert_eq!(
        drafts[1].evidence_references(),
        &[EvidenceReference { id: 1 }, EvidenceReference { id: 2 }, EvidenceReference { id: 5 }]
    );
}

#[test]
fn correlator_output_over_capacity_fails() {
    let primary = vec![
        record(0, "behavior.periodic_beaconing", Severity::Low, vec![1], vec![0]),
        record(1, "dns.possible_tunneling", Severity::Low, vec![1], vec![1]),
    ];
    let c = PossibleC2MultiSignalCorrelator::new();
    let mut sink = CorrelationDraftSink::new(0);
    assert!(c.correlate(&primary, &[], &mut sink).is_err());
}

#[test]
fn correlator_requires_both_detectors() {
    let c = PossibleC2MultiSignalCorrelator::new();
    let req: Vec<&str> = c.metadata().required_primary_detector_ids().iter().map(|d| d.as_str()).collect();
    assert_eq!(req, vec!["behavior.periodic_beaconing", "dns.possible_tunneling"]);
    assert_eq!(c.metadata().id().as_str(), "behavior.possible_c2_multi_signal");
    let mut registry: CorrelationRegistry<PossibleC2MultiSignalCorrelator> = CorrelationRegistry::empty();
    assert!(registry.register(PossibleC2MultiSignalCorrelator::new()).is_ok());
    assert!(registry.register(PossibleC2MultiSignalCorrelator::new()).is_err());
}

#[test]
fn filter_keeps_matching_findings_and_their_evidence_in_order() {
    let findings = vec![
        record(0, "behavior.periodic_beaconing", Severity::Low, vec![1], vec![0]),
        record(1, "dns.possible_tunneling", Severity::High, vec![2], vec![1, 2]),
        record(2, "dns.long_query_name", Severity::Medium, vec![3], vec![3]),
    ];
    let all = FindingFilter::new().filter_findings(&findings);
    assert_eq!(all.len(), 3);
    let f = FindingFilter::new().with_min_severity(Some(Severity::Medium));
    let kept: Vec<u64> = f.filter_findings(&findings).iter().map(|x| x.reference.id).collect();
    assert_eq!(kept, vec![1, 2]);
    let id = DetectorId::try_new("dns.long_query_name").unwrap();
    let f = FindingFilter::new().with_detector_id(Some(id));
    let kept: Vec<u64> = f.filter_findings(&findings).iter().map(|x| x.reference.id).collect();
    assert_eq!(kept, vec![2]);
    let mitre = MitreAttackId::try_new("T1071.004").unwrap();
    let f = FindingFilter::new().with_mitre_attack_id(Some(mitre));
    assert!(f.filter_findings(&findings).is_empty());
    assert_eq!(f.mitre_attack_id().unwrap().as_str(), "T1071.004");
    assert_eq!(f.min_severity(), None);
}

#[test]
fn filtering_findings_keeps_only_their_evidence() {
    let (flows, observations) = c2_scenario();
    let input = DetectionInput::try_new(&flows, &observations, DetectionInputCompleteness::Complete, &[]).unwrap();
    let (detectors, correlators) = build_builtin_registries().unwrap();
    let outcome = execute_detection_with_correlators(
        &detectors,
        &correlators,
        &input,
        &DetectorConfigurations::new(),
        &DetectionLimits::default_limits(),
    )
    .unwrap();
    let beacon_id = DetectorId::try_new("behavior.periodic_beaconing").unwrap();
    let (kept, evidence) =
        filter_findings_and_evidence(&outcome.findings, &outcome.evidence, None, None, Some(&beacon_id), None);
    assert_eq!(kept.len(), 1);
    assert_eq!(evidence.len(), kept[0].evidence_references.len());
    assert_eq!(evidence[0].reference, kept[0].evidence_references[0]);
    let (kept, evidence) =
        filter_findings_and_evidence(&outcome.findings, &outcome.evidence, Some(Severity::Critical), None, None, None);
    assert!(kept.is_empty());
    assert!(evidence.is_empty());
}

#[test]
fn stricter_filter_after_looser_equals_stricter_alone() {
    let findings = vec![
        record(0, "behavior.periodic_beaconing", Severity::Low, vec![1], vec![0]),
        record(1, "dns.possible_tunneling", Severity::High, vec![2], vec![1, 2]),
        record(2, "dns.long_query_name", Severity::Medium, vec![3], vec![3]),
        record(3, "dns.possible_tunneling", Severity::Critical, vec![4], vec![4]),
    ];
    let loose = FindingFilter::new().with_min_severity(Some(Severity::Medium));
    let strict = FindingFilter::new()
        .with_min_severity(Some(Severity::High))
        .with_detector_id(Some(DetectorId::try_new("dns.possible_tunneling").unwrap()));
    let once: Vec<u64> = strict.filter_findings(&findings).iter().map(|x| x.reference.id).collect();
    let looser: Vec<FindingRecord> = loose.filter_findings(&findings).into_iter().cloned().collect();
    let twice: Vec<u64> = strict.filter_findings(&looser).iter().map(|x| x.reference.id).collect();
    assert_eq!(once, vec![1, 3]);
    assert_eq!(twice, once);
}

#[test]
fn correlated_run_never_repeats_a_finding_identity() {
    let (flows, observations) = c2_scenario();
    let input = DetectionInput::try_new(&flows, &observations, DetectionInputCompleteness::Complete, &[]).unwrap();
    let (detectors, correlators) = build_builtin_registries().unwrap();
    let outcome = execute_detection_with_correlators(
        &detectors,
        &correlators,
        &input,
        &DetectorConfigurations::new(),
        &DetectionLimits::default_limits(),
    )
    .unwrap();
    let fs = &outcome.findings;
    assert!(!fs.is_empty());
    for a in 0..fs.len() {
        for b in (a + 1)..fs.len() {
            if fs[a].detector_id == fs[b].detector_id {
                assert_ne!(fs[a].subject, fs[b].subject);
            }
        }
    }
}

#[test]
fn repeated_detection_runs_give_the_same_outcome() {
    let (flows, observations) = c2_scenario();
    let input = DetectionInput::try_new(&flows, &observations, DetectionInputCompleteness::Complete, &[]).unwrap();
    let (first_detectors, _) = build_builtin_registries().unwrap();
    let (second_detectors, _) = build_builtin_registries().unwrap();
    let limits = DetectionLimits::default_limits();
    let first = execute_detection(&first_detectors, &input, &DetectorConfigurations::new(), &limits).unwrap();
    let second = execute_detection(&second_detectors, &input, &DetectorConfigurations::new(), &limits).unwrap();
    assert!(!first.findings.is_empty());
    assert_eq!(first, second);

    let (detectors, correlators) = build_builtin_registries().unwrap();
    let a = execute_detection_with_correlators(&detectors, &correlators, &input, &DetectorConfigurations::new(), &limits)
        .unwrap();
    let b = execute_detection_with_correlators(&detectors, &correlators, &input, &DetectorConfigurations::new(), &limits)
        .unwrap();
    assert_eq!(a, b);
}

#[test]
fn metadata_exposes_titles_purposes_and_descriptions() {
    let beacon = PeriodicBeaconingDetector::new();
    assert_eq!(beacon.metadata().title(), "Possible periodic beaconing behavior");
    assert!(beacon.metadata().purpose().starts_with("Identify reconstructed flow instances"));
    let c2 = PossibleC2MultiSignalCorrelator::new();
    assert_eq!(
        c2.metadata().description(),
        "Correlates periodic beaconing and DNS tunneling signals on the same flow"
    );
    assert_eq!(FlowEndReason::EndOfInput.as_str(), "EndOfInput");
    assert_eq!(FlowEndReason::TcpReset.as_str(), "TcpReset");
    assert_eq!(FlowEndReason::TcpClose.as_str(), "TcpClose");
    assert_eq!(FlowEndReason::IdleTimeout.as_str(), "IdleTimeout");
    assert_eq!(FlowEndReason::AnalysisStopped.as_str(), "AnalysisStopped");
}

#[test]
fn correlated_run_begins_with_the_primary_run() {
    let (flows, observations) = c2_scenario();
    let input = DetectionInput::try_new(&flows, &observations, DetectionInputCompleteness::Complete, &[]).unwrap();
    let limits = DetectionLimits::default_limits();
    let (detectors, correlators) = build_builtin_registries().unwrap();
    let primary = execute_detection(&detectors, &input, &DetectorConfigurations::new(), &limits).unwrap();
    let correlated =
        execute_detection_with_correlators(&detectors, &correlators, &input, &DetectorConfigurations::new(), &limits)
            .unwrap();
    let p = primary.findings.len();
    assert!(p > 0);
    assert_eq!(correlated.findings.len(), p + 1);
    assert_eq!(&correlated.findings[..p], &primary.findings[..]);
    assert_eq!(correlated.evidence, primary.evidence);
    assert_eq!(correlated.detector_executions, primary.detector_executions);
}

#[test]
fn detection_input_reports_the_first_unordered_pair() {
    let flows = vec![flow(1, unavailable_metrics()), flow(5, unavailable_metrics()), flow(3, unavailable_metrics()), flow(3, unavailable_metrics())];
    assert_eq!(
        DetectionInput::try_new(&flows, &[], DetectionInputCompleteness::Complete, &[]).err(),
        Some(DetectionInputError::OutOfOrderFlow { previous: 5, attempted: 3 })
    );
}

#[test]
fn a_disabled_source_leaves_no_diagnostics() {
    let (detectors, correlators) = build_builtin_registries().unwrap();
    let input = DetectionInput::try_new(&[], &[], DetectionInputCompleteness::Complete, &[]).unwrap();
    let mut cfg = DetectorConfigurations::new();
    cfg.insert(DetectorId::try_new("dns.possible_tunneling").unwrap(), DetectorConfig::disabled());
    let o = execute_detection_with_correlators(&detectors, &correlators, &input, &cfg, &DetectionLimits::default_limits())
        .unwrap();
    assert_eq!(o.completion, DetectionInputCompleteness::Complete);
    assert_eq!(o.correlator_executions[0].status, CorrelatorExecutionStatus::SkippedUnavailableSources);
    assert!(o.findings.is_empty());
    assert!(o.evidence.is_empty());
    assert!(o.diagnostics.is_empty());
}

#[test]
fn the_first_missing_requirement_is_reported() {
    let detectors: DetectorRegistry<PeriodicBeaconingDetector> = DetectorRegistry::with_default_capacity();
    let mut correlators: CorrelationRegistry<PossibleC2MultiSignalCorrelator> = CorrelationRegistry::empty();
    correlators.register(PossibleC2MultiSignalCorrelator::new()).unwrap();
    let input = DetectionInput::try_new(&[], &[], DetectionInputCompleteness::Complete, &[]).unwrap();
    match execute_detection_with_correlators(
        &detectors,
        &correlators,
        &input,
        &DetectorConfigurations::new(),
        &DetectionLimits::default_limits(),
    ) {
        Err(DetectionEngineError::Registry(DetectorRegistryError::MissingRequiredPrimaryDetector {
            correlator_id,
            required_detector_id,
        })) => {
            assert_eq!(correlator_id.as_str(), "behavior.possible_c2_multi_signal");
            assert_eq!(required_detector_id.as_str(), "behavior.periodic_beaconing");
        }
        _ => panic!("expected a missing required detector"),
    }
}

use pcapraven::analysis::{
    association_failure, conclude_analysis, count_record, emit_analysis_diagnostic, handle_observation_push,
    observation_construction_failure, observation_index, report_flow_error, report_stage_diagnostics,
    report_stream_error, ObservationPushOutcome, outcome_is_physically_truncated, outcome_reached_record_budget,
    report_reader_outcome, sort_flows_by_ordinal, terminal_reader_error, AnalysisError,
};
use pcapraven::capture::{
    CaptureCompletion, CaptureDiagnostic, CaptureDiagnosticKind, CaptureDiagnosticStage, CaptureFormat,
    CaptureLocation, CaptureMetadata, CaptureReadOutcome, CaptureReaderError, ReaderLimit,
};
use pcapraven::domain::{
    Confidence, DetectorId, FlowReference, ObservationReference, PacketReference, ProtocolKind, Severity,
};
use pcapraven::report::{analysis_summary, build_finding_filter_record, report_completion, validation_verdict};
use pcapraven::flow::{
    FlowEndReason, FlowEndpoint, FlowInterArrivalMetrics, FlowKey, FlowRecord, FlowTemporalMetrics,
    FlowTemporalUnavailableReason, FlowTemporalValue, FlowTimestampCoverage, FlowTrafficCounters,
    FlowTrafficStatistics, IpAddress, ObservationCompleteness, ObservationFlowAssociation, ProtocolObservation,
    ProtocolObservationData, TransportProtocol,
};
use pcapraven::input::{DetectionInputCompleteness, DetectionInputLimitation};
use pcapraven::presentation::{DiagnosticEmitter, LineBuffer, LineSink, SinkError};
use pcapraven::ratio::FlowDuration;

struct FailingWriter;

impl LineSink for FailingWriter {
    fn write_line(&mut self, _line: &str) -> Result<(), SinkError> {
        Err(SinkError)
    }
}

fn metrics() -> FlowInterArrivalMetrics {
    let u = FlowTemporalValue::Unavailable(FlowTemporalUnavailableReason::InsufficientSamples);
    FlowInterArrivalMetrics {
        interval_sample_count: 0,
        successive_delta_sample_count: 0,
        discontinuity_count: 0,
        mean_interval: u,
        minimum_interval: u,
        maximum_interval: u,
        mean_absolute_successive_interval_delta: u,
    }
}

fn flow(ordinal: u64, port: u16) -> FlowRecord {
    let counters = FlowTrafficCounters { packet_count: 2, captured_bytes: 120, wire_bytes: 120, truncated_packet_count: 0 };
    FlowRecord {
        reference: FlowReference { ordinal },
        key: FlowKey {
            protocol: TransportProtocol::Udp,
            endpoint_a: FlowEndpoint { address: IpAddress::Ipv4(0x0a00_0001), port },
            endpoint_b: FlowEndpoint { address: IpAddress::Ipv4(0x0a00_0002), port: 53 },
        },
        first_packet: PacketReference { capture_record_ordinal: ordinal },
        last_packet: PacketReference { capture_record_ordinal: ordinal + 1 },
        traffic: FlowTrafficStatistics {
            total: counters,
            a_to_b: counters,
            b_to_a: FlowTrafficCounters::default(),
            same_endpoint: FlowTrafficCounters::default(),
        },
        temporal: FlowTemporalMetrics {
            duration: FlowTemporalValue::Available(FlowDuration::from_secs(1)),
            coverage: FlowTimestampCoverage::default(),
            a_to_b_inter_arrival: metrics(),
            b_to_a_inter_arrival: metrics(),
        },
        end_reason: FlowEndReason::EndOfInput,
    }
}

fn diagnostic(kind: CaptureDiagnosticKind, offset: u64) -> CaptureDiagnostic {
    CaptureDiagnostic {
        kind,
        stage: CaptureDiagnosticStage::Packet,
        location: CaptureLocation {
            offset,
            section_ordinal: None,
            interface_ordinal: None,
            block_type: None,
            packet_ordinal: None,
        },
        message: "short record",
        recovered: true,
    }
}

fn outcome(completion: CaptureCompletion, diagnostics: Vec<CaptureDiagnostic>) -> CaptureReadOutcome {
    CaptureReadOutcome {
        metadata: CaptureMetadata { format: CaptureFormat::LegacyPcap, legacy: None, sections: Vec::new() },
        diagnostics,
        completion,
    }
}

fn reader_error(kind: CaptureDiagnosticKind, limit: Option<ReaderLimit>) -> CaptureReaderError {
    CaptureReaderError { kind, limit, message: "reader stopped".to_string() }
}

#[test]
fn truncation_comes_from_the_terminal_error_or_a_diagnostic() {
    let clean = outcome(CaptureCompletion::Complete, vec![diagnostic(CaptureDiagnosticKind::Malformed, 3)]);
    assert!(terminal_reader_error(&clean).is_none());
    assert!(!outcome_is_physically_truncated(&clean));
    let by_diag = outcome(CaptureCompletion::Complete, vec![diagnostic(CaptureDiagnosticKind::Incomplete, 3)]);
    assert!(outcome_is_physically_truncated(&by_diag));
    let by_error = outcome(
        CaptureCompletion::Partial { terminal_error: Some(reader_error(CaptureDiagnosticKind::Incomplete, None)) },
        vec![],
    );
    assert!(outcome_is_physically_truncated(&by_error));
    assert!(!outcome_reached_record_budget(&by_error));
}

#[test]
fn record_budget_needs_the_record_limit() {
    let at_budget = outcome(
        CaptureCompletion::Partial {
            terminal_error: Some(reader_error(CaptureDiagnosticKind::ResourceLimit, Some(ReaderLimit::MaximumRecords))),
        },
        vec![],
    );
    assert!(outcome_reached_record_budget(&at_budget));
    let other_limit = outcome(
        CaptureCompletion::Partial {
            terminal_error: Some(reader_error(CaptureDiagnosticKind::ResourceLimit, Some(ReaderLimit::Other))),
        },
        vec![],
    );
    assert!(!outcome_reached_record_budget(&other_limit));
}

#[test]
fn reader_diagnostics_are_reported_and_a_useless_capture_fails() {
    let failed = outcome(
        CaptureCompletion::FailedBeforeUsefulRecords { terminal_error: reader_error(CaptureDiagnosticKind::Malformed, None) },
        vec![diagnostic(CaptureDiagnosticKind::Malformed, 0), diagnostic(CaptureDiagnosticKind::Incomplete, 24)],
    );
    let mut emitter = DiagnosticEmitter::with_writer(LineBuffer::new(), false, 1);
    let r = report_reader_outcome(&failed, &mut emitter);
    assert_eq!(
        r,
        Err(AnalysisError::Fatal("capture analysis failed before useful records: reader stopped".to_string()))
    );
    assert_eq!(emitter.emitted_count(), 1);
    assert_eq!(emitter.suppressed_count(), 1);
    let buffer = emitter.into_writer();
    assert_eq!(buffer.line(0), "diagnostic: [Malformed] short record at byte 0");

    let partial = outcome(CaptureCompletion::Partial { terminal_error: None }, vec![diagnostic(CaptureDiagnosticKind::Io, 9)]);
    let mut emitter = DiagnosticEmitter::with_writer(LineBuffer::new(), true, 10);
    assert_eq!(report_reader_outcome(&partial, &mut emitter), Ok(()));
    assert!(emitter.into_writer().is_empty());
}

#[test]
fn capture_diagnostic_write_failure_is_fatal() {
    let partial = outcome(CaptureCompletion::Partial { terminal_error: None }, vec![diagnostic(CaptureDiagnosticKind::Io, 9)]);
    let mut emitter = DiagnosticEmitter::with_writer(FailingWriter, false, 10);
    assert_eq!(
        report_reader_outcome(&partial, &mut emitter),
        Err(AnalysisError::Fatal("failed to emit capture diagnostic to stderr".to_string()))
    );
    assert!(emitter.had_io_error());
}

#[test]
fn flows_are_ordered_by_ordinal_stably() {
    let sorted = sort_flows_by_ordinal(vec![flow(5, 1), flow(2, 2), flow(5, 3), flow(0, 4)]);
    let keys: Vec<(u64, u16)> = sorted.iter().map(|f| (f.reference.ordinal, f.key.endpoint_a.port)).collect();
    assert_eq!(keys, vec![(0, 4), (2, 2), (5, 1), (5, 3)]);
}

#[test]
fn concluding_without_detectors_records_limitations() {
    let reader = outcome(
        CaptureCompletion::Partial {
            terminal_error: Some(reader_error(CaptureDiagnosticKind::ResourceLimit, Some(ReaderLimit::MaximumRecords))),
        },
        vec![diagnostic(CaptureDiagnosticKind::Incomplete, 40)],
    );
    let result = conclude_analysis(reader, 7, vec![flow(3, 1), flow(1, 2)], vec![], false, true, false, false, false)
        .unwrap();
    assert_eq!(result.flows.iter().map(|f| f.reference.ordinal).collect::<Vec<_>>(), vec![1, 3]);
    assert_eq!(
        result.detection_input_limitations,
        vec![
            DetectionInputLimitation::CaptureTruncated,
            DetectionInputLimitation::PacketCountBudgetReached,
            DetectionInputLimitation::FlowBudgetReached,
        ]
    );
    assert_eq!(result.detection_input_completeness, DetectionInputCompleteness::Partial);
    assert!(result.detection_outcome.detector_executions.is_empty());
    assert_eq!(result.detection_outcome.completion, DetectionInputCompleteness::Complete);
    assert_eq!(result.total_records_processed, 7);
    assert!(result.is_partial());
    assert_eq!(result.exit_code(), 3);
}

#[test]
fn concluding_with_detectors_runs_the_builtin_registries() {
    let reader = outcome(CaptureCompletion::Complete, vec![]);
    let result = conclude_analysis(reader, 2, vec![flow(0, 1)], vec![], false, false, false, false, true).unwrap();
    assert_eq!(result.detection_outcome.detector_executions.len(), 4);
    assert_eq!(result.detection_outcome.correlator_executions.len(), 1);
    assert_eq!(result.detection_input_completeness, DetectionInputCompleteness::Complete);
    assert!(!result.is_partial());
    assert_eq!(result.exit_code(), 0);
}

#[test]
fn duplicate_flow_ordinals_make_invalid_detection_input() {
    let reader = outcome(CaptureCompletion::Complete, vec![]);
    let r = conclude_analysis(reader, 2, vec![flow(4, 1), flow(4, 2)], vec![], false, false, false, false, true);
    match r {
        Err(AnalysisError::Fatal(m)) => {
            assert_eq!(m, "failed to construct detection input: duplicate flow reference in detection input: flow:4")
        }
        _ => panic!("expected a fatal error"),
    }
}

#[test]
fn analysis_report_records_count_and_name_limitations() {

    let observation = |packet: u64, protocol: ProtocolKind, data: ProtocolObservationData| ProtocolObservation {
        reference: ObservationReference { packet_ordinal: packet, protocol, sub_index: 0 },
        flow_association: ObservationFlowAssociation::Unassociated,
        completeness: ObservationCompleteness::Complete,
        data,
    };
    let observations = vec![
        observation(1, ProtocolKind::Http, ProtocolObservationData::Http),
        observation(2, ProtocolKind::Tls, ProtocolObservationData::Tls),
        observation(3, ProtocolKind::Http, ProtocolObservationData::Http),
    ];
    let reader = outcome(CaptureCompletion::Complete, vec![diagnostic(CaptureDiagnosticKind::Incomplete, 8)]);
    let result =
        conclude_analysis(reader, 9, vec![flow(0, 1), flow(1, 2)], observations, true, false, false, false, false)
            .unwrap();
    let completion = report_completion(&result);
    assert_eq!(completion.status, "partial");
    assert_eq!(completion.limitations, vec!["capture_truncated".to_string(), "observation_budget_reached".to_string()]);
    let summary = analysis_summary(&result, 0, 0);
    assert_eq!(summary.total_packets, "9");
    assert_eq!(summary.total_flows, "2");
    assert_eq!(summary.total_dns_observations, "0");
    assert_eq!(summary.total_http_observations, "2");
    assert_eq!(summary.total_tls_observations, "1");

    assert_eq!(build_finding_filter_record(None, None, None, None), None);
    let id = DetectorId::try_new("dns.possible_tunneling").unwrap();
    let filter = build_finding_filter_record(Some(Severity::High), Some(Confidence::Low), Some(&id), None).unwrap();
    assert_eq!(filter.min_severity.as_deref(), Some("high"));
    assert_eq!(filter.min_confidence.as_deref(), Some("low"));
    assert_eq!(filter.detector_id.as_deref(), Some("dns.possible_tunneling"));
    assert_eq!(filter.mitre_attack_id, None);
}

#[test]
fn validation_verdicts() {
    assert_eq!(validation_verdict(&outcome(CaptureCompletion::Complete, vec![]), false), Ok(0));
    assert_eq!(validation_verdict(&outcome(CaptureCompletion::Complete, vec![]), true), Ok(3));
    assert_eq!(validation_verdict(&outcome(CaptureCompletion::Partial { terminal_error: None }, vec![]), false), Ok(3));
    let failed = outcome(
        CaptureCompletion::FailedBeforeUsefulRecords { terminal_error: reader_error(CaptureDiagnosticKind::Malformed, None) },
        vec![],
    );
    assert_eq!(
        validation_verdict(&failed, false),
        Err("capture validation failed before useful records: reader stopped".to_string())
    );
}

#[test]
fn analysis_diagnostic_write_failure_is_fatal() {
    let mut emitter = DiagnosticEmitter::with_writer(FailingWriter, false, 10);
    assert_eq!(
        emit_analysis_diagnostic(&mut emitter, "observation budget reached"),
        Err(AnalysisError::Fatal("failed to emit analysis diagnostic to stderr".to_string()))
    );
    assert!(emitter.had_io_error());

    let mut quiet = DiagnosticEmitter::with_writer(FailingWriter, true, 10);
    assert_eq!(emit_analysis_diagnostic(&mut quiet, "observation budget reached"), Ok(()));
    assert!(!quiet.had_io_error());

    let mut buffered = DiagnosticEmitter::with_writer(LineBuffer::new(), false, 10);
    assert_eq!(emit_analysis_diagnostic(&mut buffered, "observation budget reached"), Ok(()));
    assert_eq!(buffered.into_writer().line(0), "diagnostic: observation budget reached");
}

#[test]
fn observation_push_outcomes_decide_the_analysis() {
    let mut emitter = DiagnosticEmitter::with_writer(LineBuffer::new(), false, 10);
    let mut budget = false;
    let mut partial = false;
    assert_eq!(
        handle_observation_push(ObservationPushOutcome::Accepted, "", &mut budget, &mut partial, &mut emitter),
        Ok(())
    );
    assert!(!budget && !partial);
    assert_eq!(
        handle_observation_push(
            ObservationPushOutcome::ResourceLimit,
            "capacity 5 reached",
            &mut budget,
            &mut partial,
            &mut emitter,
        ),
        Ok(())
    );
    assert!(budget && partial);
    assert_eq!(
        handle_observation_push(
            ObservationPushOutcome::OrderingViolation,
            "duplicate reference",
            &mut budget,
            &mut partial,
            &mut emitter,
        ),
        Err(AnalysisError::Fatal("protocol observation ordering invariant failed: duplicate reference".to_string()))
    );
    let buffer = emitter.into_writer();
    assert_eq!(buffer.len(), 1);
    assert_eq!(buffer.line(0), "diagnostic: observation collection budget exhausted: capacity 5 reached");
}

struct FailAfterOneWrite {
    completed_line: bool,
}

impl LineSink for FailAfterOneWrite {
    fn write_line(&mut self, _line: &str) -> Result<(), SinkError> {
        if self.completed_line {
            Err(SinkError)
        } else {
            self.completed_line = true;
            Ok(())
        }
    }
}

#[test]
fn diagnostic_write_failure_is_a_fatal_analysis_error() {
    let mut emitter = DiagnosticEmitter::with_writer(FailingWriter, false, 100);
    assert!(matches!(
        emit_analysis_diagnostic(&mut emitter, "observation collection budget exhausted: capacity reached"),
        Err(AnalysisError::Fatal(_))
    ));
}

#[test]
fn capture_diagnostic_write_failure_is_a_fatal_analysis_error() {
    let writer = FailAfterOneWrite { completed_line: false };
    let mut emitter = DiagnosticEmitter::with_writer(writer, false, 100);
    let truncated = outcome(
        CaptureCompletion::Partial { terminal_error: None },
        vec![diagnostic(CaptureDiagnosticKind::Malformed, 24), diagnostic(CaptureDiagnosticKind::Incomplete, 80)],
    );
    assert!(matches!(report_reader_outcome(&truncated, &mut emitter), Err(AnalysisError::Fatal(_))));
}

#[test]
fn record_counting_and_fatal_messages() {
    assert_eq!(count_record(5), Ok(6));
    assert_eq!(
        count_record(u64::MAX),
        Err(AnalysisError::Fatal("capture record counter exceeded supported resource bounds".to_string()))
    );
    assert_eq!(
        observation_construction_failure("DNS", 12, "bad reference"),
        AnalysisError::Fatal("DNS observation construction failed on packet 12: bad reference".to_string())
    );
    assert_eq!(
        association_failure(7, "mismatch"),
        AnalysisError::Fatal("fatal flow-observation association invariant failure on packet 7: mismatch".to_string())
    );
}

#[test]
fn stream_flow_and_stage_errors_set_their_flags_and_report() {
    let mut emitter = DiagnosticEmitter::with_writer(LineBuffer::new(), false, 10);
    let mut stream = false;
    let mut flow_budget = false;
    let mut partial = false;
    assert_eq!(report_stream_error("unexpected end", &mut stream, &mut emitter), Ok(()));
    assert!(stream);
    stream = false;
    assert_eq!(report_flow_error(9, "too many flows", true, &mut stream, &mut flow_budget, &mut emitter), Ok(()));
    assert!(stream && flow_budget);
    assert_eq!(report_stage_diagnostics("DNS", 9, &vec![], &mut partial, &mut emitter), Ok(()));
    assert!(!partial);
    let msgs = vec!["truncated header".to_string(), "bad label".to_string()];
    assert_eq!(report_stage_diagnostics("DNS", 9, &msgs, &mut partial, &mut emitter), Ok(()));
    assert!(partial);
    let mut partial2 = false;
    assert_eq!(observation_index(3, false, "TLS", 4, &mut partial2, &mut emitter), Ok(Some(3)));
    assert!(partial2);
    let buffer = emitter.into_writer();
    assert_eq!(buffer.len(), 4);
    assert_eq!(buffer.line(0), "diagnostic: capture reader stream error: unexpected end");
    assert_eq!(buffer.line(1), "diagnostic: flow reconstruction error on packet 9: too many flows");
    assert_eq!(buffer.line(2), "diagnostic: DNS diagnostic on packet 9: truncated header");
    assert_eq!(buffer.line(3), "diagnostic: DNS diagnostic on packet 9: bad label");
}

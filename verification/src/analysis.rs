//! The decisions of the capture analysis pipeline: which input limitations detection sees,
//! and when a run counts as partial.

use vstd::prelude::*;
use vstd::multiset::Multiset;
use crate::engine::DetectionRunOutcome;
use crate::flow::{FlowRecord, ProtocolObservation};
use crate::input::{DetectionInputCompleteness, DetectionInputLimitation};
use crate::capture::{
    capture_message, CaptureCompletion, CaptureDiagnostic, CaptureDiagnosticKind, CaptureReadOutcome,
    CaptureReaderError, ReaderLimit,
};
use crate::builtin::{build_builtin_registries, builtin_registries, BuiltinDetector};
use crate::detector::Detector;
use crate::config::DetectorConfigurations;
use crate::correlation::CorrelationRegistry;
use crate::engine::{correlated_outcome_consistent, execute_detection_with_correlators, runs_acceptable};
use crate::error::{engine_error_text, input_error_text, DetectionEngineError, DetectionInputError};
use crate::input::{valid_input_parts, DetectionInput};
use crate::limits::{default_parts, DetectionLimits};
use crate::multi_signal::PossibleC2MultiSignalCorrelator;
use crate::registry::DetectorRegistry;
use crate::presentation::{diagnostic_text, saturating_inc, DiagnosticEmitter, EmitterState, LineSink};
use crate::text::{decimal, push_decimal};

verus! {

broadcast use {vstd::seq_lib::group_to_multiset_ensures, vstd::multiset::group_multiset_axioms};

/// Options controlling the capture analysis pipeline.
#[derive(Debug)]
pub struct AnalysisOptions {
    /// Path of the capture file.
    pub capture_path: String,
    /// Maximum capture records to process.
    pub max_records: Option<u64>,
    /// Maximum simultaneous active flows to track.
    pub max_flows: Option<usize>,
    /// Maximum total flow instances across the analysis.
    pub max_flow_instances: Option<usize>,
    /// Maximum protocol observations to retain.
    pub max_observations: Option<usize>,
    /// TCP flow idle timeout in seconds.
    pub tcp_idle_timeout: Option<u32>,
    /// UDP flow idle timeout in seconds.
    pub udp_idle_timeout: Option<u32>,
    /// Whether to parse DNS packets.
    pub parse_dns: bool,
    /// Whether to parse HTTP/1.x packets.
    pub parse_http: bool,
    /// Whether to parse TLS packets.
    pub parse_tls: bool,
    /// Whether to run the detectors and correlators.
    pub run_detectors: bool,
}

/// Errors arising during analysis initialization or fatal execution.
#[derive(Debug, PartialEq, Eq)]
pub enum AnalysisError {
    /// Configuration or argument validation error.
    Config(String),
    /// Unrecoverable error (a file that cannot be opened, an engine failure).
    Fatal(String),
}

impl AnalysisError {
    /// The error's message.
    pub fn message(&self) -> (s: &str)
        ensures
            s@ == (match *self {
                AnalysisError::Config(m) => m@,
                AnalysisError::Fatal(m) => m@,
            }),
    {
        match self {
            AnalysisError::Config(m) => m.as_str(),
            AnalysisError::Fatal(m) => m.as_str(),
        }
    }
}

/// Outcome of the capture analysis pipeline.
#[derive(Debug)]
pub struct AnalysisResult {
    /// What the capture reader reported.
    pub reader_outcome: CaptureReadOutcome,
    /// Total capture records processed.
    pub total_records_processed: u64,
    /// Reconstructed flows, ordered by flow ordinal.
    pub flows: Vec<FlowRecord>,
    /// Protocol observations.
    pub observations: Vec<ProtocolObservation>,
    /// Completeness of the detection input.
    pub detection_input_completeness: DetectionInputCompleteness,
    /// Limitations recorded on the detection input.
    pub detection_input_limitations: Vec<DetectionInputLimitation>,
    /// Outcome of the detection run.
    pub detection_outcome: DetectionRunOutcome,
    /// Whether a capture reader or stream error occurred.
    pub had_stream_error: bool,
    /// Whether partial parsing or a limitation occurred.
    pub had_partial_data: bool,
}

/// The run is partial: a stream error, partial data, an incomplete read, a partial
/// detection run or partial detection input.
pub open spec fn result_partial(r: AnalysisResult) -> bool {
    ||| r.had_stream_error
    ||| r.had_partial_data
    ||| !(r.reader_outcome.completion is Complete)
    ||| r.detection_outcome.completion == DetectionInputCompleteness::Partial
    ||| r.detection_input_completeness == DetectionInputCompleteness::Partial
}

impl AnalysisResult {
    /// Whether the analysis was partial or degraded in any way.
    pub fn is_partial(&self) -> (b: bool)
        ensures
            b == result_partial(*self),
    {
        self.had_stream_error || self.had_partial_data || !self.reader_outcome.is_complete() || match self.detection_outcome.completion {
            DetectionInputCompleteness::Partial => true,
            DetectionInputCompleteness::Complete => false,
        } || match self.detection_input_completeness {
            DetectionInputCompleteness::Partial => true,
            DetectionInputCompleteness::Complete => false,
        }
    }

    /// The process exit code: 0 for a complete analysis, 3 for a partial one.
    pub fn exit_code(&self) -> (c: u8)
        ensures
            c == (if result_partial(*self) {
                3u8
            } else {
                0u8
            }),
    {
        if self.is_partial() {
            3
        } else {
            0
        }
    }
}

/// The limitations detection sees, in the order they are recorded: truncation, the record
/// budget, the observation budget, the flow budget.
pub open spec fn input_limitations(
    truncated: bool,
    record_budget: bool,
    observation_budget: bool,
    flow_budget: bool,
) -> Seq<DetectionInputLimitation> {
    (if truncated {
        seq![DetectionInputLimitation::CaptureTruncated]
    } else {
        Seq::empty()
    }) + (if record_budget {
        seq![DetectionInputLimitation::PacketCountBudgetReached]
    } else {
        Seq::empty()
    }) + (if observation_budget {
        seq![DetectionInputLimitation::ObservationBudgetReached]
    } else {
        Seq::empty()
    }) + (if flow_budget {
        seq![DetectionInputLimitation::FlowBudgetReached]
    } else {
        Seq::empty()
    })
}

/// The detection input limitations after a capture analysis, and the resulting completeness:
/// partial exactly when some limitation was recorded.
pub fn detection_input_limitations(
    truncated: bool,
    record_budget: bool,
    observation_budget: bool,
    flow_budget: bool,
) -> (r: (DetectionInputCompleteness, Vec<DetectionInputLimitation>))
    ensures
        r.1@ == input_limitations(truncated, record_budget, observation_budget, flow_budget),
        r.0 == (if r.1@.len() == 0 {
            DetectionInputCompleteness::Complete
        } else {
            DetectionInputCompleteness::Partial
        }),
{
    let mut v: Vec<DetectionInputLimitation> = Vec::new();
    if truncated {
        v.push(DetectionInputLimitation::CaptureTruncated);
    }
    if record_budget {
        v.push(DetectionInputLimitation::PacketCountBudgetReached);
    }
    if observation_budget {
        v.push(DetectionInputLimitation::ObservationBudgetReached);
    }
    if flow_budget {
        v.push(DetectionInputLimitation::FlowBudgetReached);
    }
    assert(v@ =~= input_limitations(truncated, record_budget, observation_budget, flow_budget));
    let c = if v.len() == 0 {
        DetectionInputCompleteness::Complete
    } else {
        DetectionInputCompleteness::Partial
    };
    (c, v)
}

// ----- the reader's outcome -----

/// The error that stopped the reader, if one did.
pub open spec fn terminal_error_of(c: CaptureCompletion) -> Option<CaptureReaderError> {
    match c {
        CaptureCompletion::Complete => None,
        CaptureCompletion::Partial { terminal_error } => terminal_error,
        CaptureCompletion::FailedBeforeUsefulRecords { terminal_error } => Some(terminal_error),
    }
}

/// The capture's bytes ended early: the reader stopped on, or reported, incomplete data.
pub open spec fn physically_truncated(o: CaptureReadOutcome) -> bool {
    ||| (terminal_error_of(o.completion) matches Some(e) && e.kind == CaptureDiagnosticKind::Incomplete)
    ||| exists|i: int| 0 <= i < o.diagnostics@.len() && (#[trigger] o.diagnostics@[i]).kind
        == CaptureDiagnosticKind::Incomplete
}

/// The reader stopped at its maximum number of records.
pub open spec fn reached_record_budget(o: CaptureReadOutcome) -> bool {
    terminal_error_of(o.completion) matches Some(e) && e.kind == CaptureDiagnosticKind::ResourceLimit && e.limit
        == Some(ReaderLimit::MaximumRecords)
}

/// The error that stopped the reader, if one did.
pub fn terminal_reader_error(outcome: &CaptureReadOutcome) -> (r: Option<&CaptureReaderError>)
    ensures
        match terminal_error_of(outcome.completion) {
            Some(e) => r matches Some(x) && *x == e,
            None => r is None,
        },
{
    match &outcome.completion {
        CaptureCompletion::Complete => None,
        CaptureCompletion::Partial { terminal_error } => match terminal_error {
            Some(e) => Some(e),
            None => None,
        },
        CaptureCompletion::FailedBeforeUsefulRecords { terminal_error } => Some(terminal_error),
    }
}

/// Whether the capture's bytes ended early.
pub fn outcome_is_physically_truncated(outcome: &CaptureReadOutcome) -> (b: bool)
    ensures
        b == physically_truncated(*outcome),
{
    match terminal_reader_error(outcome) {
        Some(e) => {
            if e.kind == CaptureDiagnosticKind::Incomplete {
                return true;
            }
        },
        None => {},
    }
    let n = outcome.diagnostics.len();
    let mut i: usize = 0;
    while i < n
        invariant
            n == outcome.diagnostics@.len(),
            i <= n,
            forall|k: int| 0 <= k < i ==> (#[trigger] outcome.diagnostics@[k]).kind != CaptureDiagnosticKind::Incomplete,
        decreases n - i,
    {
        if outcome.diagnostics[i].kind == CaptureDiagnosticKind::Incomplete {
            return true;
        }
        i = i + 1;
    }
    false
}

/// Whether the reader stopped at its maximum number of records.
pub fn outcome_reached_record_budget(outcome: &CaptureReadOutcome) -> (b: bool)
    ensures
        b == reached_record_budget(*outcome),
{
    match terminal_reader_error(outcome) {
        Some(e) => e.kind == CaptureDiagnosticKind::ResourceLimit && match e.limit {
            Some(ReaderLimit::MaximumRecords) => true,
            _ => false,
        },
        None => false,
    }
}

/// The message of an analysis that could not report a diagnostic.
pub open spec fn analysis_emit_failure_text() -> Seq<char> {
    "failed to emit analysis diagnostic to stderr"@
}

/// `e1` is `e0` after reporting `message` as an analysis diagnostic with result `r`: quiet,
/// nothing changes; over the budget, the message is counted as suppressed; otherwise the
/// line is written, or the writer refused it and the result is the fatal emission error.
pub open spec fn analysis_diagnostic_emitted<W: LineSink>(
    e0: DiagnosticEmitter<W>,
    e1: DiagnosticEmitter<W>,
    message: Seq<char>,
    r: Result<(), AnalysisError>,
) -> bool {
    let (quiet, budget, emitted, suppressed, failed) = e0.state();
    let (quiet2, budget2, emitted2, suppressed2, failed2) = e1.state();
    &&& quiet2 == quiet && budget2 == budget
    &&& quiet ==> r is Ok && e1.state() == e0.state() && e1.written() == e0.written()
    &&& !quiet && emitted >= budget ==> r is Ok && emitted2 == emitted && suppressed2 == saturating_inc(suppressed)
        && failed2 == failed && e1.written() == e0.written()
    &&& !quiet && emitted < budget && r is Ok ==> emitted2 == emitted + 1 && suppressed2 == suppressed && failed2
        == failed && e1.written() == e0.written().push(diagnostic_text(message))
    &&& r matches Err(e) ==> !quiet && emitted < budget && emitted2 == emitted && suppressed2 == suppressed && failed2
        && (e matches AnalysisError::Fatal(m) && m@ == analysis_emit_failure_text())
    &&& r is Err ==> e1.spec_writer().failed_writes() == e0.spec_writer().failed_writes() + 1 && e1.written()
        == e0.written()
    &&& r is Ok ==> e1.spec_writer().failed_writes() == e0.spec_writer().failed_writes()
}

/// Reports an analysis diagnostic through the emitter; a failed write is a fatal analysis
/// error.
pub fn emit_analysis_diagnostic<W: LineSink>(
    emitter: &mut DiagnosticEmitter<W>,
    message: &str,
) -> (r: Result<(), AnalysisError>)
    ensures
        analysis_diagnostic_emitted(*old(emitter), *final(emitter), message@, r),
{
    match emitter.emit_diagnostic(message) {
        Ok(()) => Ok(()),
        Err(_) => Err(AnalysisError::Fatal(String::from_str("failed to emit analysis diagnostic to stderr"))),
    }
}

/// How the observation collection answered the push of an observation.
#[derive(Debug, Clone, Copy, PartialEq, Eq, Structural)]
pub enum ObservationPushOutcome {
    /// The observation was stored.
    Accepted,
    /// The collection is full.
    ResourceLimit,
    /// The observation repeats or precedes the last stored reference.
    OrderingViolation,
    /// The collection was built with an unusable capacity.
    CollectionUnusable,
}

/// The message of a full observation collection.
pub open spec fn observation_budget_text(error: Seq<char>) -> Seq<char> {
    "observation collection budget exhausted: "@ + error
}

/// The message of an observation that breaks the collection's order.
pub open spec fn observation_order_text(error: Seq<char>) -> Seq<char> {
    "protocol observation ordering invariant failed: "@ + error
}

/// The message of a collection that refused an insertion for its capacity.
pub open spec fn observation_collection_text(error: Seq<char>) -> Seq<char> {
    "initialized observation collection rejected an insertion: "@ + error
}

/// Acts on the collection's answer to an observation push (`error` being the text of its
/// error, if any): an accepted observation changes nothing; a full collection marks the
/// observation budget exhausted and the data partial and reports a diagnostic; an ordering
/// violation or an unusable collection is a fatal error.
pub fn handle_observation_push<W: LineSink>(
    outcome: ObservationPushOutcome,
    error: &str,
    budget_exhausted: &mut bool,
    had_partial_data: &mut bool,
    emitter: &mut DiagnosticEmitter<W>,
) -> (r: Result<(), AnalysisError>)
    ensures
        outcome == ObservationPushOutcome::ResourceLimit ==> *final(budget_exhausted) && *final(had_partial_data)
            && analysis_diagnostic_emitted(*old(emitter), *final(emitter), observation_budget_text(error@), r),
        outcome != ObservationPushOutcome::ResourceLimit ==> *final(budget_exhausted) == *old(budget_exhausted)
            && *final(had_partial_data) == *old(had_partial_data) && *final(emitter) == *old(emitter),
        outcome == ObservationPushOutcome::Accepted ==> r is Ok,
        outcome == ObservationPushOutcome::OrderingViolation ==> (r matches Err(AnalysisError::Fatal(m)) && m@
            == observation_order_text(error@)),
        outcome == ObservationPushOutcome::CollectionUnusable ==> (r matches Err(AnalysisError::Fatal(m)) && m@
            == observation_collection_text(error@)),
{
    match outcome {
        ObservationPushOutcome::Accepted => Ok(()),
        ObservationPushOutcome::ResourceLimit => {
            *budget_exhausted = true;
            *had_partial_data = true;
            let mut m = String::from_str("observation collection budget exhausted: ");
            m.append(error);
            emit_analysis_diagnostic(emitter, m.as_str())
        },
        ObservationPushOutcome::OrderingViolation => {
            let mut m = String::from_str("protocol observation ordering invariant failed: ");
            m.append(error);
            Err(AnalysisError::Fatal(m))
        },
        ObservationPushOutcome::CollectionUnusable => {
            let mut m = String::from_str("initialized observation collection rejected an insertion: ");
            m.append(error);
            Err(AnalysisError::Fatal(m))
        },
    }
}

/// The messages capture diagnostics are emitted with.
pub open spec fn capture_messages(ds: Seq<CaptureDiagnostic>) -> Seq<Seq<char>> {
    Seq::new(ds.len(), |i: int| capture_message(ds[i]))
}

/// `n`, saturated at the largest machine count.
pub open spec fn saturated_count(n: nat) -> nat {
    if n <= usize::MAX {
        n
    } else {
        usize::MAX as nat
    }
}

/// How many of `n` further diagnostics an emitter that has written `emitted` of `budget`
/// still writes.
pub open spec fn room_for(budget: nat, emitted: nat, n: nat) -> nat {
    if budget <= emitted {
        0
    } else if budget - emitted <= n {
        (budget - emitted) as nat
    } else {
        n
    }
}

/// An emitter that was in state `s0` with lines `w0` written has emitted every message of
/// `msgs` successfully and is now in state `s` with lines `w`: quiet, nothing changed;
/// otherwise the messages within the budget were written, in order, and the rest counted as
/// suppressed.
pub open spec fn emitted_all(
    s0: EmitterState,
    w0: Seq<Seq<char>>,
    s: EmitterState,
    w: Seq<Seq<char>>,
    msgs: Seq<Seq<char>>,
) -> bool {
    let (quiet, budget, emitted, suppressed, failed) = s0;
    if quiet {
        s == s0 && w == w0
    } else {
        let k = room_for(budget, emitted, msgs.len());
        &&& s == (quiet, budget, emitted + k, saturated_count(suppressed + (msgs.len() - k) as nat), failed)
        &&& w == w0 + Seq::new(k, |i: int| diagnostic_text(msgs[i]))
    }
}

/// The message of an analysis that could not report a capture diagnostic.
pub open spec fn capture_emit_failure_text() -> Seq<char> {
    "failed to emit capture diagnostic to stderr"@
}

/// The message of an analysis whose capture gave no useful record.
pub open spec fn failed_capture_text(e: CaptureReaderError) -> Seq<char> {
    "capture analysis failed before useful records: "@ + e.message@
}

proof fn lemma_failure_texts_differ(c: CaptureCompletion)
    ensures
        c matches CaptureCompletion::FailedBeforeUsefulRecords { terminal_error } ==> failed_capture_text(
            terminal_error,
        ) != capture_emit_failure_text(),
{
    reveal_strlit("capture analysis failed before useful records: ");
    reveal_strlit("failed to emit capture diagnostic to stderr");
    if let CaptureCompletion::FailedBeforeUsefulRecords { terminal_error } = c {
        assert(failed_capture_text(terminal_error)[0] == 'c');
        assert(capture_emit_failure_text()[0] == 'f');
    }
}

/// Reports the reader's diagnostics through the emitter, then fails the analysis if the
/// capture gave no useful record. A failed write ends the analysis at once.
pub fn report_reader_outcome<W: LineSink>(
    outcome: &CaptureReadOutcome,
    emitter: &mut DiagnosticEmitter<W>,
) -> (r: Result<(), AnalysisError>)
    ensures
        final(emitter).state().0 == old(emitter).state().0 && final(emitter).state().1 == old(emitter).state().1,
        r matches Err(AnalysisError::Fatal(m)) && m@ == capture_emit_failure_text() ==> final(emitter).state().4,
        !(r matches Err(AnalysisError::Fatal(m)) && m@ == capture_emit_failure_text()) ==> emitted_all(
            old(emitter).state(),
            old(emitter).written(),
            final(emitter).state(),
            final(emitter).written(),
            capture_messages(outcome.diagnostics@),
        ),
        r is Ok ==> !(outcome.completion is FailedBeforeUsefulRecords),
        r matches Err(e) ==> (e matches AnalysisError::Fatal(m) && (m@ == capture_emit_failure_text() || (
        outcome.completion matches CaptureCompletion::FailedBeforeUsefulRecords { terminal_error } && m@
            == failed_capture_text(terminal_error)))),
        outcome.completion matches CaptureCompletion::FailedBeforeUsefulRecords { terminal_error } ==> r is Err,
{
    let ghost s0 = emitter.state();
    let ghost w0 = emitter.written();
    let ghost msgs = capture_messages(outcome.diagnostics@);
    let n = outcome.diagnostics.len();
    let mut i: usize = 0;
    proof {
        emitter.lemma_counts_fit();
        assert(w0 + Seq::new(0, |j: int| diagnostic_text(msgs.take(0)[j])) =~= w0);
        lemma_failure_texts_differ(outcome.completion);
    }
    while i < n
        invariant
            n == outcome.diagnostics@.len(),
            i <= n,
            msgs == capture_messages(outcome.diagnostics@),
            emitter.state().0 == s0.0 && emitter.state().1 == s0.1,
            s0 == old(emitter).state(),
            w0 == old(emitter).written(),
            s0.3 <= usize::MAX,
            emitted_all(s0, w0, emitter.state(), emitter.written(), msgs.take(i as int)),
        decreases n - i,
    {
        let ghost si = emitter.state();
        let ghost wi = emitter.written();
        match emitter.emit_capture_diagnostic(&outcome.diagnostics[i]) {
            Err(_) => {
                return Err(AnalysisError::Fatal(String::from_str("failed to emit capture diagnostic to stderr")));
            },
            Ok(()) => {},
        }
        proof {
            let t = msgs.take(i + 1);
            let t0 = msgs.take(i as int);
            assert(t.len() == i + 1);
            assert(t =~= t0.push(msgs[i as int]));
            assert(msgs[i as int] == capture_message(outcome.diagnostics@[i as int]));
            let (quiet, budget, emitted, suppressed, failed) = s0;
            if !quiet {
                let k0 = room_for(budget, emitted, i as nat);
                let k1 = room_for(budget, emitted, (i + 1) as nat);
                if si.2 < budget {
                    assert(k1 == k0 + 1);
                    assert(Seq::new(k1, |j: int| diagnostic_text(t[j])) =~= Seq::new(
                        k0,
                        |j: int| diagnostic_text(t0[j]),
                    ).push(diagnostic_text(msgs[i as int])));
                } else {
                    assert(k1 == k0);
                    assert(Seq::new(k1, |j: int| diagnostic_text(t[j])) =~= Seq::new(
                        k0,
                        |j: int| diagnostic_text(t0[j]),
                    ));
                }
            }
        }
        i = i + 1;
    }
    proof {
        assert(msgs.take(n as int) =~= msgs);
    }
    match &outcome.completion {
        CaptureCompletion::FailedBeforeUsefulRecords { terminal_error } => {
            let mut m = String::from_str("capture analysis failed before useful records: ");
            m.append(terminal_error.message.as_str());
            Err(AnalysisError::Fatal(m))
        },
        _ => Ok(()),
    }
}

// ----- per-record decisions -----

/// The message of a record counter that would overflow.
pub open spec fn record_counter_text() -> Seq<char> {
    "capture record counter exceeded supported resource bounds"@
}

/// Counts one more capture record; a counter that would overflow is a fatal error.
pub fn count_record(total: u64) -> (r: Result<u64, AnalysisError>)
    ensures
        total < u64::MAX ==> r == Ok::<u64, AnalysisError>((total + 1) as u64),
        total == u64::MAX ==> (r matches Err(AnalysisError::Fatal(m)) && m@ == record_counter_text()),
{
    match total.checked_add(1) {
        Some(n) => Ok(n),
        None => Err(AnalysisError::Fatal(String::from_str("capture record counter exceeded supported resource bounds"))),
    }
}

/// The diagnostic of a capture reader stream error.
pub open spec fn stream_error_text(error: Seq<char>) -> Seq<char> {
    "capture reader stream error: "@ + error
}

/// Records a capture reader stream error (the text of which is `error`) and reports it.
pub fn report_stream_error<W: LineSink>(
    error: &str,
    had_stream_error: &mut bool,
    emitter: &mut DiagnosticEmitter<W>,
) -> (r: Result<(), AnalysisError>)
    ensures
        *final(had_stream_error),
        analysis_diagnostic_emitted(*old(emitter), *final(emitter), stream_error_text(error@), r),
{
    *had_stream_error = true;
    let mut m = String::from_str("capture reader stream error: ");
    m.append(error);
    emit_analysis_diagnostic(emitter, m.as_str())
}

/// The diagnostic of a flow reconstruction error on a packet.
pub open spec fn flow_error_text(packet: u64, error: Seq<char>) -> Seq<char> {
    "flow reconstruction error on packet "@ + decimal(packet as nat) + ": "@ + error
}

/// Records a flow reconstruction error on `packet` (the text of which is `error`): the stream
/// is marked as failed, the flow budget as exhausted when the error is the reconstructor's
/// resource limit, and the error is reported.
pub fn report_flow_error<W: LineSink>(
    packet: u64,
    error: &str,
    resource_limit: bool,
    had_stream_error: &mut bool,
    flow_budget_exhausted: &mut bool,
    emitter: &mut DiagnosticEmitter<W>,
) -> (r: Result<(), AnalysisError>)
    ensures
        *final(had_stream_error),
        *final(flow_budget_exhausted) == (*old(flow_budget_exhausted) || resource_limit),
        analysis_diagnostic_emitted(*old(emitter), *final(emitter), flow_error_text(packet, error@), r),
{
    *had_stream_error = true;
    if resource_limit {
        *flow_budget_exhausted = true;
    }
    let mut m = String::from_str("flow reconstruction error on packet ");
    push_decimal(&mut m, packet as u128);
    m.append(": ");
    m.append(error);
    proof {
        assert(m@ =~= flow_error_text(packet, error@));
    }
    emit_analysis_diagnostic(emitter, m.as_str())
}

/// The diagnostic of one message of a processing stage on a packet.
pub open spec fn stage_diagnostic_text(stage: Seq<char>, packet: u64, message: Seq<char>) -> Seq<char> {
    stage + " diagnostic on packet "@ + decimal(packet as nat) + ": "@ + message
}

/// The diagnostics of a stage's messages on a packet.
pub open spec fn stage_diagnostic_texts(stage: Seq<char>, packet: u64, messages: Seq<String>) -> Seq<Seq<char>> {
    Seq::new(messages.len(), |i: int| stage_diagnostic_text(stage, packet, messages[i]@))
}

/// Reports the diagnostics a processing stage (normalization, DNS, HTTP, TLS) gave on a
/// packet: any of them makes the data partial, and each is reported in order; a failed write
/// is fatal.
pub fn report_stage_diagnostics<W: LineSink>(
    stage: &str,
    packet: u64,
    messages: &Vec<String>,
    had_partial_data: &mut bool,
    emitter: &mut DiagnosticEmitter<W>,
) -> (r: Result<(), AnalysisError>)
    ensures
        *final(had_partial_data) == (*old(had_partial_data) || messages@.len() > 0),
        final(emitter).state().0 == old(emitter).state().0 && final(emitter).state().1 == old(emitter).state().1,
        r is Ok ==> emitted_all(
            old(emitter).state(),
            old(emitter).written(),
            final(emitter).state(),
            final(emitter).written(),
            stage_diagnostic_texts(stage@, packet, messages@),
        ),
        r matches Err(e) ==> final(emitter).state().4 && (e matches AnalysisError::Fatal(m) && m@
            == analysis_emit_failure_text()),
{
    if messages.len() > 0 {
        *had_partial_data = true;
    }
    let ghost s0 = emitter.state();
    let ghost w0 = emitter.written();
    let ghost msgs = stage_diagnostic_texts(stage@, packet, messages@);
    let n = messages.len();
    let mut i: usize = 0;
    proof {
        emitter.lemma_counts_fit();
        assert(w0 + Seq::new(0, |j: int| diagnostic_text(msgs.take(0)[j])) =~= w0);
    }
    while i < n
        invariant
            n == messages@.len(),
            i <= n,
            msgs == stage_diagnostic_texts(stage@, packet, messages@),
            *had_partial_data == (*old(had_partial_data) || messages@.len() > 0),
            emitter.state().0 == s0.0 && emitter.state().1 == s0.1,
            s0 == old(emitter).state(),
            w0 == old(emitter).written(),
            s0.3 <= usize::MAX,
            emitted_all(s0, w0, emitter.state(), emitter.written(), msgs.take(i as int)),
        decreases n - i,
    {
        let ghost si = emitter.state();
        let mut m = String::from_str(stage);
        m.append(" diagnostic on packet ");
        push_decimal(&mut m, packet as u128);
        m.append(": ");
        m.append(messages[i].as_str());
        proof {
            assert(m@ =~= msgs[i as int]);
        }
        match emit_analysis_diagnostic(emitter, m.as_str()) {
            Err(e) => {
                return Err(e);
            },
            Ok(()) => {},
        }
        proof {
            let t = msgs.take(i + 1);
            let t0 = msgs.take(i as int);
            assert(t =~= t0.push(msgs[i as int]));
            let (quiet, budget, emitted, suppressed, failed) = s0;
            if !quiet {
                let k0 = room_for(budget, emitted, i as nat);
                let k1 = room_for(budget, emitted, (i + 1) as nat);
                if si.2 < budget {
                    assert(k1 == k0 + 1);
                    assert(Seq::new(k1, |j: int| diagnostic_text(t[j])) =~= Seq::new(
                        k0,
                        |j: int| diagnostic_text(t0[j]),
                    ).push(diagnostic_text(msgs[i as int])));
                } else {
                    assert(k1 == k0);
                    assert(Seq::new(k1, |j: int| diagnostic_text(t[j])) =~= Seq::new(
                        k0,
                        |j: int| diagnostic_text(t0[j]),
                    ));
                }
            }
        }
        i = i + 1;
    }
    proof {
        assert(msgs.take(n as int) =~= msgs);
    }
    Ok(())
}

/// The diagnostic of an observation whose index does not fit a reference.
pub open spec fn index_overflow_text(label: Seq<char>, packet: u64) -> Seq<char> {
    label + " observation index overflow on packet "@ + decimal(packet as nat)
}

/// The result of a step, without its value.
pub open spec fn without_value<T>(r: Result<T, AnalysisError>) -> Result<(), AnalysisError> {
    match r {
        Ok(_) => Ok(()),
        Err(e) => Err(e),
    }
}

/// Decides on the `index`-th observation a parser (named `label`) gave on `packet`: an
/// incomplete observation makes the data partial; an index that fits the reference is
/// returned; one that does not makes the data partial and is reported, and the observation
/// is skipped.
pub fn observation_index<W: LineSink>(
    index: usize,
    complete: bool,
    label: &str,
    packet: u64,
    had_partial_data: &mut bool,
    emitter: &mut DiagnosticEmitter<W>,
) -> (r: Result<Option<u32>, AnalysisError>)
    ensures
        index <= u32::MAX ==> r == Ok::<Option<u32>, AnalysisError>(Some(index as u32))
            && *final(had_partial_data) == (*old(had_partial_data) || !complete) && *final(emitter) == *old(emitter),
        index > u32::MAX ==> *final(had_partial_data) && (r matches Ok(x) ==> x is None) && analysis_diagnostic_emitted(
            *old(emitter),
            *final(emitter),
            index_overflow_text(label@, packet),
            without_value(r),
        ),
{
    if !complete {
        *had_partial_data = true;
    }
    if index <= u32::MAX as usize {
        return Ok(Some(index as u32));
    }
    *had_partial_data = true;
    let mut m = String::from_str(label);
    m.append(" observation index overflow on packet ");
    push_decimal(&mut m, packet as u128);
    proof {
        assert(m@ =~= index_overflow_text(label@, packet));
    }
    match emit_analysis_diagnostic(emitter, m.as_str()) {
        Ok(()) => Ok(None),
        Err(e) => Err(e),
    }
}

/// The fatal error of an observation that could not be built.
pub open spec fn construction_failure_text(label: Seq<char>, packet: u64, error: Seq<char>) -> Seq<char> {
    label + " observation construction failed on packet "@ + decimal(packet as nat) + ": "@ + error
}

/// The fatal error of a parser's observation on `packet` that could not be built.
pub fn observation_construction_failure(label: &str, packet: u64, error: &str) -> (e: AnalysisError)
    ensures
        e matches AnalysisError::Fatal(m) && m@ == construction_failure_text(label@, packet, error@),
{
    let mut m = String::from_str(label);
    m.append(" observation construction failed on packet ");
    push_decimal(&mut m, packet as u128);
    m.append(": ");
    m.append(error);
    proof {
        assert(m@ =~= construction_failure_text(label@, packet, error@));
    }
    AnalysisError::Fatal(m)
}

/// The fatal error of a packet whose flow association could not be recorded.
pub open spec fn association_failure_text(packet: u64, error: Seq<char>) -> Seq<char> {
    "fatal flow-observation association invariant failure on packet "@ + decimal(packet as nat) + ": "@ + error
}

/// The fatal error of `packet` whose flow association could not be recorded.
pub fn association_failure(packet: u64, error: &str) -> (e: AnalysisError)
    ensures
        e matches AnalysisError::Fatal(m) && m@ == association_failure_text(packet, error@),
{
    let mut m = String::from_str("fatal flow-observation association invariant failure on packet ");
    push_decimal(&mut m, packet as u128);
    m.append(": ");
    m.append(error);
    proof {
        assert(m@ =~= association_failure_text(packet, error@));
    }
    AnalysisError::Fatal(m)
}

// ----- concluding the analysis -----

/// The flow at `i` does not come after the flow at `i + 1` by ordinal.
pub open spec fn ordinal_step(s: Seq<FlowRecord>, i: int) -> bool {
    s[i].reference.ordinal <= s[i + 1].reference.ordinal
}

/// The flows are ordered by ordinal.
pub open spec fn flows_by_ordinal(s: Seq<FlowRecord>) -> bool {
    forall|i: int| 0 <= i < s.len() - 1 ==> #[trigger] ordinal_step(s, i)
}

/// Whether a flow has ordinal `k`.
pub open spec fn with_ordinal(k: u64) -> spec_fn(FlowRecord) -> bool {
    |f: FlowRecord| f.reference.ordinal == k
}

/// Ordinals never decrease from one position to any later one.
proof fn lemma_ordinals_nondecreasing(s: Seq<FlowRecord>, i: int, m: int)
    requires
        flows_by_ordinal(s),
        0 <= i <= m < s.len(),
    ensures
        s[i].reference.ordinal <= s[m].reference.ordinal,
    decreases m - i,
{
    if i < m {
        assert(ordinal_step(s, i));
        lemma_ordinals_nondecreasing(s, i + 1, m);
    }
}

/// Inserting a flow before every flow of greater ordinal, and after the rest, appends it to
/// the flows of its ordinal and leaves those of other ordinals as they were.
proof fn lemma_insert_keeps_ordinal_order(a: Seq<FlowRecord>, j: int, f: FlowRecord, k: u64)
    requires
        0 <= j <= a.len(),
        forall|m: int| j <= m < a.len() ==> f.reference.ordinal < (#[trigger] a[m]).reference.ordinal,
    ensures
        a.insert(j, f).filter(with_ordinal(k)) == (if f.reference.ordinal == k {
            a.filter(with_ordinal(k)).push(f)
        } else {
            a.filter(with_ordinal(k))
        }),
{
    broadcast use Seq::filter_distributes_over_add, Seq::lemma_filter_push;

    let p = with_ordinal(k);
    let t = a.take(j);
    let u = a.skip(j);
    assert(a.insert(j, f) =~= (t + seq![f]) + u);
    assert(a =~= t + u);
    assert(seq![f] =~= Seq::<FlowRecord>::empty().push(f));
    assert(Seq::<FlowRecord>::empty().filter(p) =~= Seq::<FlowRecord>::empty()) by {
        reveal(Seq::filter);
    }
    assert((t + seq![f]).filter(p) == t.filter(p) + seq![f].filter(p));
    assert(((t + seq![f]) + u).filter(p) == (t + seq![f]).filter(p) + u.filter(p));
    assert((t + u).filter(p) == t.filter(p) + u.filter(p));
    if f.reference.ordinal == k {
        if u.filter(p).len() > 0 {
            let x = u.filter(p)[0];
            u.lemma_filter_pred(p, 0);
            assert(p(x));
            assert(u.filter(p).contains(x));
            u.lemma_filter_contains_rev(p, x);
            assert(u.contains(x));
            let m = choose|m: int| 0 <= m < u.len() && u[m] == x;
            assert(a[j + m] == x);
            assert(false);
        }
        assert(u.filter(p) =~= Seq::<FlowRecord>::empty());
        assert(((t + seq![f]) + u).filter(p) =~= (t + u).filter(p).push(f));
    } else {
        assert(((t + seq![f]) + u).filter(p) =~= (t + u).filter(p));
    }
}

/// Orders flows by ordinal, keeping flows with equal ordinals in their original order.
pub fn sort_flows_by_ordinal(flows: Vec<FlowRecord>) -> (r: Vec<FlowRecord>)
    ensures
        r@.to_multiset() == flows@.to_multiset(),
        r@.len() == flows@.len(),
        flows_by_ordinal(r@),
        forall|k: u64| #[trigger] r@.filter(with_ordinal(k)) == flows@.filter(with_ordinal(k)),
{
    broadcast use Seq::lemma_filter_push;


    let ghost all = flows@;
    let mut rest = flows;
    let mut out: Vec<FlowRecord> = Vec::new();
    proof {
        assert(out@.to_multiset() =~= Multiset::<FlowRecord>::empty());
        assert(out@.to_multiset().add(rest@.to_multiset()) =~= rest@.to_multiset());
        assert(rest@ =~= all.skip(0));
        assert forall|k: u64| #[trigger] out@.filter(with_ordinal(k)) == all.take(0).filter(with_ordinal(k)) by {
            assert(out@ =~= all.take(0));
        }
    }
    while rest.len() > 0
        invariant
            out@.to_multiset().add(rest@.to_multiset()) == all.to_multiset(),
            out@.len() + rest@.len() == all.len(),
            flows_by_ordinal(out@),
            rest@ == all.skip(out@.len() as int),
            forall|k: u64| #[trigger] out@.filter(with_ordinal(k)) == all.take(out@.len() as int).filter(with_ordinal(k)),
        decreases rest@.len(),
    {
        let ghost before_rest = rest@;
        let ghost before_out = out@;
        let f = rest.remove(0);
        let n = out.len();
        let mut j: usize = 0;
        loop
            invariant
                j <= n,
                n == out@.len(),
                out@ == before_out,
                forall|m: int| 0 <= m < j ==> (#[trigger] out@[m]).reference.ordinal <= f.reference.ordinal,
            ensures
                j <= n,
                forall|m: int| 0 <= m < j ==> (#[trigger] out@[m]).reference.ordinal <= f.reference.ordinal,
                j < n ==> f.reference.ordinal < out@[j as int].reference.ordinal,
            decreases n - j,
        {
            if j >= n {
                break;
            }
            if f.reference.ordinal < out[j].reference.ordinal {
                break;
            }
            j = j + 1;
        }
        out.insert(j, f);
        proof {
            assert(before_rest.remove(0).to_multiset() == before_rest.to_multiset().remove(before_rest[0]));
            assert(before_out.insert(j as int, f).to_multiset() == before_out.to_multiset().insert(f));
            assert(out@.to_multiset().add(rest@.to_multiset()) =~= all.to_multiset());
            assert forall|i: int| 0 <= i < out@.len() - 1 implies #[trigger] ordinal_step(out@, i) by {
                if i + 1 < j {
                    assert(out@[i] == before_out[i]);
                    assert(out@[i + 1] == before_out[i + 1]);
                    assert(ordinal_step(before_out, i));
                } else if i + 1 == j {
                    assert(out@[i] == before_out[i]);
                    assert(out@[i + 1] == f);
                } else if i == j {
                    assert(out@[i] == f);
                    assert(out@[i + 1] == before_out[i]);
                } else {
                    assert(out@[i] == before_out[i - 1]);
                    assert(out@[i + 1] == before_out[i]);
                    assert(ordinal_step(before_out, i - 1));
                }
            }
            let c = before_out.len() as int;
            assert(f == all[c]);
            assert(rest@ =~= all.skip(c + 1));
            assert(all.take(c + 1) =~= all.take(c).push(f));
            assert forall|m: int| j <= m < before_out.len() implies f.reference.ordinal < (#[trigger] before_out[m]).reference.ordinal by {
                lemma_ordinals_nondecreasing(before_out, j as int, m);
            }
            assert forall|k: u64| #[trigger] out@.filter(with_ordinal(k)) == all.take(out@.len() as int).filter(with_ordinal(k)) by {
                lemma_insert_keeps_ordinal_order(before_out, j as int, f, k);
                all.take(c).lemma_filter_push(f, with_ordinal(k));
                assert(all.take(c).push(f).filter(with_ordinal(k)) == (if with_ordinal(k)(f) {
                    all.take(c).filter(with_ordinal(k)).push(f)
                } else {
                    all.take(c).filter(with_ordinal(k))
                }));
            }
        }
    }
    assert(rest@.to_multiset() =~= Multiset::<FlowRecord>::empty());
    assert(out@.to_multiset() =~= out@.to_multiset().add(rest@.to_multiset()));
    assert(all.take(all.len() as int) =~= all);
    out
}

/// The outcome of a run without detectors: complete, with nothing recorded.
pub open spec fn empty_outcome(o: DetectionRunOutcome) -> bool {
    &&& o.completion == DetectionInputCompleteness::Complete
    &&& o.detector_executions@.len() == 0
    &&& o.correlator_executions@.len() == 0
    &&& o.findings@.len() == 0
    &&& o.evidence@.len() == 0
    &&& o.diagnostics@.len() == 0
}

/// `o` is the outcome of a run of the built-in detectors and correlator, with no
/// configuration and the default limits, over input made of these parts.
pub open spec fn builtin_run_outcome(
    o: DetectionRunOutcome,
    flows: Seq<FlowRecord>,
    observations: Seq<ProtocolObservation>,
    completeness: DetectionInputCompleteness,
    limitations: Seq<DetectionInputLimitation>,
) -> bool {
    exists|
        d: DetectorRegistry<BuiltinDetector>,
        c: CorrelationRegistry<PossibleC2MultiSignalCorrelator>,
        inp: DetectionInput,
    |
        #![trigger builtin_registries(d, c), inp.flows_view()]
        builtin_registries(d, c) && inp.flows_view() == flows && inp.observations_view() == observations
            && inp.completeness_view() == completeness && inp.limitations_view() == limitations
            && correlated_outcome_consistent(
            o,
            d.spec_detectors(),
            c.spec_correlators(),
            Seq::empty(),
            inp,
            default_parts(),
        )
}

/// Over input made of these parts, the built-in detectors, without configuration, report
/// drafts that the engine accepts whenever their evaluation succeeds.
pub open spec fn builtin_runs_acceptable(
    flows: Seq<FlowRecord>,
    observations: Seq<ProtocolObservation>,
    completeness: DetectionInputCompleteness,
    limitations: Seq<DetectionInputLimitation>,
) -> bool {
    forall|
        d: DetectorRegistry<BuiltinDetector>,
        c: CorrelationRegistry<PossibleC2MultiSignalCorrelator>,
        inp: DetectionInput,
    |
        #![trigger builtin_registries(d, c), inp.flows_view()]
        builtin_registries(d, c) && inp.flows_view() == flows && inp.observations_view() == observations
            && inp.completeness_view() == completeness && inp.limitations_view() == limitations
            ==> runs_acceptable(d.spec_detectors(), Seq::empty(), inp)
}

/// What the detection step of an analysis gives: without detectors, an empty outcome; with
/// them, input that is not valid is a fatal error naming the input error, a failed run a
/// fatal error naming the engine error, and a successful run the built-in outcome.
pub open spec fn detection_step(
    r: Result<DetectionRunOutcome, AnalysisError>,
    flows: Seq<FlowRecord>,
    observations: Seq<ProtocolObservation>,
    completeness: DetectionInputCompleteness,
    limitations: Seq<DetectionInputLimitation>,
    run_detectors: bool,
) -> bool {
    &&& !run_detectors ==> (r matches Ok(o) && empty_outcome(o))
    &&& run_detectors && !valid_input_parts(flows, observations, completeness, limitations) ==> (r matches Err(
        AnalysisError::Fatal(m),
    ) && exists|e: DetectionInputError| m@ == "failed to construct detection input: "@ + input_error_text(e))
    &&& run_detectors && valid_input_parts(flows, observations, completeness, limitations) ==> (
    r matches Err(AnalysisError::Fatal(m)) ==> exists|e: DetectionEngineError|
        m@ == "detection execution failed: "@ + engine_error_text(e))
    &&& run_detectors && valid_input_parts(flows, observations, completeness, limitations) ==> (
    r matches Ok(o) ==> builtin_run_outcome(o, flows, observations, completeness, limitations))
    &&& run_detectors && valid_input_parts(flows, observations, completeness, limitations) && builtin_runs_acceptable(
        flows,
        observations,
        completeness,
        limitations,
    ) ==> r is Ok
    &&& r matches Err(e) ==> e is Fatal
}

/// Runs the built-in detectors and correlator over the analysis input, or records that
/// none ran.
pub fn run_detection_step(
    flows: &[FlowRecord],
    observations: &[ProtocolObservation],
    completeness: DetectionInputCompleteness,
    limitations: &[DetectionInputLimitation],
    run_detectors: bool,
) -> (r: Result<DetectionRunOutcome, AnalysisError>)
    ensures
        detection_step(r, flows@, observations@, completeness, limitations@, run_detectors),
{
    if !run_detectors {
        return Ok(
            DetectionRunOutcome {
                completion: DetectionInputCompleteness::Complete,
                detector_executions: Vec::new(),
                correlator_executions: Vec::new(),
                findings: Vec::new(),
                evidence: Vec::new(),
                diagnostics: Vec::new(),
            },
        );
    }
    let input = match DetectionInput::try_new(flows, observations, completeness, limitations) {
        Ok(inp) => inp,
        Err(e) => {
            let mut m = String::from_str("failed to construct detection input: ");
            m.append(e.describe().as_str());
            assert(m@ == "failed to construct detection input: "@ + input_error_text(e));
            return Err(AnalysisError::Fatal(m));
        },
    };
    let (detectors, correlators) = match build_builtin_registries() {
        Ok(r) => r,
        Err(e) => {
            return Err(e);
        },
    };
    let configurations = DetectorConfigurations::new();
    let limits = DetectionLimits::default_limits();
    proof {
        assert(configurations@ =~= Seq::empty());
        assert(builtin_registries(detectors, correlators));
        assert(input.flows_view() == flows@);
        let ds = detectors.spec_detectors();
        assert forall|j: int| 0 <= j < ds.len() implies {
            let c = crate::engine::effective_config(configurations@, (#[trigger] ds[j]).spec_metadata().spec_id());
            c.1.len() <= limits.parts().1 as nat && (c.0 ==> ds[j].spec_params_valid(c.1))
        } by {
            assert(ds[j].spec_params_valid(Seq::empty()));
        }
        assert(crate::engine::preflight_ok(ds, configurations@, limits.parts().1 as nat));
    }
    match execute_detection_with_correlators(&detectors, &correlators, &input, &configurations, &limits) {
        Ok(o) => {
            proof {
                assert(configurations@ =~= Seq::empty());
                assert(builtin_registries(detectors, correlators));
                assert(input.flows_view() == flows@);
            }
            Ok(o)
        },
        Err(e) => {
            let mut m = String::from_str("detection execution failed: ");
            m.append(e.describe().as_str());
            assert(m@ == "detection execution failed: "@ + engine_error_text(e));
            Err(AnalysisError::Fatal(m))
        },
    }
}

/// The detection outcome of an analysis result, or its error.
pub open spec fn detection_part(r: Result<AnalysisResult, AnalysisError>) -> Result<DetectionRunOutcome, AnalysisError> {
    match r {
        Ok(res) => Ok(res.detection_outcome),
        Err(e) => Err(e),
    }
}

/// The input limitations an analysis records for this reader outcome and these budgets.
pub open spec fn analysis_limitations(
    o: CaptureReadOutcome,
    observation_budget: bool,
    flow_budget: bool,
) -> Seq<DetectionInputLimitation> {
    input_limitations(physically_truncated(o), reached_record_budget(o), observation_budget, flow_budget)
}

/// Partial exactly when some limitation is recorded.
pub open spec fn completeness_of(lims: Seq<DetectionInputLimitation>) -> DetectionInputCompleteness {
    if lims.len() == 0 {
        DetectionInputCompleteness::Complete
    } else {
        DetectionInputCompleteness::Partial
    }
}

/// Concludes an analysis once the capture is read and every flow finished: orders the flows
/// by ordinal, records the input limitations (truncation, the record budget, the observation
/// budget, the flow budget), runs detection if asked, and assembles the result.
pub fn conclude_analysis(
    reader_outcome: CaptureReadOutcome,
    total_records_processed: u64,
    flows: Vec<FlowRecord>,
    observations: Vec<ProtocolObservation>,
    observation_budget_exhausted: bool,
    flow_budget_exhausted: bool,
    had_stream_error: bool,
    had_partial_data: bool,
    run_detectors: bool,
) -> (r: Result<AnalysisResult, AnalysisError>)
    ensures
        exists|sorted: Seq<FlowRecord>|
            #![trigger flows_by_ordinal(sorted)]
            {
                let lims = analysis_limitations(reader_outcome, observation_budget_exhausted, flow_budget_exhausted);
                &&& flows_by_ordinal(sorted)
                &&& sorted.to_multiset() == flows@.to_multiset()
                &&& detection_step(
                    detection_part(r),
                    sorted,
                    observations@,
                    completeness_of(lims),
                    lims,
                    run_detectors,
                )
                &&& r matches Ok(res) ==> {
                    &&& res.reader_outcome == reader_outcome
                    &&& res.total_records_processed == total_records_processed
                    &&& res.flows@ == sorted
                    &&& res.observations@ == observations@
                    &&& res.detection_input_limitations@ == lims
                    &&& res.detection_input_completeness == completeness_of(lims)
                    &&& res.had_stream_error == had_stream_error
                    &&& res.had_partial_data == had_partial_data
                }
            },
{
    let sorted = sort_flows_by_ordinal(flows);
    let truncated = outcome_is_physically_truncated(&reader_outcome);
    let record_budget = outcome_reached_record_budget(&reader_outcome);
    let (completeness, limitations) = detection_input_limitations(
        truncated,
        record_budget,
        observation_budget_exhausted,
        flow_budget_exhausted,
    );
    let detection = run_detection_step(
        sorted.as_slice(),
        observations.as_slice(),
        completeness,
        limitations.as_slice(),
        run_detectors,
    );
    let ghost s = sorted@;
    match detection {
        Ok(detection_outcome) => {
            let res = AnalysisResult {
                reader_outcome,
                total_records_processed,
                flows: sorted,
                observations,
                detection_input_completeness: completeness,
                detection_input_limitations: limitations,
                detection_outcome,
                had_stream_error,
                had_partial_data,
            };
            assert(flows_by_ordinal(s));
            Ok(res)
        },
        Err(e) => {
            assert(flows_by_ordinal(s));
            Err(e)
        },
    }
}

} // verus!

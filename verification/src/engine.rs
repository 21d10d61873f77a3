//! Detection execution engine: preflight configuration, deterministic execution in canonical
//! detector order, transactional output acceptance, and bounded outcomes.

use vstd::prelude::*;
use crate::canonical::{drafts_canonical, sort_drafts};
use crate::config::{
    lookup_config, ConfigEntryView, ConfigView, DetectorConfig, DetectorConfigurations,
    DetectorParameters, ParameterView,
};
use crate::detector::{Detector, DetectorDraftSink, DetectorMetadata, IncompleteDataPolicy};
use crate::domain::{
    DetectorId, DetectorVersion, EvidenceDraft, EvidenceLimitation, EvidenceRecord,
    EvidenceReference, FindingDraft, FindingRecord, FindingReference, FlowReference, MitreMapping,
    MitreMappingProvenance, ObservationReference, PacketReference,
};
use crate::error::{
    DetectionEngineError, DetectionOutputError, DetectorConfigError, DetectorExecutionError,
};
use crate::flow::{FlowRecord, ProtocolObservation};
use crate::input::{evidence_limitation_of, DetectionInput, DetectionInputCompleteness, DetectionInputLimitation};
use crate::limits::DetectionLimits;
use crate::registry::{detector_ids, ids_sorted, lemma_ids_pairwise, DetectorRegistry};
use crate::correlation::{
    correlation_views, correlator_ids, CorrelationDraft, CorrelationDraftSink, CorrelationRegistry, CorrelationView,
    CorrelatorMetadata,
    FindingCorrelator,
};
use crate::provenance::{
    check_provenance, correlated_valid, provenance_owned, resolve_sources, sort_correlation_drafts, sources_resolve,
};
use crate::error::DetectorRegistryError;
use crate::text::{decimal, push_decimal};
use crate::views::{draft_views, DraftView};

verus! {

broadcast use vstd::string::group_string_axioms;

/// Execution status recorded for a detector during a detection run.
#[derive(Debug, PartialEq, Eq)]
pub enum DetectorExecutionStatus {
    /// Detector executed successfully.
    Executed,
    /// Detector was disabled by configuration.
    Disabled,
    /// Detector was skipped due to incomplete input and a skip policy.
    SkippedIncompleteData,
    /// Detector evaluation failed with an execution error.
    Failed {
        /// Failure message.
        reason: String,
    },
    /// Detector output was rejected due to engine resource limits.
    ResourceLimited,
}

impl DetectorExecutionStatus {
    /// Label of the status: the variant name, with the reason in parentheses for a failure.
    pub fn label(&self) -> (s: String)
        ensures
            s@ == (match *self {
                DetectorExecutionStatus::Executed => "Executed"@,
                DetectorExecutionStatus::Disabled => "Disabled"@,
                DetectorExecutionStatus::SkippedIncompleteData => "SkippedIncompleteData"@,
                DetectorExecutionStatus::Failed { reason } => "Failed("@ + reason@ + ")"@,
                DetectorExecutionStatus::ResourceLimited => "ResourceLimited"@,
            }),
    {
        match self {
            DetectorExecutionStatus::Executed => String::from_str("Executed"),
            DetectorExecutionStatus::Disabled => String::from_str("Disabled"),
            DetectorExecutionStatus::SkippedIncompleteData => String::from_str("SkippedIncompleteData"),
            DetectorExecutionStatus::Failed { reason } => {
                let mut s = String::from_str("Failed(");
                s.append(reason.as_str());
                s.append(")");
                s
            },
            DetectorExecutionStatus::ResourceLimited => String::from_str("ResourceLimited"),
        }
    }
}

/// Detector execution record.
#[derive(Debug, PartialEq, Eq)]
pub struct DetectorExecutionRecord {
    /// Detector identifier.
    pub detector_id: DetectorId,
    /// Detector version.
    pub detector_version: DetectorVersion,
    /// Execution status.
    pub status: DetectorExecutionStatus,
}

/// Execution status recorded for a correlator during a detection run.
#[derive(Debug, PartialEq, Eq)]
pub enum CorrelatorExecutionStatus {
    /// Correlator executed successfully.
    Executed,
    /// Correlator was skipped because primary results were partial.
    SkippedIncompleteData,
    /// Correlator was skipped because a required source detector was disabled.
    SkippedUnavailableSources,
    /// Correlator evaluation failed.
    Failed {
        /// Failure message.
        reason: String,
    },
    /// Correlator output was rejected due to engine resource limits.
    ResourceLimited,
}

impl CorrelatorExecutionStatus {
    /// Label of the status: the variant name, with the reason in parentheses for a failure.
    pub fn label(&self) -> (s: String)
        ensures
            s@ == (match *self {
                CorrelatorExecutionStatus::Executed => "Executed"@,
                CorrelatorExecutionStatus::SkippedIncompleteData => "SkippedIncompleteData"@,
                CorrelatorExecutionStatus::SkippedUnavailableSources => "SkippedUnavailableSources"@,
                CorrelatorExecutionStatus::Failed { reason } => "Failed("@ + reason@ + ")"@,
                CorrelatorExecutionStatus::ResourceLimited => "ResourceLimited"@,
            }),
    {
        match self {
            CorrelatorExecutionStatus::Executed => String::from_str("Executed"),
            CorrelatorExecutionStatus::SkippedIncompleteData => String::from_str("SkippedIncompleteData"),
            CorrelatorExecutionStatus::SkippedUnavailableSources => String::from_str("SkippedUnavailableSources"),
            CorrelatorExecutionStatus::Failed { reason } => {
                let mut s = String::from_str("Failed(");
                s.append(reason.as_str());
                s.append(")");
                s
            },
            CorrelatorExecutionStatus::ResourceLimited => String::from_str("ResourceLimited"),
        }
    }
}

/// Correlator execution record.
#[derive(Debug, PartialEq, Eq)]
pub struct CorrelatorExecutionRecord {
    /// Correlator identifier.
    pub correlator_id: DetectorId,
    /// Correlator version.
    pub correlator_version: DetectorVersion,
    /// Execution status.
    pub status: CorrelatorExecutionStatus,
}

/// Deterministic outcome produced by a detection run.
#[derive(Debug, PartialEq, Eq)]
pub struct DetectionRunOutcome {
    /// Overall run completion state.
    pub completion: DetectionInputCompleteness,
    /// One record per registered detector, in canonical order.
    pub detector_executions: Vec<DetectorExecutionRecord>,
    /// One record per registered correlator, in canonical order.
    pub correlator_executions: Vec<CorrelatorExecutionRecord>,
    /// Accepted findings, each referring to its position.
    pub findings: Vec<FindingRecord>,
    /// Accepted evidence records, each referring to its position.
    pub evidence: Vec<EvidenceRecord>,
    /// Execution diagnostics.
    pub diagnostics: Vec<String>,
}

// ----- configuration -----

/// The configuration a detector runs with: its entry, or enabled without parameters.
pub open spec fn effective_config(configs: Seq<ConfigEntryView>, id: Seq<char>) -> ConfigView {
    match lookup_config(configs, id) {
        Some(c) => c,
        None => (true, Seq::empty()),
    }
}

/// Every configuration entry names a registered detector and has few enough parameters.
pub open spec fn configs_registered(ids: Seq<Seq<char>>, configs: Seq<ConfigEntryView>, max_params: nat) -> bool {
    forall|i: int|
        0 <= i < configs.len() ==> ids.contains((#[trigger] configs[i]).0) && configs[i].1.1.len()
            <= max_params
}

/// Every enabled detector accepts its parameters, and every detector's parameters are few
/// enough.
pub open spec fn detectors_configured<D: Detector>(detectors: Seq<D>, configs: Seq<ConfigEntryView>, max_params: nat) -> bool {
    forall|j: int|
        0 <= j < detectors.len() ==> {
            let c = effective_config(configs, (#[trigger] detectors[j]).spec_metadata().spec_id());
            c.1.len() <= max_params && (c.0 ==> detectors[j].spec_params_valid(c.1))
        }
}

/// Whether the whole configuration passes preflight.
pub open spec fn preflight_ok<D: Detector>(detectors: Seq<D>, configs: Seq<ConfigEntryView>, max_params: nat) -> bool {
    configs_registered(detector_ids(detectors), configs, max_params) && detectors_configured(
        detectors,
        configs,
        max_params,
    )
}

/// The configuration entry at `i` names an unregistered detector or has too many parameters.
pub open spec fn entry_rejected(ids: Seq<Seq<char>>, configs: Seq<ConfigEntryView>, max_params: nat, i: int) -> bool {
    !(ids.contains(configs[i].0) && configs[i].1.1.len() <= max_params)
}

/// The detector at `j` has too many parameters, or is enabled and rejects its parameters.
pub open spec fn detector_rejected<D: Detector>(
    detectors: Seq<D>,
    configs: Seq<ConfigEntryView>,
    max_params: nat,
    j: int,
) -> bool {
    let c = effective_config(configs, detectors[j].spec_metadata().spec_id());
    !(c.1.len() <= max_params && (c.0 ==> detectors[j].spec_params_valid(c.1)))
}

/// `e` is the configuration error preflight reports: for the first rejected entry, that its
/// detector is unregistered or, if registered, that it has too many parameters; with every
/// entry accepted, for the first rejected detector, that it has too many parameters or else
/// the detector's own rejection of its parameters.
pub open spec fn config_rejection<D: Detector>(
    detectors: Seq<D>,
    configs: Seq<ConfigEntryView>,
    max_params: nat,
    e: DetectorConfigError,
) -> bool {
    let ids = detector_ids(detectors);
    ||| exists|i: int|
        0 <= i < configs.len() && #[trigger] entry_rejected(ids, configs, max_params, i) && (forall|t: int|
            0 <= t < i ==> !#[trigger] entry_rejected(ids, configs, max_params, t)) && (if !ids.contains(
            configs[i].0,
        ) {
            e matches DetectorConfigError::UnregisteredDetector(id) && id@ == configs[i].0
        } else {
            e matches DetectorConfigError::ParametersExceeded { count, max } && count == configs[i].1.1.len()
                && max == max_params
        })
    ||| configs_registered(ids, configs, max_params) && exists|j: int|
        0 <= j < detectors.len() && #[trigger] detector_rejected(detectors, configs, max_params, j) && (forall|
            t: int,
        | 0 <= t < j ==> !#[trigger] detector_rejected(detectors, configs, max_params, t)) && ({
            let c = effective_config(configs, detectors[j].spec_metadata().spec_id());
            if c.1.len() > max_params {
                e matches DetectorConfigError::ParametersExceeded { count, max } && count == c.1.len() && max
                    == max_params
            } else {
                detectors[j].spec_rejection(c.1, e)
            }
        })
}

/// Checks every configuration entry, then every detector's effective configuration, before
/// anything runs.
fn preflight<D: Detector>(
    registry: &DetectorRegistry<D>,
    configurations: &DetectorConfigurations,
    limits: &DetectionLimits,
) -> (r: Result<(), DetectionEngineError>)
    ensures
        r is Ok <==> preflight_ok(
            registry.spec_detectors(),
            configurations@,
            limits.parts().1 as nat,
        ),
        r matches Err(e) ==> e is Config,
        r matches Err(DetectionEngineError::Config(e)) ==> config_rejection(
            registry.spec_detectors(),
            configurations@,
            limits.parts().1 as nat,
            e,
        ),
{
    let max_params = limits.max_parameters_per_detector();
    let entries = configurations.as_slice();
    let ghost cv = configurations@;
    let n = entries.len();
    let mut i: usize = 0;
    while i < n
        invariant
            n == entries@.len(),
            i <= n,
            cv == configurations@,
            crate::config::config_entry_views(entries@) == cv,
            max_params == limits.parts().1,
            forall|k: int|
                0 <= k < i ==> registry.ids().contains((#[trigger] cv[k]).0) && cv[k].1.1.len()
                    <= max_params,
        decreases n - i,
    {
        assert(cv[i as int] == (entries@[i as int].0@, entries@[i as int].1.view_pair()));
        let id = &entries[i].0;
        proof {
            assert forall|t: int| 0 <= t < i implies !#[trigger] entry_rejected(registry.ids(), cv, max_params as nat, t) by {
                assert(registry.ids().contains(cv[t].0) && cv[t].1.1.len() <= max_params);
            }
        }
        match registry.get(id) {
            None => {
                assert(entry_rejected(registry.ids(), cv, max_params as nat, i as int));
                return Err(DetectionEngineError::Config(DetectorConfigError::UnregisteredDetector(id.duplicate())));
            },
            Some(_) => {},
        }
        let count = entries[i].1.parameters.len();
        if count > max_params {
            assert(entries[i as int].1.parameters@.len() == cv[i as int].1.1.len());
            assert(entry_rejected(registry.ids(), cv, max_params as nat, i as int));
            return Err(
                DetectionEngineError::Config(DetectorConfigError::ParametersExceeded { count, max: max_params }),
            );
        }
        i = i + 1;
    }
    let detectors = registry.detectors();
    let m = detectors.len();
    let default_cfg = DetectorConfig::enabled();
    let mut j: usize = 0;
    while j < m
        invariant
            m == detectors@.len(),
            detectors@ == registry.spec_detectors(),
            j <= m,
            cv == configurations@,
            max_params == limits.parts().1,
            default_cfg.view_pair() == (true, Seq::<ParameterView>::empty()),
            configs_registered(registry.ids(), cv, max_params as nat),
            forall|k: int|
                0 <= k < j ==> {
                    let c = effective_config(cv, (#[trigger] detectors@[k]).spec_metadata().spec_id());
                    c.1.len() <= max_params && (c.0 ==> detectors@[k].spec_params_valid(c.1))
                },
        decreases m - j,
    {
        let d = &detectors[j];
        let meta = d.metadata();
        let cfg = match configurations.get(meta.id()) {
            Some(c) => c,
            None => &default_cfg,
        };
        let count = cfg.parameters.len();
        proof {
            assert(cfg.view_pair() == effective_config(cv, meta.spec_id()));
            assert forall|t: int| 0 <= t < j implies !#[trigger] detector_rejected(
                registry.spec_detectors(),
                cv,
                max_params as nat,
                t,
            ) by {
                assert(detectors@[t] == registry.spec_detectors()[t]);
            }
        }
        if count > max_params {
            assert(detector_rejected(registry.spec_detectors(), cv, max_params as nat, j as int));
            return Err(
                DetectionEngineError::Config(DetectorConfigError::ParametersExceeded { count, max: max_params }),
            );
        }
        if cfg.enabled {
            match d.validate_parameters(&cfg.parameters) {
                Ok(()) => {},
                Err(e) => {
                    assert(detector_rejected(registry.spec_detectors(), cv, max_params as nat, j as int));
                    return Err(DetectionEngineError::Config(e));
                },
            }
        }
        j = j + 1;
    }
    Ok(())
}

} // verus!
verus! {

// ----- referential integrity -----

/// A flow of the input has this reference.
pub open spec fn flow_known(flows: Seq<FlowRecord>, f: FlowReference) -> bool {
    exists|i: int| 0 <= i < flows.len() && (#[trigger] flows[i]).reference == f
}

/// An observation of the input has this reference.
pub open spec fn observation_known(obs: Seq<ProtocolObservation>, o: ObservationReference) -> bool {
    exists|i: int| 0 <= i < obs.len() && (#[trigger] obs[i]).reference == o
}

/// The packet is the first or last packet of an input flow, or carries an input observation.
pub open spec fn packet_known(flows: Seq<FlowRecord>, obs: Seq<ProtocolObservation>, p: PacketReference) -> bool {
    ||| exists|i: int|
        0 <= i < flows.len() && ((#[trigger] flows[i]).first_packet == p || flows[i].last_packet == p)
    ||| exists|i: int| 0 <= i < obs.len() && (#[trigger] obs[i]).packet() == p
}

/// All referenced packets, flows and observations exist in the input.
pub open spec fn refs_known(
    flows: Seq<FlowRecord>,
    obs: Seq<ProtocolObservation>,
    ps: Seq<PacketReference>,
    fs: Seq<FlowReference>,
    os: Seq<ObservationReference>,
) -> bool {
    &&& forall|k: int| 0 <= k < ps.len() ==> packet_known(flows, obs, #[trigger] ps[k])
    &&& forall|k: int| 0 <= k < fs.len() ==> flow_known(flows, #[trigger] fs[k])
    &&& forall|k: int| 0 <= k < os.len() ==> observation_known(obs, #[trigger] os[k])
}

/// Every reference of a draft, in its subject and its evidence, exists in the input.
pub open spec fn draft_resolves(d: FindingDraft, flows: Seq<FlowRecord>, obs: Seq<ProtocolObservation>) -> bool {
    &&& refs_known(
        flows,
        obs,
        d.subject.packet_references@,
        d.subject.flow_references@,
        d.subject.observation_references@,
    )
    &&& forall|e: int|
        0 <= e < d.evidence@.len() ==> refs_known(
            flows,
            obs,
            (#[trigger] d.evidence@[e]).packet_references@,
            d.evidence@[e].flow_references@,
            d.evidence@[e].observation_references@,
        )
}

fn flow_exists(flows: &[FlowRecord], f: FlowReference) -> (b: bool)
    ensures
        b == flow_known(flows@, f),
{
    let n = flows.len();
    let mut i: usize = 0;
    while i < n
        invariant
            n == flows@.len(),
            i <= n,
            forall|k: int| 0 <= k < i ==> (#[trigger] flows@[k]).reference != f,
        decreases n - i,
    {
        if flows[i].reference == f {
            return true;
        }
        i = i + 1;
    }
    false
}

fn observation_exists(obs: &[ProtocolObservation], o: ObservationReference) -> (b: bool)
    ensures
        b == observation_known(obs@, o),
{
    let n = obs.len();
    let mut i: usize = 0;
    while i < n
        invariant
            n == obs@.len(),
            i <= n,
            forall|k: int| 0 <= k < i ==> (#[trigger] obs@[k]).reference != o,
        decreases n - i,
    {
        if obs[i].reference == o {
            return true;
        }
        i = i + 1;
    }
    false
}

fn packet_exists(flows: &[FlowRecord], obs: &[ProtocolObservation], p: PacketReference) -> (b: bool)
    ensures
        b == packet_known(flows@, obs@, p),
{
    let n = flows.len();
    let mut i: usize = 0;
    while i < n
        invariant
            n == flows@.len(),
            i <= n,
            forall|k: int| 0 <= k < i ==> !((#[trigger] flows@[k]).first_packet == p || flows@[k].last_packet == p),
        decreases n - i,
    {
        if flows[i].first_packet == p || flows[i].last_packet == p {
            return true;
        }
        i = i + 1;
    }
    let m = obs.len();
    let mut j: usize = 0;
    while j < m
        invariant
            m == obs@.len(),
            j <= m,
            forall|k: int| 0 <= k < j ==> (#[trigger] obs@[k]).packet() != p,
        decreases m - j,
    {
        if obs[j].reference.packet_ordinal == p.capture_record_ordinal {
            return true;
        }
        j = j + 1;
    }
    false
}

/// The first unknown reference among packets, flows and observations (checked flows first,
/// then observations, then packets), described for a diagnostic.
fn first_unknown_reference(
    flows: &[FlowRecord],
    obs: &[ProtocolObservation],
    ps: &Vec<PacketReference>,
    fs: &Vec<FlowReference>,
    os: &Vec<ObservationReference>,
    origin: &str,
) -> (r: Option<String>)
    ensures
        r is None <==> refs_known(flows@, obs@, ps@, fs@, os@),
{
    let mut k: usize = 0;
    while k < fs.len()
        invariant
            k <= fs@.len(),
            forall|t: int| 0 <= t < k ==> flow_known(flows@, #[trigger] fs@[t]),
        decreases fs@.len() - k,
    {
        if !flow_exists(flows, fs[k]) {
            let mut msg = String::from_str(origin);
            msg.append(" references unknown flow ");
            push_decimal(&mut msg, fs[k].ordinal as u128);
            return Some(msg);
        }
        k = k + 1;
    }
    let mut k: usize = 0;
    while k < os.len()
        invariant
            k <= os@.len(),
            forall|t: int| 0 <= t < fs@.len() ==> flow_known(flows@, #[trigger] fs@[t]),
            forall|t: int| 0 <= t < k ==> observation_known(obs@, #[trigger] os@[t]),
        decreases os@.len() - k,
    {
        if !observation_exists(obs, os[k]) {
            let mut msg = String::from_str(origin);
            msg.append(" references unknown observation ");
            push_decimal(&mut msg, os[k].packet_ordinal as u128);
            return Some(msg);
        }
        k = k + 1;
    }
    let mut k: usize = 0;
    while k < ps.len()
        invariant
            k <= ps@.len(),
            forall|t: int| 0 <= t < fs@.len() ==> flow_known(flows@, #[trigger] fs@[t]),
            forall|t: int| 0 <= t < os@.len() ==> observation_known(obs@, #[trigger] os@[t]),
            forall|t: int| 0 <= t < k ==> packet_known(flows@, obs@, #[trigger] ps@[t]),
        decreases ps@.len() - k,
    {
        if !packet_exists(flows, obs, ps[k]) {
            let mut msg = String::from_str(origin);
            msg.append(" references unknown packet ");
            push_decimal(&mut msg, ps[k].capture_record_ordinal as u128);
            return Some(msg);
        }
        k = k + 1;
    }
    None
}

/// Checks that every draft refers only to flows, observations and packets of the input.
fn check_references(drafts: &Vec<FindingDraft>, flows: &[FlowRecord], obs: &[ProtocolObservation]) -> (r: Result<
    (),
    DetectionOutputError,
>)
    ensures
        r is Ok <==> forall|i: int| 0 <= i < drafts@.len() ==> draft_resolves(#[trigger] drafts@[i], flows@, obs@),
        r matches Err(e) ==> e is ReferentialIntegrityError,
{
    let n = drafts.len();
    let mut i: usize = 0;
    while i < n
        invariant
            n == drafts@.len(),
            i <= n,
            forall|t: int| 0 <= t < i ==> draft_resolves(#[trigger] drafts@[t], flows@, obs@),
        decreases n - i,
    {
        let d = &drafts[i];
        match first_unknown_reference(
            flows,
            obs,
            &d.subject.packet_references,
            &d.subject.flow_references,
            &d.subject.observation_references,
            "finding subject",
        ) {
            Some(msg) => {
                return Err(DetectionOutputError::ReferentialIntegrityError(msg));
            },
            None => {},
        }
        let ne = d.evidence.len();
        let mut e: usize = 0;
        while e < ne
            invariant
                n == drafts@.len(),
                i < n,
                *d == drafts@[i as int],
                ne == d.evidence@.len(),
                e <= ne,
                forall|t: int|
                    0 <= t < e ==> refs_known(
                        flows@,
                        obs@,
                        (#[trigger] d.evidence@[t]).packet_references@,
                        d.evidence@[t].flow_references@,
                        d.evidence@[t].observation_references@,
                    ),
            decreases ne - e,
        {
            let ev = &d.evidence[e];
            match first_unknown_reference(
                flows,
                obs,
                &ev.packet_references,
                &ev.flow_references,
                &ev.observation_references,
                "evidence",
            ) {
                Some(msg) => {
                    proof {
                        assert(!refs_known(
                            flows@,
                            obs@,
                            d.evidence@[e as int].packet_references@,
                            d.evidence@[e as int].flow_references@,
                            d.evidence@[e as int].observation_references@,
                        ));
                        assert(!draft_resolves(drafts@[i as int], flows@, obs@));
                    }
                    return Err(DetectionOutputError::ReferentialIntegrityError(msg));
                },
                None => {},
            }
            e = e + 1;
        }
        i = i + 1;
    }
    Ok(())
}

// ----- incomplete data policy -----

/// Some evidence of the draft carries the limitation.
pub open spec fn draft_carries(d: FindingDraft, l: EvidenceLimitation) -> bool {
    exists|e: int| 0 <= e < d.evidence@.len() && (#[trigger] d.evidence@[e]).limitations@.contains(l)
}

/// The draft carries every input limitation in some of its evidence.
pub open spec fn draft_carries_all(d: FindingDraft, lims: Seq<DetectionInputLimitation>) -> bool {
    forall|k: int| 0 <= k < lims.len() ==> draft_carries(d, evidence_limitation_of(#[trigger] lims[k]))
}

fn carries(d: &FindingDraft, l: EvidenceLimitation) -> (b: bool)
    ensures
        b == draft_carries(*d, l),
{
    let ne = d.evidence.len();
    let mut e: usize = 0;
    while e < ne
        invariant
            ne == d.evidence@.len(),
            e <= ne,
            forall|t: int| 0 <= t < e ==> !(#[trigger] d.evidence@[t]).limitations@.contains(l),
        decreases ne - e,
    {
        let lims = &d.evidence[e].limitations;
        let m = lims.len();
        let mut k: usize = 0;
        while k < m
            invariant
                ne == d.evidence@.len(),
                e < ne,
                *lims == d.evidence@[e as int].limitations,
                m == lims@.len(),
                k <= m,
                forall|t: int| 0 <= t < k ==> lims@[t] != l,
            decreases m - k,
        {
            if lims[k] == l {
                assert(lims@.contains(l)) by {
                    assert(lims@[k as int] == l);
                }
                assert(d.evidence@[e as int].limitations@.contains(l));
                return true;
            }
            k = k + 1;
        }
        e = e + 1;
    }
    false
}

/// Checks that every draft carries every input limitation in its evidence.
fn check_policy(drafts: &Vec<FindingDraft>, limitations: &[DetectionInputLimitation]) -> (b: bool)
    ensures
        b == forall|i: int| 0 <= i < drafts@.len() ==> draft_carries_all(#[trigger] drafts@[i], limitations@),
{
    let n = drafts.len();
    let mut i: usize = 0;
    while i < n
        invariant
            n == drafts@.len(),
            i <= n,
            forall|t: int| 0 <= t < i ==> draft_carries_all(#[trigger] drafts@[t], limitations@),
        decreases n - i,
    {
        let m = limitations.len();
        let mut k: usize = 0;
        while k < m
            invariant
                m == limitations@.len(),
                n == drafts@.len(),
                i < n,
                k <= m,
                forall|t: int| 0 <= t < k ==> draft_carries(drafts@[i as int], evidence_limitation_of(#[trigger] limitations@[t])),
            decreases m - k,
        {
            if !carries(&drafts[i], limitations[k].to_evidence_limitation()) {
                assert(!draft_carries_all(drafts@[i as int], limitations@));
                return false;
            }
            k = k + 1;
        }
        i = i + 1;
    }
    true
}

// ----- duplicate identities -----

/// The drafts at `i` and `i + 1` share a subject.
pub open spec fn same_subject_at(s: Seq<FindingDraft>, i: int) -> bool {
    s[i].subject.view_parts() == s[i + 1].subject.view_parts()
}

/// Two neighbouring drafts share a subject.
pub open spec fn adjacent_duplicate(s: Seq<FindingDraft>) -> bool {
    exists|i: int| 0 <= i < s.len() - 1 && #[trigger] same_subject_at(s, i)
}

fn has_adjacent_duplicate(drafts: &Vec<FindingDraft>) -> (b: bool)
    ensures
        b == adjacent_duplicate(drafts@),
{
    let n = drafts.len();
    if n < 2 {
        return false;
    }
    let mut i: usize = 0;
    while i < n - 1
        invariant
            n == drafts@.len(),
            n >= 2,
            i <= n - 1,
            forall|t: int| 0 <= t < i ==> !#[trigger] same_subject_at(drafts@, t),
        decreases n - i,
    {
        match crate::canonical::compare_subjects(&drafts[i].subject, &drafts[i + 1].subject) {
            crate::text::Order::Equal => {
                assert(same_subject_at(drafts@, i as int));
                return true;
            },
            _ => {},
        }
        i = i + 1;
    }
    false
}

/// An accepted finding of detector `id` has the subject of one of the drafts.
pub open spec fn duplicates_accepted(drafts: Seq<FindingDraft>, findings: Seq<FindingRecord>, id: Seq<char>) -> bool {
    exists|i: int, j: int|
        0 <= i < drafts.len() && 0 <= j < findings.len() && (#[trigger] findings[j]).detector_id@ == id
            && findings[j].subject.view_parts() == (#[trigger] drafts[i]).subject.view_parts()
}

fn has_accepted_duplicate(drafts: &Vec<FindingDraft>, findings: &Vec<FindingRecord>, id: &DetectorId) -> (b: bool)
    ensures
        b == duplicates_accepted(drafts@, findings@, id@),
{
    let n = drafts.len();
    let mut i: usize = 0;
    while i < n
        invariant
            n == drafts@.len(),
            i <= n,
            forall|a: int, j: int|
                0 <= a < i && 0 <= j < findings@.len() ==> !((#[trigger] findings@[j]).detector_id@ == id@
                    && findings@[j].subject.view_parts() == (#[trigger] drafts@[a]).subject.view_parts()),
        decreases n - i,
    {
        let m = findings.len();
        let mut j: usize = 0;
        while j < m
            invariant
                n == drafts@.len(),
                i < n,
                m == findings@.len(),
                j <= m,
                forall|t: int|
                    0 <= t < j ==> !((#[trigger] findings@[t]).detector_id@ == id@
                        && findings@[t].subject.view_parts() == drafts@[i as int].subject.view_parts()),
            decreases m - j,
        {
            if findings[j].detector_id.equals(id) {
                match crate::canonical::compare_subjects(&findings[j].subject, &drafts[i].subject) {
                    crate::text::Order::Equal => {
                        assert(findings@[j as int].detector_id@ == id@);
                        assert(findings@[j as int].subject.view_parts() == drafts@[i as int].subject.view_parts());
                        return true;
                    },
                    _ => {},
                }
            }
            j = j + 1;
        }
        i = i + 1;
    }
    false
}

} // verus!
verus! {

// ----- accepted store -----

/// The evidence identifiers a finding refers to.
pub open spec fn evidence_ids_of(f: FindingRecord) -> Seq<nat> {
    f.evidence_references@.map_values(|e: EvidenceReference| e.id as nat)
}

/// The evidence identifiers of all findings, in finding order.
pub open spec fn flat_evidence_ids(fs: Seq<FindingRecord>) -> Seq<nat>
    decreases fs.len(),
{
    if fs.len() == 0 {
        Seq::empty()
    } else {
        flat_evidence_ids(fs.drop_last()) + evidence_ids_of(fs.last())
    }
}

/// `len` consecutive identifiers from `start`.
pub open spec fn id_range(start: nat, len: nat) -> Seq<nat> {
    Seq::new(len, |i: int| (start + i) as nat)
}

/// Findings and evidence records refer to their positions, and the findings refer to the
/// evidence records in order, each exactly once.
pub open spec fn store_well_formed(fs: Seq<FindingRecord>, es: Seq<EvidenceRecord>) -> bool {
    &&& forall|i: int| 0 <= i < fs.len() ==> (#[trigger] fs[i]).reference.id == i
    &&& forall|i: int| 0 <= i < es.len() ==> (#[trigger] es[i]).reference.id == i
    &&& flat_evidence_ids(fs) == id_range(0, es.len())
}

/// The evidence draft refers only to entities of the input.
pub open spec fn evidence_draft_resolves(e: EvidenceDraft, flows: Seq<FlowRecord>, obs: Seq<ProtocolObservation>) -> bool {
    refs_known(flows, obs, e.packet_references@, e.flow_references@, e.observation_references@)
}

/// The evidence record refers only to entities of the input.
pub open spec fn evidence_resolves(e: EvidenceRecord, flows: Seq<FlowRecord>, obs: Seq<ProtocolObservation>) -> bool {
    evidence_draft_resolves(e.evidence, flows, obs)
}

/// The finding's subject refers only to entities of the input.
pub open spec fn subject_resolves(f: FindingRecord, flows: Seq<FlowRecord>, obs: Seq<ProtocolObservation>) -> bool {
    refs_known(
        flows,
        obs,
        f.subject.packet_references@,
        f.subject.flow_references@,
        f.subject.observation_references@,
    )
}

/// Every finding subject and every evidence record refers only to entities of the input.
pub open spec fn store_resolves(
    fs: Seq<FindingRecord>,
    es: Seq<EvidenceRecord>,
    flows: Seq<FlowRecord>,
    obs: Seq<ProtocolObservation>,
) -> bool {
    &&& forall|i: int| 0 <= i < fs.len() ==> #[trigger] subject_resolves(fs[i], flows, obs)
    &&& forall|i: int| 0 <= i < es.len() ==> #[trigger] evidence_resolves(es[i], flows, obs)
}

/// The mappings a component's declarations yield with a provenance.
pub open spec fn declared_mappings(
    decls: Seq<crate::domain::MitreMappingDeclaration>,
    prov: crate::views::ProvenanceView,
) -> Seq<crate::views::MappingView> {
    decls.map_values(
        |d: crate::domain::MitreMappingDeclaration| (d.technique_id@, d.technique_name@, d.tactic, d.rationale@, prov),
    )
}

/// A finding record accepted from a draft of the detector with metadata `meta`.
pub open spec fn accepted_from(f: FindingRecord, d: FindingDraft, meta: DetectorMetadata) -> bool {
    &&& f.detector_id@ == meta.spec_id()
    &&& f.detector_version == meta.spec_version()
    &&& f.subject.view_parts() == d.subject.view_parts()
    &&& f.title@ == d.title@
    &&& f.summary@ == d.summary@
    &&& f.rationale@ == d.rationale@
    &&& f.severity == d.severity
    &&& f.confidence == d.confidence
    &&& f.evidence_references@.len() == d.evidence@.len()
    &&& f.source_finding_references@.len() == 0
    &&& crate::views::mapping_views(f.mitre_mappings@) == declared_mappings(
        meta.spec_declarations(),
        (true, meta.spec_id(), meta.spec_version()),
    )
}

/// The finding was accepted from the draft, each of its evidence references naming the
/// store record that holds the draft's evidence at the same position.
pub open spec fn accepted_into(f: FindingRecord, d: FindingDraft, meta: DetectorMetadata, es: Seq<EvidenceRecord>) -> bool {
    &&& accepted_from(f, d, meta)
    &&& forall|t: int|
        0 <= t < d.evidence@.len() ==> (#[trigger] f.evidence_references@[t]).id < es.len() && es[f.evidence_references@[t].id as int].evidence
            == d.evidence@[t]
}

/// Acceptance into a store carries over to any store that extends it.
proof fn lemma_accepted_into_extend(
    f: FindingRecord,
    d: FindingDraft,
    meta: DetectorMetadata,
    es: Seq<EvidenceRecord>,
    es2: Seq<EvidenceRecord>,
)
    requires
        accepted_into(f, d, meta, es),
        es.len() <= es2.len(),
        es2.take(es.len() as int) == es,
    ensures
        accepted_into(f, d, meta, es2),
{
    assert forall|t: int| 0 <= t < d.evidence@.len() implies (#[trigger] f.evidence_references@[t]).id < es2.len()
        && es2[f.evidence_references@[t].id as int].evidence == d.evidence@[t] by {
        let id = f.evidence_references@[t].id as int;
        assert(es2.take(es.len() as int)[id] == es2[id]);
    }
}

/// The mappings of a detector's declarations with detector provenance.
fn detector_mappings(meta: &DetectorMetadata) -> (v: Vec<MitreMapping>)
    ensures
        crate::views::mapping_views(v@) == declared_mappings(
            meta.spec_declarations(),
            (true, meta.spec_id(), meta.spec_version()),
        ),
{
    let decls = meta.mitre_mapping_declarations();
    let n = decls.len();
    let mut v: Vec<MitreMapping> = Vec::new();
    let mut i: usize = 0;
    while i < n
        invariant
            n == decls@.len(),
            decls@ == meta.spec_declarations(),
            i <= n,
            crate::views::mapping_views(v@) == declared_mappings(
                decls@.take(i as int),
                (true, meta.spec_id(), meta.spec_version()),
            ),
        decreases n - i,
    {
        let ghost prov = (true, meta.spec_id(), meta.spec_version());
        let ghost v0 = v@;
        let did = meta.id().duplicate();
        let m = MitreMapping::from_declaration(
            &decls[i],
            MitreMappingProvenance::DetectorDeclared { detector_id: did, detector_version: meta.version() },
        );
        assert(crate::views::provenance_view(m.provenance) == prov);
        v.push(m);
        proof {
            let dv = decls@[i as int];
            assert(crate::views::mapping_view(m) == (dv.technique_id@, dv.technique_name@, dv.tactic, dv.rationale@, prov));
            assert(decls@.take(i + 1) =~= decls@.take(i as int).push(dv));
            assert(v@ =~= v0.push(m));
            assert(crate::views::mapping_views(v@) =~= crate::views::mapping_views(v0).push(crate::views::mapping_view(m)));
            assert(declared_mappings(decls@.take(i + 1), prov) =~= declared_mappings(decls@.take(i as int), prov).push(
                (dv.technique_id@, dv.technique_name@, dv.tactic, dv.rationale@, prov),
            ));
        }
        i = i + 1;
    }
    assert(decls@.take(n as int) =~= decls@);
    v
}

/// Converts drafts into finding and evidence records with the next free identifiers and
/// appends them to the store.
fn commit_drafts(
    drafts: Vec<FindingDraft>,
    findings: &mut Vec<FindingRecord>,
    evidence: &mut Vec<EvidenceRecord>,
    meta: &DetectorMetadata,
    Ghost(flows): Ghost<Seq<FlowRecord>>,
    Ghost(obs): Ghost<Seq<ProtocolObservation>>,
)
    requires
        store_well_formed(old(findings)@, old(evidence)@),
        store_resolves(old(findings)@, old(evidence)@, flows, obs),
        forall|i: int| 0 <= i < drafts@.len() ==> draft_resolves(#[trigger] drafts@[i], flows, obs),
        old(findings)@.len() + drafts@.len() <= crate::limits::HARD_MAX_TOTAL_FINDINGS,
        old(evidence)@.len() + crate::detector::total_evidence(drafts@) <= crate::limits::HARD_MAX_TOTAL_EVIDENCE,
    ensures
        store_well_formed(final(findings)@, final(evidence)@),
        store_resolves(final(findings)@, final(evidence)@, flows, obs),
        final(findings)@.len() == old(findings)@.len() + drafts@.len(),
        final(evidence)@.len() == old(evidence)@.len() + crate::detector::total_evidence(drafts@),
        final(findings)@.take(old(findings)@.len() as int) == old(findings)@,
        final(evidence)@.take(old(evidence)@.len() as int) == old(evidence)@,
        forall|i: int|
            0 <= i < drafts@.len() ==> accepted_into(
                #[trigger] final(findings)@[old(findings)@.len() + i],
                drafts@[i],
                *meta,
                final(evidence)@,
            ),
{
    let ghost f0 = findings@;
    let ghost e0 = evidence@;
    let ghost ds = drafts@;
    let n = drafts.len();
    let mut rest = drafts;
    let mut i: usize = 0;
    assert(ds.take(0) =~= Seq::<FindingDraft>::empty());
    assert(ds.skip(0) =~= ds);
    assert(findings@.take(f0.len() as int) =~= f0);
    assert(evidence@.take(e0.len() as int) =~= e0);
    while i < n
        invariant
            n == ds.len(),
            i <= n,
            rest@ == ds.skip(i as int),
            store_well_formed(findings@, evidence@),
            store_resolves(findings@, evidence@, flows, obs),
            forall|k: int| 0 <= k < ds.len() ==> draft_resolves(#[trigger] ds[k], flows, obs),
            findings@.len() == f0.len() + i,
            evidence@.len() == e0.len() + crate::detector::total_evidence(ds.take(i as int)),
            f0.len() + n <= crate::limits::HARD_MAX_TOTAL_FINDINGS,
            e0.len() + crate::detector::total_evidence(ds) <= crate::limits::HARD_MAX_TOTAL_EVIDENCE,
            findings@.take(f0.len() as int) == f0,
            evidence@.take(e0.len() as int) == e0,
            forall|k: int| 0 <= k < i ==> accepted_into(#[trigger] findings@[f0.len() + k], ds[k], *meta, evidence@),
        decreases n - i,
    {
        proof {
            crate::detector::lemma_total_evidence_prefix(ds, i as int + 1);
            assert(ds.take(i + 1).drop_last() =~= ds.take(i as int));
            assert(ds.take(i + 1).last() == ds[i as int]);
        }
        let ghost fprev = findings@;
        let ghost eprev = evidence@;
        let d = rest.remove(0);
        assert(d == ds[i as int]);
        assert(rest@ =~= ds.skip(i + 1));
        let FindingDraft { subject, title, summary, rationale, severity, confidence, evidence: evs, mitre_mappings: _ } = d;
        let ghost evs0 = evs@;
        assert(draft_resolves(ds[i as int], flows, obs));
        assert forall|t: int| 0 <= t < evs0.len() implies #[trigger] evidence_draft_resolves(evs0[t], flows, obs) by {
            assert(evs0[t] == ds[i as int].evidence@[t]);
        }
        let base = evidence.len();
        let k_total = evs.len();
        let mut refs: Vec<EvidenceReference> = Vec::new();
        let mut evs_rest = evs;
        let mut q: usize = 0;
        while q < k_total
            invariant
                k_total == evs0.len(),
                q <= k_total,
                evs_rest@ == evs0.skip(q as int),
                base == eprev.len(),
                base + k_total <= crate::limits::HARD_MAX_TOTAL_EVIDENCE,
                evidence@.len() == base + q,
                evidence@.take(base as int) == eprev,
                forall|t: int| 0 <= t < evidence@.len() ==> (#[trigger] evidence@[t]).reference.id == t,
                forall|t: int| 0 <= t < evidence@.len() ==> #[trigger] evidence_resolves(evidence@[t], flows, obs),
                forall|t: int| 0 <= t < evs0.len() ==> #[trigger] evidence_draft_resolves(evs0[t], flows, obs),
                refs@.map_values(|e: EvidenceReference| e.id as nat) == id_range(base as nat, q as nat),
                forall|t: int| 0 <= t < q ==> (#[trigger] evidence@[base + t]).evidence == evs0[t],
            decreases k_total - q,
        {
            let ev = evs_rest.remove(0);
            assert(ev == evs0[q as int]);
            assert(evs_rest@ =~= evs0.skip(q + 1));
            let r = EvidenceReference { id: evidence.len() as u64 };
            let ghost eb = evidence@;
            let ghost refs0 = refs@;
            evidence.push(EvidenceRecord { reference: r, evidence: ev });
            refs.push(r);
            q = q + 1;
            proof {
                assert(r.id as nat == base + q - 1);
                assert(refs@ =~= refs0.push(r));
                assert(refs@.map_values(|e: EvidenceReference| e.id as nat) =~= refs0.map_values(
                    |e: EvidenceReference| e.id as nat,
                ).push(r.id as nat));
                assert(id_range(base as nat, q as nat) =~= id_range(base as nat, (q - 1) as nat).push(
                    (base + q - 1) as nat,
                ));
            }
            assert(evidence@.take(base as int) =~= eprev) by {
                assert(eb.take(base as int) == eprev);
            }
            assert(evidence_resolves(evidence@[evidence@.len() - 1], flows, obs)) by {
                assert(evidence_draft_resolves(evs0[q - 1], flows, obs));
            }
            assert forall|t: int| 0 <= t < evidence@.len() implies #[trigger] evidence_resolves(evidence@[t], flows, obs) by {
                if t < evidence@.len() - 1 {
                    assert(evidence@[t] == eb[t]);
                }
            }
            assert forall|t: int| 0 <= t < q implies (#[trigger] evidence@[base + t]).evidence == evs0[t] by {
                if t < q - 1 {
                    assert(evidence@[base + t] == eb[base + t]);
                }
            }
        }
        let record = FindingRecord {
            reference: FindingReference { id: findings.len() as u64 },
            detector_id: meta.id().duplicate(),
            detector_version: meta.version(),
            subject,
            title,
            summary,
            rationale,
            severity,
            confidence,
            evidence_references: refs,
            source_finding_references: Vec::new(),
            mitre_mappings: detector_mappings(meta),
        };
        findings.push(record);
        proof {
            assert(findings@.drop_last() =~= fprev);
            assert(evidence_ids_of(findings@.last()) == id_range(base as nat, k_total as nat));
            assert(flat_evidence_ids(findings@) =~= id_range(0, evidence@.len()));
            assert(findings@.take(f0.len() as int) =~= f0) by {
                assert(fprev.take(f0.len() as int) == f0);
            }
            assert(evidence@.take(e0.len() as int) =~= e0) by {
                assert(eprev.take(e0.len() as int) == e0);
                assert(evidence@.take(base as int) == eprev);
            }
            assert forall|t: int| 0 <= t < findings@.len() implies #[trigger] subject_resolves(findings@[t], flows, obs) by {
                if t < findings@.len() - 1 {
                    assert(findings@[t] == fprev[t]);
                }
            }
            let rec = findings@[f0.len() + i];
            assert forall|t: int| 0 <= t < evs0.len() implies (#[trigger] rec.evidence_references@[t]).id == base + t by {
                assert(rec.evidence_references@.map_values(|e: EvidenceReference| e.id as nat)[t]
                    == id_range(base as nat, k_total as nat)[t]);
            }
            assert forall|k: int| 0 <= k < i + 1 implies accepted_into(
                #[trigger] findings@[f0.len() + k],
                ds[k],
                *meta,
                evidence@,
            ) by {
                if k < i {
                    assert(findings@[f0.len() + k] == fprev[f0.len() + k]);
                    assert(evidence@.take(eprev.len() as int) == eprev);
                    lemma_accepted_into_extend(fprev[f0.len() + k], ds[k], *meta, eprev, evidence@);
                } else {
                    assert(ds[i as int].evidence@ == evs0);
                }
            }
        }
        i = i + 1;
    }
    assert(ds.take(n as int) =~= ds);
}

} // verus!
verus! {

// ----- detector output acceptance -----

/// Every finding has at least one evidence reference.
pub open spec fn findings_have_evidence(fs: Seq<FindingRecord>) -> bool {
    forall|i: int| 0 <= i < fs.len() ==> (#[trigger] fs[i]).evidence_references@.len() > 0
}

/// No two findings of the same component share a subject.
pub open spec fn findings_unique(fs: Seq<FindingRecord>) -> bool {
    forall|a: int, b: int|
        0 <= a < b < fs.len() && (#[trigger] fs[a]).detector_id@ == (#[trigger] fs[b]).detector_id@
            ==> fs[a].subject.view_parts() != fs[b].subject.view_parts()
}

/// The number of evidence drafts of `drafts`, with checked arithmetic.
fn count_evidence(drafts: &Vec<FindingDraft>) -> (r: Option<usize>)
    ensures
        r matches Some(n) ==> n == crate::detector::total_evidence(drafts@),
        r is None ==> crate::detector::total_evidence(drafts@) > usize::MAX,
{
    let n = drafts.len();
    let mut total: usize = 0;
    let mut i: usize = 0;
    assert(drafts@.take(0) =~= Seq::<FindingDraft>::empty());
    while i < n
        invariant
            n == drafts@.len(),
            i <= n,
            total == crate::detector::total_evidence(drafts@.take(i as int)),
        decreases n - i,
    {
        proof {
            crate::detector::lemma_total_evidence_prefix(drafts@, i + 1);
        }
        match total.checked_add(drafts[i].evidence.len()) {
            Some(t) => {
                total = t;
            },
            None => {
                proof {
                    crate::detector::lemma_total_evidence_prefix(drafts@, i + 1);
                }
                return None;
            },
        }
        i = i + 1;
    }
    assert(drafts@.take(n as int) =~= drafts@);
    Some(total)
}

/// Whether some draft has no evidence.
fn some_draft_without_evidence(drafts: &Vec<FindingDraft>) -> (b: bool)
    ensures
        b == exists|i: int| 0 <= i < drafts@.len() && (#[trigger] drafts@[i]).evidence@.len() == 0,
{
    let n = drafts.len();
    let mut i: usize = 0;
    while i < n
        invariant
            n == drafts@.len(),
            i <= n,
            forall|t: int| 0 <= t < i ==> (#[trigger] drafts@[t]).evidence@.len() > 0,
        decreases n - i,
    {
        if drafts[i].evidence.len() == 0 {
            return true;
        }
        i = i + 1;
    }
    false
}

/// Validates a detector's drafts against the input and the accepted findings and commits
/// them when they fit the remaining budgets. `Ok(false)`: over budget, nothing committed.
///
/// In canonical draft order: on partial input, a detector that runs with limitations must
/// carry every input limitation in each finding's evidence; every reference must resolve in
/// the input; no two drafts, and no draft and an accepted finding of the same detector, may
/// share a subject; then the budgets are checked, and every finding must carry evidence.
fn accept_detector_output(
    drafts: Vec<FindingDraft>,
    input: &DetectionInput<'_>,
    meta: &DetectorMetadata,
    findings: &mut Vec<FindingRecord>,
    evidence: &mut Vec<EvidenceRecord>,
    max_findings: usize,
    max_evidence: usize,
) -> (r: Result<bool, DetectionEngineError>)
    requires
        store_well_formed(old(findings)@, old(evidence)@),
        store_resolves(old(findings)@, old(evidence)@, input.flows_view(), input.observations_view()),
        findings_have_evidence(old(findings)@),
        findings_unique(old(findings)@),
        old(findings)@.len() <= max_findings <= crate::limits::HARD_MAX_TOTAL_FINDINGS,
        old(evidence)@.len() <= max_evidence <= crate::limits::HARD_MAX_TOTAL_EVIDENCE,
    ensures
        r matches Ok(false) ==> final(findings)@ == old(findings)@ && final(evidence)@ == old(evidence)@,
        r is Ok ==> store_well_formed(final(findings)@, final(evidence)@),
        r is Ok ==> store_resolves(
            final(findings)@,
            final(evidence)@,
            input.flows_view(),
            input.observations_view(),
        ),
        r is Ok ==> findings_have_evidence(final(findings)@),
        r is Ok ==> findings_unique(final(findings)@),
        r is Ok ==> final(findings)@.len() <= max_findings && final(evidence)@.len() <= max_evidence,
        r is Ok ==> final(findings)@.take(old(findings)@.len() as int) == old(findings)@,
        r is Ok ==> final(findings)@.len() >= old(findings)@.len(),
        r is Ok ==> final(evidence)@.len() >= old(evidence)@.len() && final(evidence)@.take(
            old(evidence)@.len() as int,
        ) == old(evidence)@,
        r matches Ok(true) ==> exists|sorted: Seq<FindingDraft>|
            #![trigger drafts_canonical(sorted)]
            sorted.to_multiset() == drafts@.to_multiset() && drafts_canonical(sorted) && final(findings)@.len()
                == old(findings)@.len() + sorted.len() && forall|t: int|
                0 <= t < sorted.len() ==> accepted_into(
                    #[trigger] final(findings)@[old(findings)@.len() + t],
                    sorted[t],
                    *meta,
                    final(evidence)@,
                ),
        drafts@.len() <= max_findings - old(findings)@.len() && crate::detector::total_evidence(drafts@) <= max_evidence
            - old(evidence)@.len() ==> !(r matches Ok(false)),
        drafts@.len() <= max_findings - old(findings)@.len() && crate::detector::total_evidence(drafts@) <= max_evidence
            - old(evidence)@.len() && drafts_acceptable(drafts@, *input, *meta) && (forall|i: int|
            0 <= i < old(findings)@.len() ==> (#[trigger] old(findings)@[i]).detector_id@ != meta.spec_id())
            ==> r matches Ok(true),
        r is Ok ==> forall|i: int|
            old(findings)@.len() <= i < final(findings)@.len() ==> (#[trigger] final(findings)@[i]).detector_id@
                == meta.spec_id() && final(findings)@[i].detector_version == meta.spec_version(),
        r matches Err(e) ==> (e is Output || (e matches DetectionEngineError::ResourceLimit { resource, .. }
            && resource@ == "evidence_count_overflow"@)),
{
    let ghost raw = drafts@;
    let sorted = sort_drafts(drafts);
    proof {
        crate::detector::lemma_total_evidence_permutation(sorted@, raw);
        if drafts_acceptable(raw, *input, *meta) {
            lemma_acceptable_permutation(raw, sorted@, *input, *meta);
        }
    }
    let partial = match input.completeness() {
        DetectionInputCompleteness::Partial => true,
        DetectionInputCompleteness::Complete => false,
    };
    let with_limitations = match meta.incomplete_data_policy() {
        IncompleteDataPolicy::AllowWithLimitations => true,
        IncompleteDataPolicy::Skip => false,
    };
    if partial && with_limitations {
        if !check_policy(&sorted, input.limitations()) {
            return Err(
                DetectionEngineError::Output(
                    DetectionOutputError::IncompleteDataPolicyViolation {
                        detector_id: meta.id().duplicate(),
                        reason: "finding emitted on partial input without required input limitation evidence",
                    },
                ),
            );
        }
    }
    match check_references(&sorted, input.flows(), input.observations()) {
        Ok(()) => {},
        Err(e) => {
            return Err(DetectionEngineError::Output(e));
        },
    }
    if has_adjacent_duplicate(&sorted) || has_accepted_duplicate(&sorted, findings, meta.id()) {
        return Err(
            DetectionEngineError::Output(
                DetectionOutputError::DuplicateFindingIdentity { detector_id: meta.id().duplicate() },
            ),
        );
    }
    let new_evidence = match count_evidence(&sorted) {
        Some(n) => n,
        None => {
            return Err(
                DetectionEngineError::ResourceLimit { resource: "evidence_count_overflow", capacity: max_evidence },
            );
        },
    };
    let fits_findings = sorted.len() <= max_findings - findings.len();
    let fits_evidence = new_evidence <= max_evidence - evidence.len();
    if !fits_findings || !fits_evidence {
        return Ok(false);
    }
    if some_draft_without_evidence(&sorted) {
        return Err(DetectionEngineError::Output(DetectionOutputError::FindingWithoutEvidence));
    }
    let ghost f0 = findings@;
    let ghost ds = sorted@;
    commit_drafts(sorted, findings, evidence, meta, Ghost(input.flows_view()), Ghost(input.observations_view()));
    proof {
        assert(drafts_canonical(ds));
        assert forall|i: int| 0 <= i < findings@.len() implies (#[trigger] findings@[i]).evidence_references@.len() > 0 by {
            if i < f0.len() {
                assert(findings@.take(f0.len() as int)[i] == f0[i]);
            } else {
                let k = i - f0.len();
                assert(accepted_from(findings@[f0.len() + k], ds[k], *meta));
                assert(ds[k].evidence@.len() > 0);
            }
        }
        assert forall|i: int| f0.len() <= i < findings@.len() implies (#[trigger] findings@[i]).detector_id@
            == meta.spec_id() && findings@[i].detector_version == meta.spec_version() by {
            let k = i - f0.len();
            assert(accepted_from(findings@[f0.len() + k], ds[k], *meta));
        }
        let fs = findings@;
        assert forall|a: int, b: int|
            0 <= a < b < fs.len() && (#[trigger] fs[a]).detector_id@ == (#[trigger] fs[b]).detector_id@
                implies fs[a].subject.view_parts() != fs[b].subject.view_parts() by {
            if b < f0.len() {
                assert(fs[a] == f0[a]);
                assert(fs[b] == f0[b]);
            } else {
                let kb = b - f0.len();
                assert(accepted_from(fs[f0.len() + kb], ds[kb], *meta));
                if a < f0.len() {
                    assert(fs[a] == f0[a]);
                    if fs[a].subject.view_parts() == fs[b].subject.view_parts() {
                        assert(f0[a].detector_id@ == meta.spec_id());
                        assert(duplicates_accepted(ds, f0, meta.spec_id()));
                    }
                } else {
                    let ka = a - f0.len();
                    assert(accepted_from(fs[f0.len() + ka], ds[ka], *meta));
                    assert forall|k: int| 0 <= k < ds.len() - 1 implies !#[trigger] same_subject_at(ds, k) by {
                        if same_subject_at(ds, k) {
                            assert(adjacent_duplicate(ds));
                        }
                    }
                    crate::canonical::lemma_canonical_subjects_distinct(ds, ka, kb);
                }
            }
        }
    }
    Ok(true)
}

} // verus!
verus! {

// ----- the detection run -----

/// Whether the input is partial.
pub open spec fn input_partial(input: DetectionInput<'_>) -> bool {
    input.completeness_view() == DetectionInputCompleteness::Partial
}

/// A status that makes the run partial: a failure or a rejected output.
pub open spec fn limits_run(s: DetectorExecutionStatus) -> bool {
    s is Failed || s is ResourceLimited
}

/// Some detector failed or had its output rejected.
pub open spec fn some_run_limited(records: Seq<DetectorExecutionRecord>) -> bool {
    exists|k: int| 0 <= k < records.len() && limits_run(#[trigger] records[k].status)
}

/// The record names the detector, and its status is `Disabled` exactly when the detector's
/// configuration disables it, and `SkippedIncompleteData` exactly when it is enabled, the
/// input is partial and the detector's policy is to skip.
pub open spec fn record_consistent<D: Detector>(
    rec: DetectorExecutionRecord,
    d: D,
    configs: Seq<ConfigEntryView>,
    partial: bool,
) -> bool {
    let meta = d.spec_metadata();
    let enabled = effective_config(configs, meta.spec_id()).0;
    &&& rec.detector_id@ == meta.spec_id()
    &&& rec.detector_version == meta.spec_version()
    &&& (rec.status is Disabled <==> !enabled)
    &&& (rec.status is SkippedIncompleteData <==> enabled && partial && meta.spec_policy()
        == IncompleteDataPolicy::Skip)
}

/// The finding was produced by the detector of this record, which executed.
pub open spec fn produced_by(f: FindingRecord, rec: DetectorExecutionRecord) -> bool {
    &&& f.detector_id@ == rec.detector_id@
    &&& f.detector_version == rec.detector_version
    &&& rec.status is Executed
}

/// Drafts a detector may report on `input`: where the input is partial and the detector runs
/// on partial input, each carries every input limitation; each refers only to input entities
/// and has evidence; and no two share a subject.
pub open spec fn drafts_acceptable(raw: Seq<FindingDraft>, input: DetectionInput<'_>, meta: DetectorMetadata) -> bool {
    &&& (input_partial(input) && meta.spec_policy() == IncompleteDataPolicy::AllowWithLimitations) ==> forall|i: int|
        0 <= i < raw.len() ==> draft_carries_all(#[trigger] raw[i], input.limitations_view())
    &&& forall|i: int| 0 <= i < raw.len() ==> draft_resolves(#[trigger] raw[i], input.flows_view(), input.observations_view())
    &&& forall|i: int| 0 <= i < raw.len() ==> (#[trigger] raw[i]).evidence@.len() > 0
    &&& forall|i: int, j: int|
        0 <= i < j < raw.len() ==> (#[trigger] raw[i]).subject.view_parts() != (#[trigger] raw[j]).subject.view_parts()
}

/// An element of a reordering is an element of the original.
pub(crate) proof fn lemma_permutation_member(a: Seq<FindingDraft>, b: Seq<FindingDraft>, i: int) -> (k: int)
    requires
        a.to_multiset() == b.to_multiset(),
        0 <= i < b.len(),
    ensures
        0 <= k < a.len(),
        a[k] == b[i],
{
    broadcast use {vstd::seq_lib::group_to_multiset_ensures, vstd::multiset::group_multiset_axioms};

    assert(b.contains(b[i]));
    assert(b.to_multiset().contains(b[i]));
    assert(a.to_multiset().contains(b[i]));
    assert(a.contains(b[i]));
    choose|k: int| 0 <= k < a.len() && a[k] == b[i]
}

/// Acceptable drafts stay acceptable in any order, and no two neighbours then share a subject.
proof fn lemma_acceptable_permutation(
    raw: Seq<FindingDraft>,
    sorted: Seq<FindingDraft>,
    input: DetectionInput<'_>,
    meta: DetectorMetadata,
)
    requires
        raw.to_multiset() == sorted.to_multiset(),
        drafts_acceptable(raw, input, meta),
    ensures
        (input_partial(input) && meta.spec_policy() == IncompleteDataPolicy::AllowWithLimitations) ==> forall|i: int|
            0 <= i < sorted.len() ==> draft_carries_all(#[trigger] sorted[i], input.limitations_view()),
        forall|i: int| 0 <= i < sorted.len() ==> draft_resolves(#[trigger] sorted[i], input.flows_view(), input.observations_view()),
        forall|i: int| 0 <= i < sorted.len() ==> (#[trigger] sorted[i]).evidence@.len() > 0,
        !adjacent_duplicate(sorted),
{
    broadcast use {vstd::seq_lib::group_to_multiset_ensures, vstd::multiset::group_multiset_axioms};

    assert forall|i: int| 0 <= i < sorted.len() implies draft_resolves(
        #[trigger] sorted[i],
        input.flows_view(),
        input.observations_view(),
    ) && sorted[i].evidence@.len() > 0 && ((input_partial(input) && meta.spec_policy()
        == IncompleteDataPolicy::AllowWithLimitations) ==> draft_carries_all(sorted[i], input.limitations_view())) by {
        let k = lemma_permutation_member(raw, sorted, i);
        assert(raw[k] == sorted[i]);
    }
    if adjacent_duplicate(sorted) {
        let i = choose|i: int| 0 <= i < sorted.len() - 1 && #[trigger] same_subject_at(sorted, i);
        let x = sorted[i];
        let y = sorted[i + 1];
        let a = lemma_permutation_member(raw, sorted, i);
        if x != y {
            let b = lemma_permutation_member(raw, sorted, i + 1);
            assert(a != b);
            if a < b {
                assert(raw[a].subject.view_parts() != raw[b].subject.view_parts());
            } else {
                assert(raw[b].subject.view_parts() != raw[a].subject.view_parts());
            }
        } else {
            let sr = sorted.remove(i);
            assert(sr[i] == y);
            assert(sr.to_multiset() == sorted.to_multiset().remove(x));
            let rr = raw.remove(a);
            assert(rr.to_multiset() == raw.to_multiset().remove(x));
            assert(sr.contains(x));
            assert(sr.to_multiset().contains(x));
            assert(rr.to_multiset().contains(x));
            assert(rr.contains(x));
            let c = choose|c: int| 0 <= c < rr.len() && rr[c] == x;
            let b = if c < a { c } else { c + 1 };
            assert(raw[b] == rr[c]);
            assert(a != b);
            if a < b {
                assert(raw[a].subject.view_parts() != raw[b].subject.view_parts());
            } else {
                assert(raw[b].subject.view_parts() != raw[a].subject.view_parts());
            }
        }
    }
}

/// Every detector that runs reports, whenever its evaluation succeeds, drafts it may report.
pub open spec fn runs_acceptable<D: Detector>(
    detectors: Seq<D>,
    configs: Seq<ConfigEntryView>,
    input: DetectionInput<'_>,
) -> bool {
    forall|k: int, raw: Seq<FindingDraft>, fb: nat, eb: nat|
        #![trigger detectors[k].spec_succeeds(input, effective_config(configs, detectors[k].spec_metadata().spec_id()).1, Seq::empty(), fb, eb), draft_views(raw)]
        0 <= k < detectors.len() && detector_runs(detectors[k], configs, input_partial(input))
            && detectors[k].spec_succeeds(
            input,
            effective_config(configs, detectors[k].spec_metadata().spec_id()).1,
            Seq::empty(),
            fb,
            eb,
        ) && draft_views(raw) == detectors[k].spec_drafts(
            input,
            effective_config(configs, detectors[k].spec_metadata().spec_id()).1,
        ) ==> drafts_acceptable(raw, input, detectors[k].spec_metadata())
}

/// The evidence records the findings before position `p` refer to.
pub open spec fn evidence_before(fs: Seq<FindingRecord>, p: int) -> nat {
    flat_evidence_ids(fs.take(p)).len()
}

/// The detector runs: its configuration enables it, and it does not skip partial input.
pub open spec fn detector_runs<D: Detector>(d: D, configs: Seq<ConfigEntryView>, partial: bool) -> bool {
    let meta = d.spec_metadata();
    effective_config(configs, meta.spec_id()).0 && !(partial && meta.spec_policy() == IncompleteDataPolicy::Skip)
}

/// The findings from `start` to `end` are drafts with these views, put in canonical order and
/// accepted as findings of the component with metadata `meta`.
pub open spec fn block_from_drafts(
    fs: Seq<FindingRecord>,
    es: Seq<EvidenceRecord>,
    start: int,
    end: int,
    views: Seq<DraftView>,
    meta: DetectorMetadata,
) -> bool {
    exists|raw: Seq<FindingDraft>, sorted: Seq<FindingDraft>|
        #![trigger draft_views(raw), drafts_canonical(sorted)]
        draft_views(raw) == views && sorted.to_multiset() == raw.to_multiset() && drafts_canonical(sorted) && end
            - start == sorted.len() && forall|t: int|
            0 <= t < sorted.len() ==> accepted_into(#[trigger] fs[start + t], sorted[t], meta, es)
}

/// The findings from `start` to `end` are those of detector `d` with record `rec`: a detector
/// that runs succeeds exactly when evaluating on the budgets left at its turn succeeds, and
/// then its findings are its drafts in canonical order; one whose evaluation fails is
/// recorded as failed when it fails internally and as rejected when it exceeds a resource
/// limit; a failed, rejected, disabled or skipped detector has none.
pub open spec fn detector_block<D: Detector>(
    fs: Seq<FindingRecord>,
    es: Seq<EvidenceRecord>,
    rec: DetectorExecutionRecord,
    d: D,
    configs: Seq<ConfigEntryView>,
    input: DetectionInput<'_>,
    limits: (usize, usize, usize, usize, usize),
    start: int,
    end: int,
) -> bool {
    let meta = d.spec_metadata();
    let params = effective_config(configs, meta.spec_id()).1;
    let succeeds = d.spec_succeeds(
        input,
        params,
        Seq::empty(),
        (limits.2 - start) as nat,
        (limits.3 - evidence_before(fs, start)) as nat,
    );
    &&& 0 <= start <= end <= fs.len()
    &&& !(rec.status is Executed) ==> end == start
    &&& detector_runs(d, configs, input_partial(input)) && succeeds ==> rec.status is Executed
    &&& detector_runs(d, configs, input_partial(input)) && !succeeds ==> (rec.status is Failed
        || rec.status is ResourceLimited)
    &&& detector_runs(d, configs, input_partial(input)) && !succeeds ==> (rec.status is Failed
        <==> d.spec_fails_internally(
        input,
        params,
        Seq::empty(),
        (limits.2 - start) as nat,
        (limits.3 - evidence_before(fs, start)) as nat,
    ))
    &&& rec.status is Executed ==> block_from_drafts(fs, es, start, end, d.spec_drafts(input, params), meta)
}

/// The block of the detector at position `k`.
pub open spec fn block_at<D: Detector>(
    fs: Seq<FindingRecord>,
    es: Seq<EvidenceRecord>,
    recs: Seq<DetectorExecutionRecord>,
    detectors: Seq<D>,
    configs: Seq<ConfigEntryView>,
    input: DetectionInput<'_>,
    limits: (usize, usize, usize, usize, usize),
    starts: Seq<int>,
    k: int,
) -> bool {
    detector_block(fs, es, recs[k], detectors[k], configs, input, limits, starts[k], starts[k + 1])
}

/// The findings fall into consecutive blocks, one per detector in order, each holding what
/// that detector reported.
pub open spec fn detector_blocks<D: Detector>(
    fs: Seq<FindingRecord>,
    es: Seq<EvidenceRecord>,
    recs: Seq<DetectorExecutionRecord>,
    detectors: Seq<D>,
    configs: Seq<ConfigEntryView>,
    input: DetectionInput<'_>,
    limits: (usize, usize, usize, usize, usize),
    starts: Seq<int>,
) -> bool {
    &&& starts.len() == detectors.len() + 1
    &&& starts[0] == 0
    &&& starts[detectors.len() as int] == fs.len()
    &&& forall|k: int|
        0 <= k < detectors.len() ==> #[trigger] block_at(fs, es, recs, detectors, configs, input, limits, starts, k)
}

/// A block stays what it is when findings, evidence, records and block starts are extended.
proof fn lemma_block_extend<D: Detector>(
    fs: Seq<FindingRecord>,
    es: Seq<EvidenceRecord>,
    recs: Seq<DetectorExecutionRecord>,
    detectors: Seq<D>,
    configs: Seq<ConfigEntryView>,
    input: DetectionInput<'_>,
    limits: (usize, usize, usize, usize, usize),
    starts: Seq<int>,
    fs2: Seq<FindingRecord>,
    es2: Seq<EvidenceRecord>,
    recs2: Seq<DetectorExecutionRecord>,
    starts2: Seq<int>,
    k: int,
)
    requires
        block_at(fs, es, recs, detectors, configs, input, limits, starts, k),
        fs.len() <= fs2.len(),
        fs2.take(fs.len() as int) == fs,
        es.len() <= es2.len(),
        es2.take(es.len() as int) == es,
        recs2[k] == recs[k],
        starts2[k] == starts[k],
        starts2[k + 1] == starts[k + 1],
    ensures
        block_at(fs2, es2, recs2, detectors, configs, input, limits, starts2, k),
{
    let start = starts[k];
    let end = starts[k + 1];
    let d = detectors[k];
    let meta = d.spec_metadata();
    let params = effective_config(configs, meta.spec_id()).1;
    assert(fs2.take(start) =~= fs.take(start));
    if recs[k].status is Executed {
        let views = d.spec_drafts(input, params);
        let (raw, sorted) = choose|raw: Seq<FindingDraft>, sorted: Seq<FindingDraft>|
            #![trigger draft_views(raw), drafts_canonical(sorted)]
            draft_views(raw) == views && sorted.to_multiset() == raw.to_multiset() && drafts_canonical(sorted) && end
                - start == sorted.len() && forall|t: int|
                0 <= t < sorted.len() ==> accepted_into(#[trigger] fs[start + t], sorted[t], meta, es);
        assert forall|t: int| 0 <= t < sorted.len() implies accepted_into(#[trigger] fs2[start + t], sorted[t], meta, es2) by {
            assert(fs2[start + t] == fs2.take(fs.len() as int)[start + t]);
            lemma_accepted_into_extend(fs[start + t], sorted[t], meta, es, es2);
        }
        assert(block_from_drafts(fs2, es2, start, end, views, meta));
    }
}

/// The opening of the diagnostic for a detector whose output was rejected.
pub open spec fn rejection_opening(id: Seq<char>) -> Seq<char> {
    "output budget exceeded, rejecting output from detector "@ + "'"@ + id + "'"@
}

/// The diagnostic for a detector that failed with `reason`.
pub open spec fn failure_note(id: Seq<char>, reason: Seq<char>) -> Seq<char> {
    "detector "@ + "'"@ + id + "'"@ + " failed: "@ + reason
}

/// `note` reports the record's failure: a failed detector with its reason; a rejected
/// output with the rejection opening, alone (the engine's budget refused it) or followed by
/// `: ` and the message of the detector's own resource-limit error.
pub open spec fn reports_record(rec: DetectorExecutionRecord, note: Seq<char>) -> bool {
    match rec.status {
        DetectorExecutionStatus::Failed { reason } => note == failure_note(rec.detector_id@, reason@),
        DetectorExecutionStatus::ResourceLimited => note == rejection_opening(rec.detector_id@) || exists|
            m: Seq<char>,
        | note == rejection_opening(rec.detector_id@) + ": "@ + m,
        _ => false,
    }
}

/// The notes, of those at the same positions as records that make the run partial, in order.
pub open spec fn limited_notes(recs: Seq<DetectorExecutionRecord>, notes: Seq<Seq<char>>) -> Seq<Seq<char>>
    decreases recs.len(),
{
    if recs.len() == 0 {
        Seq::empty()
    } else {
        let prev = limited_notes(recs.drop_last(), notes.take(recs.len() - 1));
        if limits_run(recs.last().status) {
            prev.push(notes[recs.len() - 1])
        } else {
            prev
        }
    }
}

/// At most the first `max` of `s`.
pub open spec fn capped(s: Seq<Seq<char>>, max: nat) -> Seq<Seq<char>> {
    if s.len() <= max {
        s
    } else {
        s.take(max as int)
    }
}

/// The texts of a list of strings.
pub open spec fn string_views(s: Seq<String>) -> Seq<Seq<char>> {
    s.map_values(|x: String| x@)
}

/// The diagnostics report, in order and up to `max` of them, one note for each record that
/// made the run partial.
pub open spec fn diagnostics_report(diags: Seq<String>, recs: Seq<DetectorExecutionRecord>, max: nat) -> bool {
    exists|notes: Seq<Seq<char>>|
        #![trigger limited_notes(recs, notes)]
        notes.len() == recs.len() && (forall|k: int|
            0 <= k < recs.len() && limits_run(recs[k].status) ==> reports_record(#[trigger] recs[k], notes[k]))
            && string_views(diags) == capped(limited_notes(recs, notes), max)
}

/// One more record and note extend the limited notes by the note exactly when the record
/// makes the run partial.
proof fn lemma_limited_notes_push(
    recs: Seq<DetectorExecutionRecord>,
    notes: Seq<Seq<char>>,
    rec: DetectorExecutionRecord,
    note: Seq<char>,
)
    requires
        notes.len() == recs.len(),
    ensures
        limited_notes(recs.push(rec), notes.push(note)) == (if limits_run(rec.status) {
            limited_notes(recs, notes).push(note)
        } else {
            limited_notes(recs, notes)
        }),
{
    assert(recs.push(rec).drop_last() =~= recs);
    assert(notes.push(note).take(recs.len() as int) =~= notes);
    lemma_limited_notes_prefix(recs, notes);
}

/// Only the notes at the records' positions matter.
proof fn lemma_limited_notes_prefix(recs: Seq<DetectorExecutionRecord>, notes: Seq<Seq<char>>)
    requires
        notes.len() >= recs.len(),
    ensures
        limited_notes(recs, notes) == limited_notes(recs, notes.take(recs.len() as int)),
    decreases recs.len(),
{
    if recs.len() > 0 {
        assert(notes.take(recs.len() as int).take(recs.len() - 1) =~= notes.take(recs.len() - 1));
    }
}

/// A diagnostic written under the limit extends the capped notes.
proof fn lemma_diagnostic_written(d0: Seq<String>, text: String, notes: Seq<Seq<char>>, note: Seq<char>, max: nat)
    requires
        string_views(d0) == capped(notes, max),
        d0.len() < max,
        text@ == note,
    ensures
        string_views(d0.push(text)) == capped(notes.push(note), max),
{
    assert(string_views(d0).len() == d0.len());
    assert(notes.len() < max);
    assert(string_views(d0.push(text)) =~= string_views(d0).push(note));
}

/// A diagnostic over the limit leaves the capped notes as they were.
proof fn lemma_diagnostic_dropped(d0: Seq<String>, notes: Seq<Seq<char>>, note: Seq<char>, max: nat)
    requires
        string_views(d0) == capped(notes, max),
        d0.len() >= max,
    ensures
        string_views(d0) == capped(notes.push(note), max),
{
    assert(string_views(d0).len() == d0.len());
    assert(notes.len() >= max);
    assert(notes.push(note).take(max as int) =~= notes.take(max as int));
}

/// What every outcome of a detection run satisfies: one consistent record per detector in
/// registry order; no correlator record; the run is partial exactly when the input is or
/// some detector failed or had its output rejected; the store of findings and evidence is
/// well formed, refers only to input entities, keeps to the limits, and holds only findings
/// of executed detectors, each with evidence, no two of one detector about the same subject;
/// the diagnostics keep to their limit; the findings are, detector by detector in order,
/// exactly what each detector reported.
pub open spec fn run_outcome_consistent<D: Detector>(
    o: DetectionRunOutcome,
    detectors: Seq<D>,
    configs: Seq<ConfigEntryView>,
    input: DetectionInput<'_>,
    limits: (usize, usize, usize, usize, usize),
) -> bool {
    let records = o.detector_executions@;
    &&& records.len() == detectors.len()
    &&& forall|k: int|
        0 <= k < records.len() ==> record_consistent(
            #[trigger] records[k],
            detectors[k],
            configs,
            input_partial(input),
        )
    &&& o.correlator_executions@.len() == 0
    &&& (o.completion == DetectionInputCompleteness::Partial <==> input_partial(input)
        || some_run_limited(records))
    &&& store_well_formed(o.findings@, o.evidence@)
    &&& store_resolves(o.findings@, o.evidence@, input.flows_view(), input.observations_view())
    &&& findings_have_evidence(o.findings@)
    &&& findings_unique(o.findings@)
    &&& o.findings@.len() <= limits.2
    &&& o.evidence@.len() <= limits.3
    &&& o.diagnostics@.len() <= limits.4
    &&& diagnostics_report(o.diagnostics@, records, limits.4 as nat)
    &&& forall|i: int|
        0 <= i < o.findings@.len() ==> exists|k: int|
            0 <= k < records.len() && produced_by(#[trigger] o.findings@[i], #[trigger] records[k])
    &&& exists|starts: Seq<int>|
        #[trigger] detector_blocks(o.findings@, o.evidence@, records, detectors, configs, input, limits, starts)
}

fn detector_record(meta: &DetectorMetadata, status: DetectorExecutionStatus) -> (r: DetectorExecutionRecord)
    ensures
        r.detector_id@ == meta.spec_id(),
        r.detector_version == meta.spec_version(),
        r.status == status,
{
    DetectorExecutionRecord { detector_id: meta.id().duplicate(), detector_version: meta.version(), status }
}

/// `prefix`, the quoted identifier, then `suffix`.
fn quoted_id_message(prefix: &str, id: &DetectorId, suffix: &str) -> (s: String)
    ensures
        s@ == prefix@ + "'"@ + id@ + "'"@ + suffix@,
{
    let mut s = String::from_str(prefix);
    s.append("'");
    s.append(id.as_str());
    s.append("'");
    s.append(suffix);
    s
}

/// Evaluates all registered detectors over the input.
///
/// All configuration is checked before any detector runs. Detectors run in canonical
/// identifier order; a disabled detector, or one that skips partial input, does not run. A
/// detector's output is accepted as a whole or not at all: a failure or a rejected output
/// makes the run partial and is recorded with a bounded diagnostic, while an output that
/// breaks the incomplete-data policy, refers to unknown entities or repeats a finding
/// identity aborts the run.
pub fn execute_detection<D: Detector>(
    registry: &DetectorRegistry<D>,
    input: &DetectionInput<'_>,
    configurations: &DetectorConfigurations,
    limits: &DetectionLimits,
) -> (r: Result<DetectionRunOutcome, DetectionEngineError>)
    ensures
        registry.spec_detectors().len() > limits.parts().0 ==> (r matches Err(
            DetectionEngineError::ResourceLimit { resource, capacity },
        ) && resource@ == "registered_detectors"@ && capacity == limits.parts().0),
        registry.spec_detectors().len() <= limits.parts().0 ==> (r matches Err(
            DetectionEngineError::Config(_),
        ) <==> !preflight_ok(registry.spec_detectors(), configurations@, limits.parts().1 as nat)),
        r matches Err(e) ==> (e is Config || e is Output || (e matches DetectionEngineError::ResourceLimit {
            resource,
            ..
        } && (resource@ == "registered_detectors"@ || resource@ == "evidence_count_overflow"@))),
        r matches Ok(o) ==> run_outcome_consistent(
            o,
            registry.spec_detectors(),
            configurations@,
            *input,
            limits.parts(),
        ),
        r matches Err(DetectionEngineError::Config(e)) ==> config_rejection(
            registry.spec_detectors(),
            configurations@,
            limits.parts().1 as nat,
            e,
        ),
        registry.spec_detectors().len() <= limits.parts().0 && preflight_ok(
            registry.spec_detectors(),
            configurations@,
            limits.parts().1 as nat,
        ) && runs_acceptable(registry.spec_detectors(), configurations@, *input) ==> r is Ok,
{
    let max_registered = limits.max_registered_detectors();
    if registry.len() > max_registered {
        return Err(DetectionEngineError::ResourceLimit { resource: "registered_detectors", capacity: max_registered });
    }
    match preflight(registry, configurations, limits) {
        Ok(()) => {},
        Err(e) => {
            return Err(e);
        },
    }
    let max_findings = limits.max_total_findings();
    let max_evidence = limits.max_total_evidence_records();
    let max_diagnostics = limits.max_execution_diagnostics();
    let partial = match input.completeness() {
        DetectionInputCompleteness::Partial => true,
        DetectionInputCompleteness::Complete => false,
    };
    let ghost cv = configurations@;
    let ghost flows = input.flows_view();
    let ghost obs = input.observations_view();
    let default_cfg = DetectorConfig::enabled();
    let detectors = registry.detectors();
    let n = detectors.len();
    let mut completion = input.completeness();
    let mut records: Vec<DetectorExecutionRecord> = Vec::new();
    let mut findings: Vec<FindingRecord> = Vec::new();
    let mut evidence: Vec<EvidenceRecord> = Vec::new();
    let mut diagnostics: Vec<String> = Vec::new();
    proof {
        assert(flat_evidence_ids(findings@) =~= id_range(0, 0));
    }
    let ghost mut starts: Seq<int> = seq![0int];
    let ghost mut notes: Seq<Seq<char>> = Seq::empty();
    proof {
        assert(string_views(diagnostics@) =~= capped(limited_notes(records@, notes), max_diagnostics as nat));
    }
    let mut j: usize = 0;
    while j < n
        invariant
            notes.len() == records@.len(),
            forall|k: int|
                0 <= k < records@.len() && limits_run(records@[k].status) ==> reports_record(
                    #[trigger] records@[k],
                    notes[k],
                ),
            string_views(diagnostics@) == capped(limited_notes(records@, notes), max_diagnostics as nat),
            ids_sorted(registry.ids()),
            starts.len() == j + 1,
            starts[0] == 0,
            starts[j as int] == findings@.len(),
            forall|k: int|
                0 <= k < j ==> #[trigger] block_at(
                    findings@,
                    evidence@,
                    records@,
                    detectors@,
                    cv,
                    *input,
                    limits.parts(),
                    starts,
                    k,
                ),
            n == detectors@.len(),
            detectors@ == registry.spec_detectors(),
            n <= limits.parts().0,
            preflight_ok(registry.spec_detectors(), configurations@, limits.parts().1 as nat),
            j <= n,
            cv == configurations@,
            partial == input_partial(*input),
            flows == input.flows_view(),
            obs == input.observations_view(),
            default_cfg.view_pair() == (true, Seq::<ParameterView>::empty()),
            max_findings == limits.parts().2,
            max_evidence == limits.parts().3,
            max_diagnostics == limits.parts().4,
            max_findings <= crate::limits::HARD_MAX_TOTAL_FINDINGS,
            max_evidence <= crate::limits::HARD_MAX_TOTAL_EVIDENCE,
            records@.len() == j,
            forall|k: int|
                0 <= k < j ==> record_consistent(#[trigger] records@[k], detectors@[k], cv, partial),
            (completion == DetectionInputCompleteness::Partial) <==> (partial || some_run_limited(records@)),
            store_well_formed(findings@, evidence@),
            store_resolves(findings@, evidence@, flows, obs),
            findings_have_evidence(findings@),
            findings_unique(findings@),
            findings@.len() <= max_findings,
            evidence@.len() <= max_evidence,
            diagnostics@.len() <= max_diagnostics,
            forall|i: int|
                0 <= i < findings@.len() ==> exists|k: int|
                    0 <= k < records@.len() && produced_by(#[trigger] findings@[i], #[trigger] records@[k]),
        decreases n - j,
    {
        let d = &detectors[j];
        let meta = d.metadata();
        let cfg = match configurations.get(meta.id()) {
            Some(c) => c,
            None => &default_cfg,
        };
        assert(cfg.view_pair() == effective_config(cv, meta.spec_id()));
        let ghost rec0 = records@;
        let ghost d0 = diagnostics@;
        let ghost l0 = limited_notes(records@, notes);
        let ghost mut note_g: Seq<char> = Seq::empty();
        let ghost f0 = findings@;
        let ghost e0 = evidence@;
        let ghost params = cfg.parameters@;
        let ghost fb = (max_findings - findings@.len()) as nat;
        let ghost eb = (max_evidence - evidence@.len()) as nat;
        let ghost succeeds = d.spec_succeeds(*input, params, Seq::empty(), fb, eb);
        proof {
            assert(findings@.take(findings@.len() as int) =~= findings@);
            assert(evidence_before(findings@, findings@.len() as int) == evidence@.len());
            assert(draft_views(Seq::<FindingDraft>::empty()) =~= Seq::<DraftView>::empty());
        }
        let skip = match meta.incomplete_data_policy() {
            IncompleteDataPolicy::Skip => true,
            IncompleteDataPolicy::AllowWithLimitations => false,
        };
        if !cfg.enabled {
            records.push(detector_record(meta, DetectorExecutionStatus::Disabled));
        } else if partial && skip {
            records.push(detector_record(meta, DetectorExecutionStatus::SkippedIncompleteData));
        } else {
            let remaining_findings = max_findings - findings.len();
            let remaining_evidence = max_evidence - evidence.len();
            let mut sink = DetectorDraftSink::new(remaining_findings, remaining_evidence);
            match d.evaluate(input, &cfg.parameters, &mut sink) {
                Err(DetectorExecutionError::ResourceLimitExceeded(msg)) => {
                    completion = DetectionInputCompleteness::Partial;
                    proof {
                        note_g = rejection_opening(meta.spec_id()) + ": "@ + msg@;
                    }
                    if diagnostics.len() < max_diagnostics {
                        let mut text = quoted_id_message(
                            "output budget exceeded, rejecting output from detector ",
                            meta.id(),
                            ": ",
                        );
                        text.append(msg.as_str());
                        proof {
                            assert(text@ =~= note_g);
                            lemma_diagnostic_written(d0, text, l0, note_g, max_diagnostics as nat);
                        }
                        diagnostics.push(text);
                    } else {
                        proof {
                            lemma_diagnostic_dropped(d0, l0, note_g, max_diagnostics as nat);
                        }
                    }
                    records.push(detector_record(meta, DetectorExecutionStatus::ResourceLimited));
                },
                Err(DetectorExecutionError::InternalError(msg)) => {
                    completion = DetectionInputCompleteness::Partial;
                    proof {
                        note_g = failure_note(meta.spec_id(), msg@);
                    }
                    if diagnostics.len() < max_diagnostics {
                        let mut text = quoted_id_message("detector ", meta.id(), " failed: ");
                        text.append(msg.as_str());
                        proof {
                            assert(text@ =~= note_g);
                            lemma_diagnostic_written(d0, text, l0, note_g, max_diagnostics as nat);
                        }
                        diagnostics.push(text);
                    } else {
                        proof {
                            lemma_diagnostic_dropped(d0, l0, note_g, max_diagnostics as nat);
                        }
                    }
                    records.push(detector_record(meta, DetectorExecutionStatus::Failed { reason: msg }));
                },
                Ok(()) => {
                    let drafts = sink.into_drafts();
                    let ghost raw = drafts@;
                    proof {
                        assert(Seq::<DraftView>::empty() + d.spec_drafts(*input, params) =~= d.spec_drafts(
                            *input,
                            params,
                        ));
                        assert(draft_views(raw) == d.spec_drafts(*input, params));
                    }
                    if drafts.len() == 0 {
                        records.push(detector_record(meta, DetectorExecutionStatus::Executed));
                        proof {
                            assert(drafts_canonical(raw));
                            assert(block_from_drafts(
                                findings@,
                                evidence@,
                                f0.len() as int,
                                f0.len() as int,
                                d.spec_drafts(*input, params),
                                *meta,
                            ));
                        }
                    } else {
                        match accept_detector_output(
                            drafts,
                            input,
                            meta,
                            &mut findings,
                            &mut evidence,
                            max_findings,
                            max_evidence,
                        ) {
                            Err(e) => {
                                proof {
                                    assert forall|i: int| 0 <= i < f0.len() implies (#[trigger] f0[i]).detector_id@
                                        != meta.spec_id() by {
                                        let kk = choose|kk: int| 0 <= kk < rec0.len() && produced_by(f0[i], #[trigger] rec0[kk]);
                                        assert(record_consistent(rec0[kk], detectors@[kk], cv, partial));
                                        lemma_ids_pairwise(registry.ids(), kk, j as int);
                                    }
                                    assert(!drafts_acceptable(raw, *input, *meta));
                                    if runs_acceptable(registry.spec_detectors(), cv, *input) {
                                        assert(d.spec_succeeds(*input, params, Seq::empty(), fb, eb));
                                        assert(draft_views(raw) == d.spec_drafts(*input, params));
                                    }
                                }
                                return Err(e);
                            },
                            Ok(true) => {
                                records.push(detector_record(meta, DetectorExecutionStatus::Executed));
                                proof {
                                    let sorted = choose|sorted: Seq<FindingDraft>|
                                        #![trigger drafts_canonical(sorted)]
                                        sorted.to_multiset() == raw.to_multiset() && drafts_canonical(sorted)
                                            && findings@.len() == f0.len() + sorted.len() && forall|t: int|
                                            0 <= t < sorted.len() ==> accepted_into(
                                                #[trigger] findings@[f0.len() + t],
                                                sorted[t],
                                                *meta,
                                                evidence@,
                                            );
                                    assert(block_from_drafts(
                                        findings@,
                                        evidence@,
                                        f0.len() as int,
                                        findings@.len() as int,
                                        d.spec_drafts(*input, params),
                                        *meta,
                                    ));
                                }
                            },
                            Ok(false) => {
                                completion = DetectionInputCompleteness::Partial;
                                proof {
                                    note_g = rejection_opening(meta.spec_id());
                                }
                                if diagnostics.len() < max_diagnostics {
                                    let text = quoted_id_message(
                                        "output budget exceeded, rejecting output from detector ",
                                        meta.id(),
                                        "",
                                    );
                                    proof {
                                        assert(text@ =~= note_g);
                                        lemma_diagnostic_written(d0, text, l0, note_g, max_diagnostics as nat);
                                    }
                                    diagnostics.push(text);
                                } else {
                                    proof {
                                        lemma_diagnostic_dropped(d0, l0, note_g, max_diagnostics as nat);
                                    }
                                }
                                records.push(detector_record(meta, DetectorExecutionStatus::ResourceLimited));
                            },
                        }
                    }
                },
            }
        }
        proof {
            assert(findings@.take(f0.len() as int) =~= f0);
            let rec = records@[j as int];
            assert(records@ =~= rec0.push(rec));
            lemma_limited_notes_push(rec0, notes, rec, note_g);
            let notes2 = notes.push(note_g);
            if limits_run(rec.status) {
                assert(reports_record(rec, note_g));
                assert(string_views(diagnostics@) == capped(l0.push(note_g), max_diagnostics as nat));
            } else {
                assert(diagnostics@ == d0);
            }
            assert forall|k: int|
                0 <= k < records@.len() && limits_run(records@[k].status) implies reports_record(
                    #[trigger] records@[k],
                    notes2[k],
                ) by {
                if k < j {
                    assert(records@[k] == rec0[k]);
                }
            }
            notes = notes2;
            assert(record_consistent(rec, detectors@[j as int], cv, partial));
            assert forall|k: int| 0 <= k < j + 1 implies record_consistent(
                #[trigger] records@[k],
                detectors@[k],
                cv,
                partial,
            ) by {
                if k < j {
                    assert(records@[k] == rec0[k]);
                }
            }
            if some_run_limited(rec0) {
                let k = choose|k: int| 0 <= k < rec0.len() && limits_run(#[trigger] rec0[k].status);
                assert(records@[k] == rec0[k]);
            }
            if limits_run(rec.status) {
                assert(limits_run(records@[j as int].status));
            }
            if some_run_limited(records@) {
                let k = choose|k: int| 0 <= k < records@.len() && limits_run(#[trigger] records@[k].status);
                if k < j {
                    assert(rec0[k] == records@[k]);
                }
            }
            assert forall|i: int| 0 <= i < findings@.len() implies exists|k: int|
                0 <= k < records@.len() && produced_by(#[trigger] findings@[i], #[trigger] records@[k]) by {
                if i < f0.len() {
                    assert(findings@[i] == findings@.take(f0.len() as int)[i]);
                    let k = choose|k: int| 0 <= k < rec0.len() && produced_by(f0[i], #[trigger] rec0[k]);
                    assert(records@[k] == rec0[k]);
                    assert(produced_by(findings@[i], records@[k]));
                } else {
                    assert(produced_by(findings@[i], records@[j as int]));
                }
            }
            let starts2 = starts.push(findings@.len() as int);
            assert(findings@.take(f0.len() as int) =~= f0);
            assert(evidence@.take(e0.len() as int) =~= e0);
            assert(evidence_before(findings@, f0.len() as int) == e0.len());
            assert(block_at(findings@, evidence@, records@, detectors@, cv, *input, limits.parts(), starts2, j as int));
            assert forall|k: int| 0 <= k < j + 1 implies #[trigger] block_at(
                findings@,
                evidence@,
                records@,
                detectors@,
                cv,
                *input,
                limits.parts(),
                starts2,
                k,
            ) by {
                if k < j {
                    lemma_block_extend(
                        f0,
                        e0,
                        rec0,
                        detectors@,
                        cv,
                        *input,
                        limits.parts(),
                        starts,
                        findings@,
                        evidence@,
                        records@,
                        starts2,
                        k,
                    );
                }
            }
            starts = starts2;
        }
        j = j + 1;
    }
    assert(detector_blocks(findings@, evidence@, records@, detectors@, cv, *input, limits.parts(), starts));
    let outcome = DetectionRunOutcome {
        completion,
        detector_executions: records,
        correlator_executions: Vec::new(),
        findings,
        evidence,
        diagnostics,
    };
    assert(outcome.detector_executions@.len() == n);
    assert(detector_blocks(
        outcome.findings@,
        outcome.evidence@,
        outcome.detector_executions@,
        registry.spec_detectors(),
        configurations@,
        *input,
        limits.parts(),
        starts,
    ));
    assert(limited_notes(outcome.detector_executions@, notes) == limited_notes(records@, notes));
    assert(diagnostics_report(outcome.diagnostics@, outcome.detector_executions@, limits.parts().4 as nat));
    assert(run_outcome_consistent(outcome, registry.spec_detectors(), configurations@, *input, limits.parts()));
    Ok(outcome)
}

} // verus!
verus! {

// ----- correlation -----

/// Some required primary detector of a correlator is disabled by configuration.
pub open spec fn some_required_disabled(required: Seq<Seq<char>>, configs: Seq<ConfigEntryView>) -> bool {
    exists|k: int| 0 <= k < required.len() && !effective_config(configs, #[trigger] required[k]).0
}

fn any_required_disabled(
    meta: &CorrelatorMetadata,
    configurations: &DetectorConfigurations,
    default_cfg: &DetectorConfig,
) -> (b: bool)
    requires
        default_cfg.view_pair() == (true, Seq::<ParameterView>::empty()),
    ensures
        b == some_required_disabled(meta.spec_required(), configurations@),
{
    let req = meta.required_primary_detector_ids();
    let n = req.len();
    let mut k: usize = 0;
    while k < n
        invariant
            n == req@.len(),
            k <= n,
            crate::correlation::id_views(req@) == meta.spec_required(),
            default_cfg.view_pair() == (true, Seq::<ParameterView>::empty()),
            forall|t: int| 0 <= t < k ==> effective_config(configurations@, #[trigger] meta.spec_required()[t]).0,
        decreases n - k,
    {
        assert(meta.spec_required()[k as int] == req@[k as int]@);
        let cfg = match configurations.get(&req[k]) {
            Some(c) => c,
            None => default_cfg,
        };
        if !cfg.enabled {
            return true;
        }
        k = k + 1;
    }
    false
}

/// A copy of a slice of plain values.
fn copy_slice<T: Copy>(s: &[T]) -> (r: Vec<T>)
    ensures
        r@ == s@,
{
    let mut r: Vec<T> = Vec::new();
    let n = s.len();
    let mut i: usize = 0;
    while i < n
        invariant
            n == s@.len(),
            i <= n,
            r@ == s@.take(i as int),
        decreases n - i,
    {
        r.push(s[i]);
        i = i + 1;
        assert(r@ =~= s@.take(i as int));
    }
    assert(s@.take(n as int) =~= s@);
    r
}

/// Copies of a list of mappings.
fn copy_mappings(s: &[MitreMapping]) -> (r: Vec<MitreMapping>)
    ensures
        crate::views::mapping_views(r@) == crate::views::mapping_views(s@),
{
    let mut r: Vec<MitreMapping> = Vec::new();
    let n = s.len();
    let mut i: usize = 0;
    while i < n
        invariant
            n == s@.len(),
            i <= n,
            crate::views::mapping_views(r@) == crate::views::mapping_views(s@.take(i as int)),
        decreases n - i,
    {
        let ghost r0 = r@;
        let m = s[i].duplicate();
        r.push(m);
        proof {
            assert(r@ =~= r0.push(m));
            assert(s@.take(i + 1) =~= s@.take(i as int).push(s@[i as int]));
            assert(crate::views::mapping_views(r@) =~= crate::views::mapping_views(r0).push(
                crate::views::mapping_view(m),
            ));
            assert(crate::views::mapping_views(s@.take(i + 1)) =~= crate::views::mapping_views(
                s@.take(i as int),
            ).push(crate::views::mapping_view(s@[i as int])));
        }
        i = i + 1;
    }
    assert(s@.take(n as int) =~= s@);
    r
}

/// The finding record of an accepted correlation draft.
fn correlated_record(draft: &CorrelationDraft, meta: &CorrelatorMetadata, id: u64) -> (f: FindingRecord)
    ensures
        f.reference.id == id,
        f.detector_id@ == meta.spec_id(),
        f.detector_version == meta.spec_version(),
        f.subject.view_parts() == draft@.0,
        f.title@ == draft@.1,
        f.summary@ == draft@.2,
        f.rationale@ == draft@.3,
        f.severity == draft@.4,
        f.confidence == draft@.5,
        f.evidence_references@ == draft@.6,
        f.source_finding_references@ == draft@.7,
        crate::views::mapping_views(f.mitre_mappings@) == draft@.8,
{
    FindingRecord {
        reference: FindingReference { id },
        detector_id: meta.id().duplicate(),
        detector_version: meta.version(),
        subject: draft.subject().duplicate(),
        title: String::from_str(draft.title()),
        summary: String::from_str(draft.summary()),
        rationale: String::from_str(draft.rationale()),
        severity: draft.severity(),
        confidence: draft.confidence(),
        evidence_references: copy_slice(draft.evidence_references()),
        source_finding_references: copy_slice(draft.source_finding_references()),
        mitre_mappings: copy_mappings(draft.mitre_mappings()),
    }
}

/// The correlation drafts at `i` and `i + 1` share a subject.
pub open spec fn correlation_same_subject_at(s: Seq<CorrelationDraft>, i: int) -> bool {
    s[i]@.0 == s[i + 1]@.0
}

/// Two neighbouring correlation drafts share a subject.
pub open spec fn correlation_adjacent_duplicate(s: Seq<CorrelationDraft>) -> bool {
    exists|i: int| 0 <= i < s.len() - 1 && #[trigger] correlation_same_subject_at(s, i)
}

/// An accepted finding of component `id` has the subject of one of the correlation drafts.
pub open spec fn correlation_duplicates_accepted(
    drafts: Seq<CorrelationDraft>,
    findings: Seq<FindingRecord>,
    id: Seq<char>,
) -> bool {
    exists|i: int, j: int|
        0 <= i < drafts.len() && 0 <= j < findings.len() && (#[trigger] findings[j]).detector_id@ == id
            && findings[j].subject.view_parts() == (#[trigger] drafts[i])@.0
}

/// Correlation drafts in canonical order whose neighbours never share a subject have
/// strictly increasing subjects.
proof fn lemma_correlation_subjects_increasing(s: Seq<CorrelationDraft>, i: int, j: int)
    requires
        crate::provenance::correlations_canonical(s),
        forall|k: int| 0 <= k < s.len() - 1 ==> !#[trigger] correlation_same_subject_at(s, k),
        0 <= i < j < s.len(),
    ensures
        crate::canonical::subject_lt(s[i]@.0, s[j]@.0),
        s[i]@.0 != s[j]@.0,
    decreases j - i,
{
    let k = j - 1;
    assert(!crate::provenance::correlation_lt(s[k + 1]@, s[k]@));
    assert(!correlation_same_subject_at(s, k));
    crate::canonical::lemma_subject_lt_order(s[k]@.0, s[j]@.0, s[j]@.0);
    if i < k {
        lemma_correlation_subjects_increasing(s, i, k);
        crate::canonical::lemma_subject_lt_order(s[i]@.0, s[k]@.0, s[j]@.0);
    }
    crate::canonical::lemma_subject_lt_order(s[i]@.0, s[j]@.0, s[i]@.0);
}

fn has_correlation_adjacent_duplicate(drafts: &Vec<CorrelationDraft>) -> (b: bool)
    ensures
        b == correlation_adjacent_duplicate(drafts@),
{
    let n = drafts.len();
    if n < 2 {
        return false;
    }
    let mut i: usize = 0;
    while i < n - 1
        invariant
            n == drafts@.len(),
            n >= 2,
            i <= n - 1,
            forall|t: int| 0 <= t < i ==> !#[trigger] correlation_same_subject_at(drafts@, t),
        decreases n - i,
    {
        match crate::canonical::compare_subjects(drafts[i].subject(), drafts[i + 1].subject()) {
            crate::text::Order::Equal => {
                assert(correlation_same_subject_at(drafts@, i as int));
                return true;
            },
            _ => {},
        }
        i = i + 1;
    }
    false
}

fn has_correlation_accepted_duplicate(
    drafts: &Vec<CorrelationDraft>,
    accepted: &[FindingRecord],
    id: &DetectorId,
) -> (b: bool)
    ensures
        b == correlation_duplicates_accepted(drafts@, accepted@, id@),
{
    let n = drafts.len();
    let m = accepted.len();
    let mut i: usize = 0;
    while i < n
        invariant
            n == drafts@.len(),
            m == accepted@.len(),
            i <= n,
            forall|a: int, j: int|
                0 <= a < i && 0 <= j < m ==> !((#[trigger] accepted@[j]).detector_id@ == id@
                    && accepted@[j].subject.view_parts() == (#[trigger] drafts@[a])@.0),
        decreases n - i,
    {
        let mut j: usize = 0;
        while j < m
            invariant
                n == drafts@.len(),
                m == accepted@.len(),
                i < n,
                j <= m,
                forall|t: int|
                    0 <= t < j ==> !((#[trigger] accepted@[t]).detector_id@ == id@
                        && accepted@[t].subject.view_parts() == drafts@[i as int]@.0),
            decreases m - j,
        {
            if accepted[j].detector_id.equals(id) {
                match crate::canonical::compare_subjects(&accepted[j].subject, drafts[i].subject()) {
                    crate::text::Order::Equal => {
                        assert(accepted@[j as int].detector_id@ == id@);
                        assert(accepted@[j as int].subject.view_parts() == drafts@[i as int]@.0);
                        return true;
                    },
                    _ => {},
                }
            }
            j = j + 1;
        }
        i = i + 1;
    }
    false
}

/// A correlated finding at position `id`, made from a correlation draft with view `v` of the
/// correlator with metadata `meta`.
pub open spec fn correlated_from(f: FindingRecord, v: CorrelationView, meta: CorrelatorMetadata, id: int) -> bool {
    &&& f.reference.id == id
    &&& f.detector_id@ == meta.spec_id()
    &&& f.detector_version == meta.spec_version()
    &&& f.subject.view_parts() == v.0
    &&& f.title@ == v.1
    &&& f.summary@ == v.2
    &&& f.rationale@ == v.3
    &&& f.severity == v.4
    &&& f.confidence == v.5
    &&& f.evidence_references@ == v.6
    &&& f.source_finding_references@ == v.7
    &&& crate::views::mapping_views(f.mitre_mappings@) == v.8
}

/// Correlation drafts in canonical order that repeat no subject, of each other or of an
/// accepted finding of the component, but do not fit the finding limit.
pub open spec fn correlation_over_capacity(
    sorted: Seq<CorrelationDraft>,
    primary: Seq<FindingRecord>,
    correlated: Seq<FindingRecord>,
    id: Seq<char>,
    max_findings: nat,
) -> bool {
    &&& !correlation_adjacent_duplicate(sorted)
    &&& !correlation_duplicates_accepted(sorted, primary, id)
    &&& !correlation_duplicates_accepted(sorted, correlated, id)
    &&& primary.len() + correlated.len() + sorted.len() > max_findings
}

/// Correlation drafts in canonical order can be accepted after the primary and the already
/// correlated findings: no two share a subject, none repeats a subject of an accepted finding
/// of the component, they fit the finding limit, and each names primary findings as its
/// sources and keeps to what they own.
pub open spec fn correlation_acceptable(
    sorted: Seq<CorrelationDraft>,
    primary: Seq<FindingRecord>,
    correlated: Seq<FindingRecord>,
    id: Seq<char>,
    max_findings: nat,
) -> bool {
    &&& !correlation_adjacent_duplicate(sorted)
    &&& !correlation_duplicates_accepted(sorted, primary, id)
    &&& !correlation_duplicates_accepted(sorted, correlated, id)
    &&& primary.len() + correlated.len() + sorted.len() <= max_findings
    &&& forall|t: int|
        0 <= t < sorted.len() ==> sources_resolve((#[trigger] sorted[t])@.7, primary) && provenance_owned(
            sorted[t]@.7,
            primary,
            sorted[t]@.6,
            sorted[t]@.0,
        )
}

/// The findings a correlator's drafts become, numbered from `next`, each a valid correlated
/// finding of the primary snapshot; or the first reason to reject the whole output.
fn accept_correlator_output(
    drafts: Vec<CorrelationDraft>,
    meta: &CorrelatorMetadata,
    primary: &[FindingRecord],
    correlated: &Vec<FindingRecord>,
    max_findings: usize,
) -> (r: Result<Vec<FindingRecord>, DetectionOutputError>)
    requires
        primary@.len() + correlated@.len() <= max_findings <= crate::limits::HARD_MAX_TOTAL_FINDINGS,
        findings_unique(primary@ + correlated@),
    ensures
        r matches Ok(new) ==> primary@.len() + correlated@.len() + new@.len() <= max_findings,
        r matches Ok(new) ==> findings_unique(primary@ + correlated@ + new@),
        exists|sorted: Seq<CorrelationDraft>|
            #![trigger crate::provenance::correlations_canonical(sorted)]
            sorted.to_multiset() == drafts@.to_multiset() && crate::provenance::correlations_canonical(sorted) && (
            r is Ok <==> correlation_acceptable(sorted, primary@, correlated@, meta.spec_id(), max_findings as nat))
                && (r matches Err(e) ==> (e is OutputLimitExceeded <==> correlation_over_capacity(
                sorted,
                primary@,
                correlated@,
                meta.spec_id(),
                max_findings as nat,
            )))
                && (r matches Ok(new) ==> new@.len() == sorted.len() && forall|t: int|
                0 <= t < sorted.len() ==> correlated_from(
                    #[trigger] new@[t],
                    sorted[t]@,
                    *meta,
                    primary@.len() + correlated@.len() + t,
                )),
        r matches Ok(new) ==> forall|t: int|
            0 <= t < new@.len() ==> (#[trigger] new@[t]).reference.id == primary@.len() + correlated@.len() + t
                && new@[t].detector_id@ == meta.spec_id() && new@[t].detector_version == meta.spec_version()
                && correlated_valid(new@[t], primary@),
        r matches Err(e) ==> (e is DuplicateFindingIdentity || e is InvalidSourceFindingReference
            || e is UnownedCorrelationEvidenceReference || e is UnownedCorrelationSubjectReference || (
        e matches DetectionOutputError::OutputLimitExceeded { resource, .. } && resource@ == "total_findings"@)),
{
    let ghost raw = drafts@;
    let sorted = sort_correlation_drafts(drafts);
    if has_correlation_adjacent_duplicate(&sorted) || has_correlation_accepted_duplicate(&sorted, primary, meta.id())
        || has_correlation_accepted_duplicate(&sorted, correlated.as_slice(), meta.id()) {
        return Err(DetectionOutputError::DuplicateFindingIdentity { detector_id: meta.id().duplicate() });
    }
    let next = primary.len() + correlated.len();
    if sorted.len() > max_findings - next {
        return Err(DetectionOutputError::OutputLimitExceeded { resource: "total_findings", limit: max_findings });
    }
    let n = sorted.len();
    let mut out: Vec<FindingRecord> = Vec::new();
    let mut i: usize = 0;
    while i < n
        invariant
            n == sorted@.len(),
            i <= n,
            next == primary@.len() + correlated@.len(),
            next + n <= max_findings <= crate::limits::HARD_MAX_TOTAL_FINDINGS,
            out@.len() == i,
            raw == drafts@,
            sorted@.to_multiset() == raw.to_multiset(),
            crate::provenance::correlations_canonical(sorted@),
            !correlation_adjacent_duplicate(sorted@),
            !correlation_duplicates_accepted(sorted@, primary@, meta.spec_id()),
            !correlation_duplicates_accepted(sorted@, correlated@, meta.spec_id()),
            forall|t: int|
                0 <= t < i ==> sources_resolve((#[trigger] sorted@[t])@.7, primary@) && provenance_owned(
                    sorted@[t]@.7,
                    primary@,
                    sorted@[t]@.6,
                    sorted@[t]@.0,
                ),
            forall|t: int| 0 <= t < i ==> correlated_from(#[trigger] out@[t], sorted@[t]@, *meta, next + t),
            forall|t: int| 0 <= t < i ==> (#[trigger] out@[t]).subject.view_parts() == sorted@[t]@.0,
            forall|t: int|
                0 <= t < i ==> (#[trigger] out@[t]).reference.id == next + t && out@[t].detector_id@
                    == meta.spec_id() && out@[t].detector_version == meta.spec_version() && correlated_valid(
                    out@[t],
                    primary@,
                ),
        decreases n - i,
    {
        let d = &sorted[i];
        let srcs = d.source_finding_references();
        match resolve_sources(srcs, primary, meta.id()) {
            Ok(()) => {},
            Err(e) => {
                assert(!sources_resolve(sorted@[i as int]@.7, primary@));
                assert(!correlation_acceptable(sorted@, primary@, correlated@, meta.spec_id(), max_findings as nat));
                return Err(e);
            },
        }
        match check_provenance(d, primary, meta.id()) {
            Ok(()) => {},
            Err(e) => {
                assert(!correlation_acceptable(sorted@, primary@, correlated@, meta.spec_id(), max_findings as nat));
                return Err(e);
            },
        }
        let f = correlated_record(d, meta, (next + i) as u64);
        let ghost out0 = out@;
        out.push(f);
        proof {
            assert(crate::correlation::valid_correlation_parts(d@.6, d@.7, d@.8));
            assert(correlated_valid(f, primary@));
            assert forall|t: int| 0 <= t < i + 1 implies (#[trigger] out@[t]).reference.id == next + t
                && out@[t].detector_id@ == meta.spec_id() && out@[t].detector_version == meta.spec_version()
                && correlated_valid(out@[t], primary@) by {
                if t < i {
                    assert(out@[t] == out0[t]);
                }
            }
            assert forall|t: int| 0 <= t < i + 1 implies (#[trigger] out@[t]).subject.view_parts() == sorted@[t]@.0 by {
                if t < i {
                    assert(out@[t] == out0[t]);
                }
            }
            assert forall|t: int| 0 <= t < i + 1 implies correlated_from(#[trigger] out@[t], sorted@[t]@, *meta, next + t) by {
                if t < i {
                    assert(out@[t] == out0[t]);
                }
            }
        }
        i = i + 1;
    }
    proof {
        lemma_correlated_unique(sorted@, primary@, correlated@, out@, meta.spec_id());
    }
    Ok(out)
}

/// Accepted correlated findings keep finding identities unique: the drafts are canonical with
/// no neighbouring duplicate, none repeats an accepted finding of the component, and each new
/// finding carries its draft's subject.
proof fn lemma_correlated_unique(
    ds: Seq<CorrelationDraft>,
    primary: Seq<FindingRecord>,
    correlated: Seq<FindingRecord>,
    out: Seq<FindingRecord>,
    id: Seq<char>,
)
    requires
        crate::provenance::correlations_canonical(ds),
        !correlation_adjacent_duplicate(ds),
        !correlation_duplicates_accepted(ds, primary, id),
        !correlation_duplicates_accepted(ds, correlated, id),
        findings_unique(primary + correlated),
        out.len() == ds.len(),
        forall|t: int| 0 <= t < out.len() ==> (#[trigger] out[t]).subject.view_parts() == ds[t]@.0,
        forall|t: int| 0 <= t < out.len() ==> (#[trigger] out[t]).detector_id@ == id,
    ensures
        findings_unique(primary + correlated + out),
{
    let base = primary + correlated;
    let fs = base + out;
    assert forall|k: int| 0 <= k < ds.len() - 1 implies !#[trigger] correlation_same_subject_at(ds, k) by {
        if correlation_same_subject_at(ds, k) {
            assert(correlation_adjacent_duplicate(ds));
        }
    }
    assert forall|a: int, b: int|
        0 <= a < b < fs.len() && (#[trigger] fs[a]).detector_id@ == (#[trigger] fs[b]).detector_id@
            implies fs[a].subject.view_parts() != fs[b].subject.view_parts() by {
        if b < base.len() {
            assert(fs[a] == base[a]);
            assert(fs[b] == base[b]);
        } else {
            let kb = b - base.len();
            assert(fs[b] == out[kb]);
            if a < base.len() {
                assert(fs[a] == base[a]);
                if fs[a].subject.view_parts() == fs[b].subject.view_parts() {
                    if a < primary.len() {
                        assert(base[a] == primary[a]);
                        assert(correlation_duplicates_accepted(ds, primary, id));
                    } else {
                        assert(base[a] == correlated[a - primary.len()]);
                        assert(correlation_duplicates_accepted(ds, correlated, id));
                    }
                }
            } else {
                let ka = a - base.len();
                assert(fs[a] == out[ka]);
                lemma_correlation_subjects_increasing(ds, ka, kb);
            }
        }
    }
}

} // verus!
verus! {

/// Some correlator's identifier is also a registered detector's.
pub open spec fn id_collision<C: FindingCorrelator>(correlators: Seq<C>, ids: Seq<Seq<char>>) -> bool {
    exists|k: int| 0 <= k < correlators.len() && ids.contains((#[trigger] correlators[k]).spec_metadata().spec_id())
}

/// Some correlator requires a detector that is not registered.
pub open spec fn required_missing<C: FindingCorrelator>(correlators: Seq<C>, ids: Seq<Seq<char>>) -> bool {
    exists|k: int, m: int|
        0 <= k < correlators.len() && 0 <= m < (#[trigger] correlators[k]).spec_metadata().spec_required().len()
            && !ids.contains(#[trigger] correlators[k].spec_metadata().spec_required()[m])
}

/// A status that makes the run partial: a failure or a rejected output.
pub open spec fn correlator_limits_run(s: CorrelatorExecutionStatus) -> bool {
    s is Failed || s is ResourceLimited
}

/// Some correlator failed or had its output rejected.
pub open spec fn some_correlator_limited(records: Seq<CorrelatorExecutionRecord>) -> bool {
    exists|k: int| 0 <= k < records.len() && correlator_limits_run(#[trigger] records[k].status)
}

/// The record names the correlator; every correlator is skipped for incomplete data exactly
/// when the primary results are partial, and otherwise skipped for unavailable sources exactly
/// when one of its required detectors is disabled.
pub open spec fn correlator_record_consistent<C: FindingCorrelator>(
    rec: CorrelatorExecutionRecord,
    c: C,
    configs: Seq<ConfigEntryView>,
    primary_partial: bool,
) -> bool {
    let meta = c.spec_metadata();
    &&& rec.correlator_id@ == meta.spec_id()
    &&& rec.correlator_version == meta.spec_version()
    &&& (rec.status is SkippedIncompleteData <==> primary_partial)
    &&& (rec.status is SkippedUnavailableSources <==> !primary_partial && some_required_disabled(
        meta.spec_required(),
        configs,
    ))
}

/// The finding was produced by the correlator of this record, which executed.
pub open spec fn correlated_by(f: FindingRecord, rec: CorrelatorExecutionRecord) -> bool {
    &&& f.detector_id@ == rec.correlator_id@
    &&& f.detector_version == rec.correlator_version
    &&& rec.status is Executed
}

/// The first `p` findings are the primary store; the rest are correlated findings over it.
pub open spec fn findings_split(o: DetectionRunOutcome, p: int, input: DetectionInput<'_>) -> bool {
    let fs = o.findings@;
    let primary = fs.take(p);
    let records = o.detector_executions@;
    let crecords = o.correlator_executions@;
    &&& 0 <= p <= fs.len()
    &&& store_well_formed(primary, o.evidence@)
    &&& store_resolves(primary, o.evidence@, input.flows_view(), input.observations_view())
    &&& findings_have_evidence(primary)
    &&& findings_unique(primary)
    &&& primary_attributed(fs, p, records)
    &&& forall|i: int|
        p <= i < fs.len() ==> (#[trigger] fs[i]).reference.id == i && correlated_valid(fs[i], primary)
    &&& correlated_attributed(fs, p, crecords)
}

/// Each of the first `p` findings was produced by an executed detector.
pub open spec fn primary_attributed(fs: Seq<FindingRecord>, p: int, records: Seq<DetectorExecutionRecord>) -> bool {
    forall|i: int|
        0 <= i < p ==> exists|k: int| 0 <= k < records.len() && produced_by(#[trigger] fs[i], #[trigger] records[k])
}

/// Attribution of appended findings carries over to their positions after the prefix.
proof fn lemma_attributed_shift(
    fs: Seq<FindingRecord>,
    prefix: Seq<FindingRecord>,
    tail: Seq<FindingRecord>,
    crecords: Seq<CorrelatorExecutionRecord>,
)
    requires
        fs == prefix + tail,
        correlated_attributed(tail, 0, crecords),
    ensures
        correlated_attributed(fs, prefix.len() as int, crecords),
{
    let p = prefix.len() as int;
    assert forall|i: int| p <= i < fs.len() implies attributed_to_correlator(#[trigger] fs[i], crecords) by {
        let t = i - p;
        assert(fs[i] == tail[t]);
        assert(attributed_to_correlator(tail[t], crecords));
    }
}

/// Some executed correlator of the records produced the finding.
pub open spec fn attributed_to_correlator(f: FindingRecord, crecords: Seq<CorrelatorExecutionRecord>) -> bool {
    exists|k: int| 0 <= k < crecords.len() && correlated_by(f, #[trigger] crecords[k])
}

/// Each finding from position `p` on was produced by an executed correlator.
pub open spec fn correlated_attributed(fs: Seq<FindingRecord>, p: int, crecords: Seq<CorrelatorExecutionRecord>) -> bool {
    forall|i: int| p <= i < fs.len() ==> attributed_to_correlator(#[trigger] fs[i], crecords)
}

/// The findings from `start` to `end` are those of correlator `c` with record `rec`, the
/// first `p` findings being the primary ones: a correlator that runs succeeds exactly when
/// correlating them on the room left at its turn succeeds; its drafts, in canonical order, are
/// then accepted exactly when they are acceptable after the findings before `start`, and
/// become its findings; one whose correlation fails is recorded as failed when it fails
/// internally and as rejected when it exceeds its capacity; a failed, rejected or skipped
/// correlator has none.
pub open spec fn correlator_block<C: FindingCorrelator>(
    fs: Seq<FindingRecord>,
    es: Seq<EvidenceRecord>,
    rec: CorrelatorExecutionRecord,
    c: C,
    configs: Seq<ConfigEntryView>,
    p: int,
    primary_partial: bool,
    max_findings: nat,
    start: int,
    end: int,
) -> bool {
    let meta = c.spec_metadata();
    let primary = fs.take(p);
    let runs = !primary_partial && !some_required_disabled(meta.spec_required(), configs);
    let succeeds = c.spec_correlates(primary, es, Seq::empty(), (max_findings - start) as nat);
    &&& 0 <= p <= start <= end <= fs.len()
    &&& !(rec.status is Executed) ==> end == start
    &&& rec.status is Executed ==> runs
    &&& runs && !succeeds ==> (rec.status is Failed || rec.status is ResourceLimited)
    &&& runs && !succeeds ==> (rec.status is Failed <==> c.spec_fails_internally(
        primary,
        es,
        Seq::empty(),
        (max_findings - start) as nat,
    ))
    &&& runs && succeeds ==> exists|raw: Seq<CorrelationDraft>, sorted: Seq<CorrelationDraft>|
        #![trigger correlation_views(raw), crate::provenance::correlations_canonical(sorted)]
        correlation_views(raw) == c.spec_correlations(primary, es) && sorted.to_multiset() == raw.to_multiset()
            && crate::provenance::correlations_canonical(sorted) && (rec.status is Executed
            <==> correlation_acceptable(sorted, primary, fs.subrange(p, start), meta.spec_id(), max_findings)) && (!(
        rec.status is Executed) ==> (rec.status is ResourceLimited <==> correlation_over_capacity(
            sorted,
            primary,
            fs.subrange(p, start),
            meta.spec_id(),
            max_findings,
        ))) && (
        rec.status is Executed ==> end - start == sorted.len() && forall|t: int|
            0 <= t < sorted.len() ==> correlated_from(#[trigger] fs[start + t], sorted[t]@, meta, start + t))
}

/// The block of the correlator at position `k`.
pub open spec fn correlator_block_at<C: FindingCorrelator>(
    fs: Seq<FindingRecord>,
    es: Seq<EvidenceRecord>,
    recs: Seq<CorrelatorExecutionRecord>,
    correlators: Seq<C>,
    configs: Seq<ConfigEntryView>,
    p: int,
    primary_partial: bool,
    max_findings: nat,
    starts: Seq<int>,
    k: int,
) -> bool {
    correlator_block(fs, es, recs[k], correlators[k], configs, p, primary_partial, max_findings, starts[k], starts[k + 1])
}

/// After the first `p` findings come consecutive blocks, one per correlator in order, each
/// holding what that correlator reported.
pub open spec fn correlator_blocks<C: FindingCorrelator>(
    fs: Seq<FindingRecord>,
    es: Seq<EvidenceRecord>,
    recs: Seq<CorrelatorExecutionRecord>,
    correlators: Seq<C>,
    configs: Seq<ConfigEntryView>,
    p: int,
    primary_partial: bool,
    max_findings: nat,
    starts: Seq<int>,
) -> bool {
    &&& starts.len() == correlators.len() + 1
    &&& starts[0] == p
    &&& starts[correlators.len() as int] == fs.len()
    &&& forall|k: int|
        0 <= k < correlators.len() ==> #[trigger] correlator_block_at(
            fs,
            es,
            recs,
            correlators,
            configs,
            p,
            primary_partial,
            max_findings,
            starts,
            k,
        )
}

/// A correlator block stays what it is when findings, records and block starts are extended.
proof fn lemma_correlator_block_extend<C: FindingCorrelator>(
    fs: Seq<FindingRecord>,
    es: Seq<EvidenceRecord>,
    recs: Seq<CorrelatorExecutionRecord>,
    correlators: Seq<C>,
    configs: Seq<ConfigEntryView>,
    p: int,
    primary_partial: bool,
    max_findings: nat,
    starts: Seq<int>,
    fs2: Seq<FindingRecord>,
    recs2: Seq<CorrelatorExecutionRecord>,
    starts2: Seq<int>,
    k: int,
)
    requires
        correlator_block_at(fs, es, recs, correlators, configs, p, primary_partial, max_findings, starts, k),
        fs.len() <= fs2.len(),
        fs2.take(fs.len() as int) == fs,
        recs2[k] == recs[k],
        starts2[k] == starts[k],
        starts2[k + 1] == starts[k + 1],
    ensures
        correlator_block_at(fs2, es, recs2, correlators, configs, p, primary_partial, max_findings, starts2, k),
{
    let start = starts[k];
    let end = starts[k + 1];
    let c = correlators[k];
    let meta = c.spec_metadata();
    assert(fs2.take(p) =~= fs.take(p));
    assert(fs2.subrange(p, start) =~= fs.subrange(p, start));
    let runs = !primary_partial && !some_required_disabled(meta.spec_required(), configs);
    let succeeds = c.spec_correlates(fs.take(p), es, Seq::empty(), (max_findings - start) as nat);
    if runs && succeeds {
        let (raw, sorted) = choose|raw: Seq<CorrelationDraft>, sorted: Seq<CorrelationDraft>|
            #![trigger correlation_views(raw), crate::provenance::correlations_canonical(sorted)]
            correlation_views(raw) == c.spec_correlations(fs.take(p), es) && sorted.to_multiset() == raw.to_multiset()
                && crate::provenance::correlations_canonical(sorted) && (recs[k].status is Executed
                <==> correlation_acceptable(sorted, fs.take(p), fs.subrange(p, start), meta.spec_id(), max_findings))
                && (!(recs[k].status is Executed) ==> (recs[k].status is ResourceLimited <==> correlation_over_capacity(
                sorted,
                fs.take(p),
                fs.subrange(p, start),
                meta.spec_id(),
                max_findings,
            ))) && (recs[k].status is Executed ==> end - start == sorted.len() && forall|t: int|
                0 <= t < sorted.len() ==> correlated_from(#[trigger] fs[start + t], sorted[t]@, meta, start + t));
        if recs[k].status is Executed {
            assert forall|t: int| 0 <= t < sorted.len() implies correlated_from(
                #[trigger] fs2[start + t],
                sorted[t]@,
                meta,
                start + t,
            ) by {
                assert(fs2[start + t] == fs2.take(fs.len() as int)[start + t]);
            }
        }
        assert(correlation_views(raw) == c.spec_correlations(fs2.take(p), es));
    }
}

/// The first `p` findings are the primary store, in blocks from `starts`, one per detector;
/// the rest are correlated findings, in blocks from `cstarts`, one per correlator.
pub open spec fn outcome_layout<D: Detector, C: FindingCorrelator>(
    o: DetectionRunOutcome,
    detectors: Seq<D>,
    correlators: Seq<C>,
    configs: Seq<ConfigEntryView>,
    input: DetectionInput<'_>,
    limits: (usize, usize, usize, usize, usize),
    p: int,
    starts: Seq<int>,
    cstarts: Seq<int>,
) -> bool {
    let records = o.detector_executions@;
    let primary_partial = input_partial(input) || some_run_limited(records);
    &&& findings_split(o, p, input)
    &&& detector_blocks(o.findings@.take(p), o.evidence@, records, detectors, configs, input, limits, starts)
    &&& correlator_blocks(
        o.findings@,
        o.evidence@,
        o.correlator_executions@,
        correlators,
        configs,
        p,
        primary_partial,
        limits.2 as nat,
        cstarts,
    )
}

/// `note` reports the correlator record's failure: a failed correlator with the reason its
/// output failed validation; a rejected output with the resource and limit it exceeded.
pub open spec fn reports_correlator_record(rec: CorrelatorExecutionRecord, note: Seq<char>) -> bool {
    match rec.status {
        CorrelatorExecutionStatus::Failed { reason } => note == "correlator "@ + "'"@ + rec.correlator_id@ + "'"@
            + " failed validation: "@ + reason@,
        CorrelatorExecutionStatus::ResourceLimited => exists|res: Seq<char>, lim: nat|
            note == "output budget exceeded ("@ + res + " >= "@ + decimal(lim)
                + "), rejecting output from correlator "@ + "'"@ + rec.correlator_id@ + "'"@,
        _ => false,
    }
}

/// The notes, of those at the same positions as correlator records that make the run
/// partial, in order.
pub open spec fn limited_correlator_notes(recs: Seq<CorrelatorExecutionRecord>, notes: Seq<Seq<char>>) -> Seq<
    Seq<char>,
>
    decreases recs.len(),
{
    if recs.len() == 0 {
        Seq::empty()
    } else {
        let prev = limited_correlator_notes(recs.drop_last(), notes.take(recs.len() - 1));
        if correlator_limits_run(recs.last().status) {
            prev.push(notes[recs.len() - 1])
        } else {
            prev
        }
    }
}

/// The diagnostics of a run with correlators report, in order and up to `max` of them, one
/// note for each detector record and then each correlator record that made the run partial.
pub open spec fn correlated_diagnostics_report(
    diags: Seq<String>,
    recs: Seq<DetectorExecutionRecord>,
    crecs: Seq<CorrelatorExecutionRecord>,
    max: nat,
) -> bool {
    exists|notes: Seq<Seq<char>>, cnotes: Seq<Seq<char>>|
        #![trigger limited_notes(recs, notes), limited_correlator_notes(crecs, cnotes)]
        notes.len() == recs.len() && cnotes.len() == crecs.len() && (forall|k: int|
            0 <= k < recs.len() && limits_run(recs[k].status) ==> reports_record(#[trigger] recs[k], notes[k]))
            && (forall|k: int|
            0 <= k < crecs.len() && correlator_limits_run(crecs[k].status) ==> reports_correlator_record(
                #[trigger] crecs[k],
                cnotes[k],
            )) && string_views(diags) == capped(
            limited_notes(recs, notes) + limited_correlator_notes(crecs, cnotes),
            max,
        )
}

/// Only the notes at the records' positions matter.
proof fn lemma_limited_correlator_notes_prefix(recs: Seq<CorrelatorExecutionRecord>, notes: Seq<Seq<char>>)
    requires
        notes.len() >= recs.len(),
    ensures
        limited_correlator_notes(recs, notes) == limited_correlator_notes(recs, notes.take(recs.len() as int)),
    decreases recs.len(),
{
    if recs.len() > 0 {
        assert(notes.take(recs.len() as int).take(recs.len() - 1) =~= notes.take(recs.len() - 1));
    }
}

/// One more correlator record and note extend the limited notes by the note exactly when the
/// record makes the run partial.
proof fn lemma_limited_correlator_notes_push(
    recs: Seq<CorrelatorExecutionRecord>,
    notes: Seq<Seq<char>>,
    rec: CorrelatorExecutionRecord,
    note: Seq<char>,
)
    requires
        notes.len() == recs.len(),
    ensures
        limited_correlator_notes(recs.push(rec), notes.push(note)) == (if correlator_limits_run(rec.status) {
            limited_correlator_notes(recs, notes).push(note)
        } else {
            limited_correlator_notes(recs, notes)
        }),
{
    assert(recs.push(rec).drop_last() =~= recs);
    assert(notes.push(note).take(recs.len() as int) =~= notes);
    lemma_limited_correlator_notes_prefix(recs, notes);
}

/// Correlator records none of which makes the run partial have no limited notes.
proof fn lemma_no_limited_correlator_notes(recs: Seq<CorrelatorExecutionRecord>, notes: Seq<Seq<char>>)
    requires
        !some_correlator_limited(recs),
    ensures
        limited_correlator_notes(recs, notes) == Seq::<Seq<char>>::empty(),
    decreases recs.len(),
{
    if recs.len() > 0 {
        assert(!correlator_limits_run(recs[recs.len() - 1].status));
        assert(!some_correlator_limited(recs.drop_last())) by {
            if some_correlator_limited(recs.drop_last()) {
                let k = choose|k: int| 0 <= k < recs.drop_last().len() && correlator_limits_run(
                    #[trigger] recs.drop_last()[k].status,
                );
                assert(recs[k] == recs.drop_last()[k]);
            }
        }
        lemma_no_limited_correlator_notes(recs.drop_last(), notes.take(recs.len() - 1));
    }
}

/// Detector records none of which makes the run partial have no limited notes.
proof fn lemma_no_limited_notes(recs: Seq<DetectorExecutionRecord>, notes: Seq<Seq<char>>)
    requires
        !some_run_limited(recs),
    ensures
        limited_notes(recs, notes) == Seq::<Seq<char>>::empty(),
    decreases recs.len(),
{
    if recs.len() > 0 {
        assert(!limits_run(recs[recs.len() - 1].status));
        assert(!some_run_limited(recs.drop_last())) by {
            if some_run_limited(recs.drop_last()) {
                let k = choose|k: int| 0 <= k < recs.drop_last().len() && limits_run(
                    #[trigger] recs.drop_last()[k].status,
                );
                assert(recs[k] == recs.drop_last()[k]);
            }
        }
        lemma_no_limited_notes(recs.drop_last(), notes.take(recs.len() - 1));
    }
}

/// `o` is the primary outcome `po`, extended: the same detector records and evidence, the
/// primary findings first, and the primary diagnostics first.
pub open spec fn extends_primary(o: DetectionRunOutcome, po: DetectionRunOutcome) -> bool {
    &&& o.detector_executions@ == po.detector_executions@
    &&& o.evidence@ == po.evidence@
    &&& po.findings@.len() <= o.findings@.len()
    &&& o.findings@.take(po.findings@.len() as int) == po.findings@
    &&& po.diagnostics@.len() <= o.diagnostics@.len()
    &&& o.diagnostics@.take(po.diagnostics@.len() as int) == po.diagnostics@
}

/// What every outcome of a run with correlators satisfies: the detector records as in a run
/// without them; one consistent record per correlator in registry order; the run is partial
/// exactly when the primary results are or some correlator failed or had its output
/// rejected; the findings are the primary store, holding detector by detector what each
/// reported, followed by valid correlated findings, correlator by correlator what each
/// reported, no two of one component about the same subject; the limits hold.
pub open spec fn correlated_outcome_consistent<D: Detector, C: FindingCorrelator>(
    o: DetectionRunOutcome,
    detectors: Seq<D>,
    correlators: Seq<C>,
    configs: Seq<ConfigEntryView>,
    input: DetectionInput<'_>,
    limits: (usize, usize, usize, usize, usize),
) -> bool {
    let records = o.detector_executions@;
    let crecords = o.correlator_executions@;
    let primary_partial = input_partial(input) || some_run_limited(records);
    &&& records.len() == detectors.len()
    &&& forall|k: int|
        0 <= k < records.len() ==> record_consistent(
            #[trigger] records[k],
            detectors[k],
            configs,
            input_partial(input),
        )
    &&& crecords.len() == correlators.len()
    &&& forall|k: int|
        0 <= k < crecords.len() ==> correlator_record_consistent(
            #[trigger] crecords[k],
            correlators[k],
            configs,
            primary_partial,
        )
    &&& (o.completion == DetectionInputCompleteness::Partial <==> primary_partial || some_correlator_limited(
        crecords,
    ))
    &&& exists|p: int, starts: Seq<int>, cstarts: Seq<int>|
        #[trigger] outcome_layout(o, detectors, correlators, configs, input, limits, p, starts, cstarts)
    &&& findings_unique(o.findings@)
    &&& o.findings@.len() <= limits.2
    &&& o.evidence@.len() <= limits.3
    &&& o.diagnostics@.len() <= limits.4
    &&& correlated_diagnostics_report(o.diagnostics@, records, crecords, limits.4 as nat)
}

fn correlator_record(meta: &CorrelatorMetadata, status: CorrelatorExecutionStatus) -> (r: CorrelatorExecutionRecord)
    ensures
        r.correlator_id@ == meta.spec_id(),
        r.correlator_version == meta.spec_version(),
        r.status == status,
{
    CorrelatorExecutionRecord { correlator_id: meta.id().duplicate(), correlator_version: meta.version(), status }
}

/// Correlator `k` is the first, in order, whose identifier names a registered detector.
pub open spec fn first_colliding<C: FindingCorrelator>(cs: Seq<C>, ids: Seq<Seq<char>>, k: int) -> bool {
    &&& 0 <= k < cs.len()
    &&& ids.contains(cs[k].spec_metadata().spec_id())
    &&& forall|t: int| 0 <= t < k ==> !ids.contains((#[trigger] cs[t]).spec_metadata().spec_id())
}

/// Correlator `k` is the first, in order, that requires an unregistered detector, and `m`
/// is the position of the first such requirement in its list.
pub open spec fn first_missing_requirement<C: FindingCorrelator>(
    cs: Seq<C>,
    ids: Seq<Seq<char>>,
    k: int,
    m: int,
) -> bool {
    &&& 0 <= k < cs.len()
    &&& 0 <= m < cs[k].spec_metadata().spec_required().len()
    &&& !ids.contains(cs[k].spec_metadata().spec_required()[m])
    &&& forall|q: int| 0 <= q < m ==> ids.contains(#[trigger] cs[k].spec_metadata().spec_required()[q])
    &&& forall|t: int, q: int|
        0 <= t < k && 0 <= q < (#[trigger] cs[t]).spec_metadata().spec_required().len() ==> ids.contains(
            #[trigger] cs[t].spec_metadata().spec_required()[q],
        )
}


/// Checks the correlators against the detector registry: no correlator identifier names a
/// detector, then every required detector is registered.
fn preflight_correlators<D: Detector, C: FindingCorrelator>(
    detector_registry: &DetectorRegistry<D>,
    correlator_registry: &CorrelationRegistry<C>,
) -> (r: Result<(), DetectionEngineError>)
    ensures
        r is Ok <==> !id_collision(correlator_registry.spec_correlators(), detector_registry.ids()) && !required_missing(
            correlator_registry.spec_correlators(),
            detector_registry.ids(),
        ),
        id_collision(correlator_registry.spec_correlators(), detector_registry.ids()) ==> r matches Err(
            DetectionEngineError::Registry(DetectorRegistryError::CrossRegistryDetectorIdCollision(_)),
        ),
        r matches Err(DetectionEngineError::Registry(DetectorRegistryError::CrossRegistryDetectorIdCollision(id)))
            ==> detector_registry.ids().contains(id@) && correlator_registry.ids().contains(id@),
        r matches Err(e) ==> (e matches DetectionEngineError::Registry(
            DetectorRegistryError::CrossRegistryDetectorIdCollision(_),
        ) || e matches DetectionEngineError::Registry(
            DetectorRegistryError::MissingRequiredPrimaryDetector { .. },
        )),
        r matches Err(DetectionEngineError::Registry(
            DetectorRegistryError::MissingRequiredPrimaryDetector { correlator_id, required_detector_id },
        )) ==> correlator_registry.ids().contains(correlator_id@) && !detector_registry.ids().contains(
            required_detector_id@,
        ) && exists|k: int|
            0 <= k < correlator_registry.spec_correlators().len() && (#[trigger] correlator_registry.spec_correlators()[k]).spec_metadata().spec_id()
                == correlator_id@ && correlator_registry.spec_correlators()[k].spec_metadata().spec_required().contains(
                required_detector_id@,
            ),
        r matches Err(DetectionEngineError::Registry(DetectorRegistryError::CrossRegistryDetectorIdCollision(id)))
            ==> exists|k: int|
            #[trigger] first_colliding(correlator_registry.spec_correlators(), detector_registry.ids(), k) && id@
                == correlator_registry.spec_correlators()[k].spec_metadata().spec_id(),
        r matches Err(DetectionEngineError::Registry(
            DetectorRegistryError::MissingRequiredPrimaryDetector { correlator_id, required_detector_id },
        )) ==> !id_collision(correlator_registry.spec_correlators(), detector_registry.ids()) && exists|k: int, m: int|
            #[trigger] first_missing_requirement(correlator_registry.spec_correlators(), detector_registry.ids(), k, m)
                && correlator_id@ == correlator_registry.spec_correlators()[k].spec_metadata().spec_id()
                && required_detector_id@ == correlator_registry.spec_correlators()[k].spec_metadata().spec_required()[m],
{
    let cs = correlator_registry.correlators();
    let n = cs.len();
    let mut k: usize = 0;
    while k < n
        invariant
            n == cs@.len(),
            cs@ == correlator_registry.spec_correlators(),
            k <= n,
            forall|t: int| 0 <= t < k ==> !detector_registry.ids().contains((#[trigger] cs@[t]).spec_metadata().spec_id()),
        decreases n - k,
    {
        let meta = cs[k].metadata();
        if detector_registry.get(meta.id()).is_some() {
            proof {
                assert(correlator_registry.ids()[k as int] == meta.spec_id());
                assert(correlator_registry.ids().contains(meta.spec_id()));
                assert(id_collision(correlator_registry.spec_correlators(), detector_registry.ids()));
                assert(first_colliding(correlator_registry.spec_correlators(), detector_registry.ids(), k as int));
            }
            return Err(
                DetectionEngineError::Registry(
                    DetectorRegistryError::CrossRegistryDetectorIdCollision(meta.id().duplicate()),
                ),
            );
        }
        k = k + 1;
    }
    let mut k: usize = 0;
    while k < n
        invariant
            n == cs@.len(),
            cs@ == correlator_registry.spec_correlators(),
            k <= n,
            !id_collision(correlator_registry.spec_correlators(), detector_registry.ids()),
            forall|t: int, m: int|
                0 <= t < k && 0 <= m < (#[trigger] cs@[t]).spec_metadata().spec_required().len()
                    ==> detector_registry.ids().contains(#[trigger] cs@[t].spec_metadata().spec_required()[m]),
        decreases n - k,
    {
        let meta = cs[k].metadata();
        let req = meta.required_primary_detector_ids();
        let m = req.len();
        let mut q: usize = 0;
        while q < m
            invariant
                n == cs@.len(),
                cs@ == correlator_registry.spec_correlators(),
                !id_collision(correlator_registry.spec_correlators(), detector_registry.ids()),
                k < n,
                *meta == cs@[k as int].spec_metadata(),
                m == req@.len(),
                crate::correlation::id_views(req@) == meta.spec_required(),
                q <= m,
                forall|t: int, mm: int|
                    0 <= t < k && 0 <= mm < (#[trigger] cs@[t]).spec_metadata().spec_required().len()
                        ==> detector_registry.ids().contains(#[trigger] cs@[t].spec_metadata().spec_required()[mm]),
                forall|t: int| 0 <= t < q ==> detector_registry.ids().contains(#[trigger] meta.spec_required()[t]),
            decreases m - q,
        {
            assert(meta.spec_required()[q as int] == req@[q as int]@);
            if detector_registry.get(&req[q]).is_none() {
                proof {
                    assert(correlator_registry.ids()[k as int] == meta.spec_id());
                    assert(correlator_registry.ids().contains(meta.spec_id()));
                    assert(!detector_registry.ids().contains(cs@[k as int].spec_metadata().spec_required()[q as int]));
                    assert(required_missing(correlator_registry.spec_correlators(), detector_registry.ids()));
                    assert(cs@[k as int].spec_metadata().spec_required()[q as int] == req@[q as int]@);
                    assert(cs@[k as int].spec_metadata().spec_required().contains(req@[q as int]@));
                    assert(first_missing_requirement(
                        correlator_registry.spec_correlators(),
                        detector_registry.ids(),
                        k as int,
                        q as int,
                    ));
                }
                return Err(
                    DetectionEngineError::Registry(
                        DetectorRegistryError::MissingRequiredPrimaryDetector {
                            correlator_id: meta.id().duplicate(),
                            required_detector_id: req[q].duplicate(),
                        },
                    ),
                );
            }
            q = q + 1;
        }
        k = k + 1;
    }
    Ok(())
}

} // verus!
verus! {

/// Evaluates all registered detectors, then all registered correlators over the primary
/// findings.
///
/// Before anything runs, no correlator may share an identifier with a detector and every
/// detector a correlator requires must be registered. When the primary results are partial,
/// every correlator is skipped. Otherwise correlators run in canonical order over the frozen
/// primary findings and the evidence pool; a correlator whose required detector is disabled
/// is skipped, and a correlator's output is accepted as a whole or recorded as a failure or a
/// rejection, which makes the run partial. Correlated findings follow the primary findings
/// and reuse existing evidence records.
pub fn execute_detection_with_correlators<D: Detector, C: FindingCorrelator>(
    detector_registry: &DetectorRegistry<D>,
    correlator_registry: &CorrelationRegistry<C>,
    input: &DetectionInput<'_>,
    configurations: &DetectorConfigurations,
    limits: &DetectionLimits,
) -> (r: Result<DetectionRunOutcome, DetectionEngineError>)
    ensures
        id_collision(correlator_registry.spec_correlators(), detector_registry.ids()) ==> r matches Err(
            DetectionEngineError::Registry(DetectorRegistryError::CrossRegistryDetectorIdCollision(_)),
        ),
        !id_collision(correlator_registry.spec_correlators(), detector_registry.ids()) && required_missing(
            correlator_registry.spec_correlators(),
            detector_registry.ids(),
        ) ==> r matches Err(
            DetectionEngineError::Registry(DetectorRegistryError::MissingRequiredPrimaryDetector { .. }),
        ),
        r matches Err(DetectionEngineError::Registry(_)) ==> id_collision(
            correlator_registry.spec_correlators(),
            detector_registry.ids(),
        ) || required_missing(correlator_registry.spec_correlators(), detector_registry.ids()),
        r matches Err(DetectionEngineError::Registry(DetectorRegistryError::CrossRegistryDetectorIdCollision(id)))
            ==> exists|k: int|
            #[trigger] first_colliding(correlator_registry.spec_correlators(), detector_registry.ids(), k) && id@
                == correlator_registry.spec_correlators()[k].spec_metadata().spec_id(),
        r matches Err(DetectionEngineError::Registry(
            DetectorRegistryError::MissingRequiredPrimaryDetector { correlator_id, required_detector_id },
        )) ==> !id_collision(correlator_registry.spec_correlators(), detector_registry.ids()) && exists|k: int, m: int|
            #[trigger] first_missing_requirement(correlator_registry.spec_correlators(), detector_registry.ids(), k, m)
                && correlator_id@ == correlator_registry.spec_correlators()[k].spec_metadata().spec_id()
                && required_detector_id@ == correlator_registry.spec_correlators()[k].spec_metadata().spec_required()[m],
        !id_collision(correlator_registry.spec_correlators(), detector_registry.ids()) && !required_missing(
            correlator_registry.spec_correlators(),
            detector_registry.ids(),
        ) ==> {
            &&& detector_registry.spec_detectors().len() > limits.parts().0 ==> (r matches Err(
                DetectionEngineError::ResourceLimit { resource, capacity },
            ) && resource@ == "registered_detectors"@ && capacity == limits.parts().0)
            &&& detector_registry.spec_detectors().len() <= limits.parts().0 ==> (r matches Err(
                DetectionEngineError::Config(_),
            ) <==> !preflight_ok(
                detector_registry.spec_detectors(),
                configurations@,
                limits.parts().1 as nat,
            ))
        },
        r matches Err(e) ==> (e is Registry || e is Config || e is Output || (e matches DetectionEngineError::ResourceLimit {
            resource,
            ..
        } && (resource@ == "registered_detectors"@ || resource@ == "evidence_count_overflow"@))),
        r matches Ok(o) ==> correlated_outcome_consistent(
            o,
            detector_registry.spec_detectors(),
            correlator_registry.spec_correlators(),
            configurations@,
            *input,
            limits.parts(),
        ),
        r matches Ok(o) ==> exists|po: DetectionRunOutcome|
            #[trigger] extends_primary(o, po) && run_outcome_consistent(
                po,
                detector_registry.spec_detectors(),
                configurations@,
                *input,
                limits.parts(),
            ),
        r matches Err(DetectionEngineError::Config(e)) ==> config_rejection(
            detector_registry.spec_detectors(),
            configurations@,
            limits.parts().1 as nat,
            e,
        ),
        !id_collision(correlator_registry.spec_correlators(), detector_registry.ids()) && !required_missing(
            correlator_registry.spec_correlators(),
            detector_registry.ids(),
        ) && detector_registry.spec_detectors().len() <= limits.parts().0 && preflight_ok(
            detector_registry.spec_detectors(),
            configurations@,
            limits.parts().1 as nat,
        ) && runs_acceptable(detector_registry.spec_detectors(), configurations@, *input) ==> r is Ok,
{
    match preflight_correlators(detector_registry, correlator_registry) {
        Ok(()) => {},
        Err(e) => {
            return Err(e);
        },
    }
    let primary_outcome = match execute_detection(detector_registry, input, configurations, limits) {
        Ok(o) => o,
        Err(e) => {
            return Err(e);
        },
    };
    let ghost po = primary_outcome;
    let ghost pnotes = choose|notes: Seq<Seq<char>>|
        #![trigger limited_notes(po.detector_executions@, notes)]
        notes.len() == po.detector_executions@.len() && (forall|k: int|
            0 <= k < po.detector_executions@.len() && limits_run(po.detector_executions@[k].status) ==> reports_record(
                #[trigger] po.detector_executions@[k],
                notes[k],
            )) && string_views(po.diagnostics@) == capped(
            limited_notes(po.detector_executions@, notes),
            limits.parts().4 as nat,
        );
    let DetectionRunOutcome {
        completion,
        detector_executions,
        correlator_executions: _,
        mut findings,
        evidence,
        mut diagnostics,
    } = primary_outcome;
    let ghost cv = configurations@;
    let ghost primary_partial = input_partial(*input) || some_run_limited(detector_executions@);
    let cs = correlator_registry.correlators();
    let n = cs.len();
    let mut crecords: Vec<CorrelatorExecutionRecord> = Vec::new();
    let max_findings = limits.max_total_findings();
    let max_diagnostics = limits.max_execution_diagnostics();
    let skip_all = match completion {
        DetectionInputCompleteness::Partial => true,
        DetectionInputCompleteness::Complete => false,
    };
    assert(skip_all == primary_partial);
    proof {
        assert(findings@.take(findings@.len() as int) =~= findings@);
        assert(findings_split(po, findings@.len() as int, *input));
        assert(findings@ + Seq::<FindingRecord>::empty() =~= findings@);
    }
    if skip_all {
        let mut k: usize = 0;
        while k < n
            invariant
                n == cs@.len(),
                cs@ == correlator_registry.spec_correlators(),
                k <= n,
                primary_partial,
                crecords@.len() == k,
                forall|t: int|
                    0 <= t < k ==> correlator_record_consistent(#[trigger] crecords@[t], cs@[t], cv, primary_partial),
            decreases n - k,
        {
            let ghost c0 = crecords@;
            crecords.push(correlator_record(cs[k].metadata(), CorrelatorExecutionStatus::SkippedIncompleteData));
            proof {
                assert forall|t: int| 0 <= t < k + 1 implies correlator_record_consistent(
                    #[trigger] crecords@[t],
                    cs@[t],
                    cv,
                    primary_partial,
                ) by {
                    if t < k {
                        assert(crecords@[t] == c0[t]);
                    }
                }
            }
            k = k + 1;
        }
        let outcome = DetectionRunOutcome {
            completion,
            detector_executions,
            correlator_executions: crecords,
            findings,
            evidence,
            diagnostics,
        };
        proof {
            assert(outcome.findings@ == po.findings@);
            assert(outcome.detector_executions@ == po.detector_executions@);
            assert(outcome.evidence@ == po.evidence@);
            let fs = outcome.findings@;
            assert(fs.take(fs.len() as int) =~= fs);
            assert forall|i: int| 0 <= i < fs.len() implies exists|q: int|
                0 <= q < outcome.detector_executions@.len() && produced_by(
                    #[trigger] fs[i],
                    #[trigger] outcome.detector_executions@[q],
                ) by {
                let q = choose|q: int| 0 <= q < po.detector_executions@.len() && produced_by(
                    po.findings@[i],
                    #[trigger] po.detector_executions@[q],
                );
                assert(produced_by(fs[i], outcome.detector_executions@[q]));
            }
            assert(findings_split(outcome, outcome.findings@.len() as int, *input));
            let pl = fs.len() as int;
            let cstarts = Seq::new((n + 1) as nat, |i: int| pl);
            assert forall|q: int| 0 <= q < n implies #[trigger] correlator_block_at(
                fs,
                outcome.evidence@,
                outcome.correlator_executions@,
                cs@,
                cv,
                pl,
                primary_partial,
                max_findings as nat,
                cstarts,
                q,
            ) by {
                assert(cstarts[q] == pl && cstarts[q + 1] == pl);
            }
            assert(correlator_blocks(
                fs,
                outcome.evidence@,
                outcome.correlator_executions@,
                cs@,
                cv,
                pl,
                primary_partial,
                max_findings as nat,
                cstarts,
            ));
            let starts = choose|starts: Seq<int>|
                #[trigger] detector_blocks(
                    po.findings@,
                    po.evidence@,
                    po.detector_executions@,
                    detector_registry.spec_detectors(),
                    cv,
                    *input,
                    limits.parts(),
                    starts,
                );
            assert(detector_blocks(
                fs.take(pl),
                outcome.evidence@,
                outcome.detector_executions@,
                detector_registry.spec_detectors(),
                cv,
                *input,
                limits.parts(),
                starts,
            ));
            assert(outcome_layout(
                outcome,
                detector_registry.spec_detectors(),
                correlator_registry.spec_correlators(),
                cv,
                *input,
                limits.parts(),
                pl,
                starts,
                cstarts,
            ));
            let cnotes = Seq::new(n as nat, |i: int| Seq::<char>::empty());
            assert(!some_correlator_limited(outcome.correlator_executions@)) by {
                if some_correlator_limited(outcome.correlator_executions@) {
                    let q = choose|q: int|
                        0 <= q < outcome.correlator_executions@.len() && correlator_limits_run(
                            #[trigger] outcome.correlator_executions@[q].status,
                        );
                    assert(correlator_record_consistent(
                        outcome.correlator_executions@[q],
                        cs@[q],
                        cv,
                        primary_partial,
                    ));
                }
            }
            lemma_no_limited_correlator_notes(outcome.correlator_executions@, cnotes);
            assert(limited_notes(outcome.detector_executions@, pnotes) + limited_correlator_notes(
                outcome.correlator_executions@,
                cnotes,
            ) =~= limited_notes(outcome.detector_executions@, pnotes));
            assert(outcome.diagnostics@ == po.diagnostics@);
            assert(correlated_diagnostics_report(
                outcome.diagnostics@,
                outcome.detector_executions@,
                outcome.correlator_executions@,
                limits.parts().4 as nat,
            ));
            assert(outcome.findings@.take(po.findings@.len() as int) =~= po.findings@);
            assert(outcome.diagnostics@.take(po.diagnostics@.len() as int) =~= po.diagnostics@);
            assert(extends_primary(outcome, po));
        }
        return Ok(outcome);
    }
    let ghost p = findings@.len();
    let ghost fprimary = findings@;
    let mut completion = DetectionInputCompleteness::Complete;
    let mut correlated: Vec<FindingRecord> = Vec::new();
    let default_cfg = DetectorConfig::enabled();
    let ghost mut cstarts: Seq<int> = seq![p as int];
    let ghost mut cnotes: Seq<Seq<char>> = Seq::empty();
    proof {
        assert(fprimary + correlated@ =~= fprimary);
        assert(fprimary.take(p as int) =~= fprimary);
        lemma_no_limited_notes(detector_executions@, pnotes);
        assert(string_views(diagnostics@) =~= capped(
            limited_correlator_notes(crecords@, cnotes),
            max_diagnostics as nat,
        ));
    }
    let mut k: usize = 0;
    while k < n
        invariant
            cnotes.len() == crecords@.len(),
            forall|t: int|
                0 <= t < crecords@.len() && correlator_limits_run(crecords@[t].status)
                    ==> reports_correlator_record(#[trigger] crecords@[t], cnotes[t]),
            string_views(diagnostics@) == capped(limited_correlator_notes(crecords@, cnotes), max_diagnostics as nat),
            cstarts.len() == k + 1,
            cstarts[0] == p,
            cstarts[k as int] == p + correlated@.len(),
            (fprimary + correlated@).take(p as int) == fprimary,
            forall|q: int|
                0 <= q < k ==> #[trigger] correlator_block_at(
                    fprimary + correlated@,
                    evidence@,
                    crecords@,
                    cs@,
                    cv,
                    p as int,
                    primary_partial,
                    max_findings as nat,
                    cstarts,
                    q,
                ),
            n == cs@.len(),
            cs@ == correlator_registry.spec_correlators(),
            k <= n,
            !primary_partial,
            cv == configurations@,
            fprimary == findings@,
            p == findings@.len(),
            default_cfg.view_pair() == (true, Seq::<ParameterView>::empty()),
            max_findings == limits.parts().2,
            max_diagnostics == limits.parts().4,
            max_findings <= crate::limits::HARD_MAX_TOTAL_FINDINGS,
            p + correlated@.len() <= max_findings,
            diagnostics@.len() <= max_diagnostics,
            crecords@.len() == k,
            forall|t: int|
                0 <= t < k ==> correlator_record_consistent(#[trigger] crecords@[t], cs@[t], cv, primary_partial),
            (completion == DetectionInputCompleteness::Partial) <==> some_correlator_limited(crecords@),
            forall|t: int|
                0 <= t < correlated@.len() ==> (#[trigger] correlated@[t]).reference.id == p + t
                    && correlated_valid(correlated@[t], fprimary),
            correlated_attributed(correlated@, 0, crecords@),
            findings_unique(fprimary + correlated@),
        decreases n - k,
    {
        let meta = cs[k].metadata();
        let ghost c0 = crecords@;
        let ghost d0 = diagnostics@;
        let ghost l0 = limited_correlator_notes(crecords@, cnotes);
        let ghost mut note_g: Seq<char> = Seq::empty();
        let ghost cor0 = correlated@;
        let ghost start: int = (p + cor0.len()) as int;
        let ghost mut ok_eval = false;
        let ghost mut raw_g = Seq::<CorrelationDraft>::empty();
        let ghost mut sorted_g = Seq::<CorrelationDraft>::empty();
        let ghost mut nf_g = Seq::<FindingRecord>::empty();
        proof {
            assert(correlation_views(Seq::<CorrelationDraft>::empty()) =~= Seq::<CorrelationView>::empty());
            assert(Seq::<CorrelationView>::empty() + cs@[k as int].spec_correlations(fprimary, evidence@) =~= cs@[
                k as int].spec_correlations(fprimary, evidence@));
        }
        if any_required_disabled(meta, configurations, &default_cfg) {
            crecords.push(correlator_record(meta, CorrelatorExecutionStatus::SkippedUnavailableSources));
        } else {
            let remaining = max_findings - (findings.len() + correlated.len());
            let mut sink = CorrelationDraftSink::new(remaining);
            let res = cs[k].correlate(findings.as_slice(), evidence.as_slice(), &mut sink);
            let processed: Result<Vec<FindingRecord>, DetectionOutputError> = match res {
                Err(DetectorExecutionError::ResourceLimitExceeded(_)) => Err(
                    DetectionOutputError::OutputLimitExceeded { resource: "correlation_drafts", limit: max_findings },
                ),
                Err(DetectorExecutionError::InternalError(msg)) => Err(
                    DetectionOutputError::ReferentialIntegrityError(msg),
                ),
                Ok(()) => {
                    let drafts = sink.into_drafts();
                    proof {
                        ok_eval = true;
                        raw_g = drafts@;
                    }
                    if drafts.len() == 0 {
                        proof {
                            sorted_g = drafts@;
                        }
                        Ok(Vec::new())
                    } else {
                        let r = accept_correlator_output(drafts, meta, findings.as_slice(), &correlated, max_findings);
                        proof {
                            sorted_g = choose|sorted: Seq<CorrelationDraft>|
                                #![trigger crate::provenance::correlations_canonical(sorted)]
                                sorted.to_multiset() == raw_g.to_multiset() && crate::provenance::correlations_canonical(
                                    sorted,
                                ) && (r is Ok <==> correlation_acceptable(
                                    sorted,
                                    fprimary,
                                    cor0,
                                    meta.spec_id(),
                                    max_findings as nat,
                                )) && (r matches Err(e) ==> (e is OutputLimitExceeded <==> correlation_over_capacity(
                                    sorted,
                                    fprimary,
                                    cor0,
                                    meta.spec_id(),
                                    max_findings as nat,
                                ))) && (r matches Ok(new) ==> new@.len() == sorted.len() && forall|t: int|
                                    0 <= t < sorted.len() ==> correlated_from(
                                        #[trigger] new@[t],
                                        sorted[t]@,
                                        *meta,
                                        fprimary.len() + cor0.len() + t,
                                    ));
                        }
                        r
                    }
                },
            };
            proof {
                if ok_eval {
                    assert(crate::provenance::correlations_canonical(sorted_g));
                    assert(sorted_g.to_multiset() == raw_g.to_multiset());
                    assert(processed is Ok <==> correlation_acceptable(
                        sorted_g,
                        fprimary,
                        cor0,
                        meta.spec_id(),
                        max_findings as nat,
                    ));
                }
            }
            match processed {
                Ok(new_findings) => {
                    let ghost nf = new_findings@;
                    proof {
                        nf_g = nf;
                    }
                    let mut new_findings = new_findings;
                    correlated.append(&mut new_findings);
                    crecords.push(correlator_record(meta, CorrelatorExecutionStatus::Executed));
                    proof {
                        if nf.len() == 0 {
                            assert(fprimary + cor0 + nf =~= fprimary + cor0);
                        }
                        assert(fprimary + correlated@ =~= fprimary + cor0 + nf);
                        assert forall|t: int| 0 <= t < correlated@.len() implies (#[trigger] correlated@[t]).reference.id
                            == p + t && correlated_valid(correlated@[t], fprimary) by {
                            if t < cor0.len() {
                                assert(correlated@[t] == cor0[t]);
                            } else {
                                assert(correlated@[t] == nf[t - cor0.len()]);
                            }
                        }
                        assert forall|t: int| 0 <= t < correlated@.len() implies attributed_to_correlator(
                            #[trigger] correlated@[t],
                            crecords@,
                        ) by {
                            if t < cor0.len() {
                                assert(correlated@[t] == cor0[t]);
                                assert(attributed_to_correlator(cor0[t], c0));
                                let q = choose|q: int| 0 <= q < c0.len() && correlated_by(cor0[t], #[trigger] c0[q]);
                                assert(crecords@[q] == c0[q]);
                                assert(correlated_by(correlated@[t], crecords@[q]));
                            } else {
                                assert(correlated@[t] == nf[t - cor0.len()]);
                                assert(correlated_by(correlated@[t], crecords@[k as int]));
                            }
                        }
                    }
                },
                Err(DetectionOutputError::OutputLimitExceeded { resource, limit }) => {
                    completion = DetectionInputCompleteness::Partial;
                    proof {
                        note_g = "output budget exceeded ("@ + resource@ + " >= "@ + decimal(limit as nat)
                            + "), rejecting output from correlator "@ + "'"@ + meta.spec_id() + "'"@;
                    }
                    if diagnostics.len() < max_diagnostics {
                        let mut text = String::from_str("output budget exceeded (");
                        text.append(resource);
                        text.append(" >= ");
                        push_decimal(&mut text, limit as u128);
                        text.append("), rejecting output from correlator ");
                        text.append("'");
                        text.append(meta.id().as_str());
                        text.append("'");
                        proof {
                            assert(text@ =~= note_g);
                            lemma_diagnostic_written(d0, text, l0, note_g, max_diagnostics as nat);
                        }
                        diagnostics.push(text);
                    } else {
                        proof {
                            lemma_diagnostic_dropped(d0, l0, note_g, max_diagnostics as nat);
                        }
                    }
                    crecords.push(correlator_record(meta, CorrelatorExecutionStatus::ResourceLimited));
                },
                Err(err) => {
                    completion = DetectionInputCompleteness::Partial;
                    let reason = err.describe();
                    proof {
                        note_g = "correlator "@ + "'"@ + meta.spec_id() + "'"@ + " failed validation: "@ + reason@;
                    }
                    if diagnostics.len() < max_diagnostics {
                        let mut text = quoted_id_message("correlator ", meta.id(), " failed validation: ");
                        text.append(reason.as_str());
                        proof {
                            assert(text@ =~= note_g);
                            lemma_diagnostic_written(d0, text, l0, note_g, max_diagnostics as nat);
                        }
                        diagnostics.push(text);
                    } else {
                        proof {
                            lemma_diagnostic_dropped(d0, l0, note_g, max_diagnostics as nat);
                        }
                    }
                    crecords.push(correlator_record(meta, CorrelatorExecutionStatus::Failed { reason }));
                },
            }
        }
        proof {
            let rec = crecords@[k as int];
            assert(crecords@ =~= c0.push(rec));
            lemma_limited_correlator_notes_push(c0, cnotes, rec, note_g);
            let cnotes2 = cnotes.push(note_g);
            if correlator_limits_run(rec.status) {
                assert(reports_correlator_record(rec, note_g));
                assert(string_views(diagnostics@) == capped(l0.push(note_g), max_diagnostics as nat));
            } else {
                assert(diagnostics@ == d0);
            }
            assert forall|t: int|
                0 <= t < crecords@.len() && correlator_limits_run(crecords@[t].status) implies reports_correlator_record(
                    #[trigger] crecords@[t],
                    cnotes2[t],
                ) by {
                if t < k {
                    assert(crecords@[t] == c0[t]);
                }
            }
            cnotes = cnotes2;
            assert forall|t: int| 0 <= t < k + 1 implies correlator_record_consistent(
                #[trigger] crecords@[t],
                cs@[t],
                cv,
                primary_partial,
            ) by {
                if t < k {
                    assert(crecords@[t] == c0[t]);
                }
            }
            if some_correlator_limited(c0) {
                let q = choose|q: int| 0 <= q < c0.len() && correlator_limits_run(#[trigger] c0[q].status);
                assert(crecords@[q] == c0[q]);
            }
            if correlator_limits_run(rec.status) {
                assert(correlator_limits_run(crecords@[k as int].status));
            }
            if some_correlator_limited(crecords@) {
                let q = choose|q: int| 0 <= q < crecords@.len() && correlator_limits_run(#[trigger] crecords@[q].status);
                if q < k {
                    assert(c0[q] == crecords@[q]);
                }
            }
            if correlated@ == cor0 {
                assert forall|t: int| 0 <= t < correlated@.len() implies attributed_to_correlator(
                    #[trigger] correlated@[t],
                    crecords@,
                ) by {
                    assert(attributed_to_correlator(cor0[t], c0));
                    let q = choose|q: int| 0 <= q < c0.len() && correlated_by(cor0[t], #[trigger] c0[q]);
                    assert(crecords@[q] == c0[q]);
                    assert(correlated_by(correlated@[t], crecords@[q]));
                }
            }
            let fs0 = fprimary + cor0;
            let fs1 = fprimary + correlated@;
            let cstarts2 = cstarts.push((p + correlated@.len()) as int);
            assert(fs1.take(fs0.len() as int) =~= fs0);
            assert(fs1.take(p as int) =~= fprimary);
            assert(fs1.subrange(p as int, start) =~= cor0);
            if rec.status is Executed {
                assert(correlated@ =~= cor0 + nf_g);
                assert forall|t: int| 0 <= t < nf_g.len() implies fs1[start + t] == nf_g[t] by {
                    assert(fs1[start + t] == correlated@[cor0.len() + t]);
                }
            } else {
                assert(correlated@ == cor0);
            }
            assert(correlator_block_at(
                fs1,
                evidence@,
                crecords@,
                cs@,
                cv,
                p as int,
                primary_partial,
                max_findings as nat,
                cstarts2,
                k as int,
            ));
            assert forall|q: int| 0 <= q < k + 1 implies #[trigger] correlator_block_at(
                fs1,
                evidence@,
                crecords@,
                cs@,
                cv,
                p as int,
                primary_partial,
                max_findings as nat,
                cstarts2,
                q,
            ) by {
                if q < k {
                    lemma_correlator_block_extend(
                        fs0,
                        evidence@,
                        c0,
                        cs@,
                        cv,
                        p as int,
                        primary_partial,
                        max_findings as nat,
                        cstarts,
                        fs1,
                        crecords@,
                        cstarts2,
                        q,
                    );
                }
            }
            cstarts = cstarts2;
        }
        k = k + 1;
    }
    let ghost fc = correlated@;
    let ghost crf = crecords@;
    findings.append(&mut correlated);
    let outcome = DetectionRunOutcome {
        completion,
        detector_executions,
        correlator_executions: crecords,
        findings,
        evidence,
        diagnostics,
    };
    proof {
        let fs = outcome.findings@;
        assert(fs.take(p as int) =~= fprimary);
        assert forall|i: int| p <= i < fs.len() implies (#[trigger] fs[i]).reference.id == i && correlated_valid(
            fs[i],
            fs.take(p as int),
        ) by {
            assert(fs[i] == fc[i - p]);
        }
        assert(outcome.detector_executions@ == po.detector_executions@);
        assert(outcome.evidence@ == po.evidence@);
        assert(fprimary == po.findings@);
        assert(store_well_formed(fs.take(p as int), outcome.evidence@));
        assert(store_resolves(fs.take(p as int), outcome.evidence@, input.flows_view(), input.observations_view()));
        assert(findings_have_evidence(fs.take(p as int)));
        assert(findings_unique(fs.take(p as int)));
        let crs = outcome.correlator_executions@;
        assert(crs == crf);
        assert(fs =~= fprimary + fc);
        lemma_attributed_shift(fs, fprimary, fc, crs);
        assert forall|i: int| 0 <= i < p implies exists|q: int|
            0 <= q < outcome.detector_executions@.len() && produced_by(
                #[trigger] fs[i],
                #[trigger] outcome.detector_executions@[q],
            ) by {
            assert(fs[i] == fprimary[i]);
            let q = choose|q: int| 0 <= q < po.detector_executions@.len() && produced_by(
                po.findings@[i],
                #[trigger] po.detector_executions@[q],
            );
            assert(produced_by(fs[i], outcome.detector_executions@[q]));
        }
        assert(findings_split(outcome, p as int, *input));
        let starts = choose|starts: Seq<int>|
            #[trigger] detector_blocks(
                po.findings@,
                po.evidence@,
                po.detector_executions@,
                detector_registry.spec_detectors(),
                cv,
                *input,
                limits.parts(),
                starts,
            );
        assert(detector_blocks(
            fs.take(p as int),
            outcome.evidence@,
            outcome.detector_executions@,
            detector_registry.spec_detectors(),
            cv,
            *input,
            limits.parts(),
            starts,
        ));
        assert(fprimary + fc == fs);
        assert(correlator_blocks(
            fs,
            outcome.evidence@,
            outcome.correlator_executions@,
            correlator_registry.spec_correlators(),
            cv,
            p as int,
            primary_partial,
            max_findings as nat,
            cstarts,
        ));
        assert(outcome_layout(
            outcome,
            detector_registry.spec_detectors(),
            correlator_registry.spec_correlators(),
            cv,
            *input,
            limits.parts(),
            p as int,
            starts,
            cstarts,
        ));
        lemma_no_limited_notes(outcome.detector_executions@, pnotes);
        assert(limited_notes(outcome.detector_executions@, pnotes) + limited_correlator_notes(crs, cnotes)
            =~= limited_correlator_notes(crs, cnotes));
        assert(correlated_diagnostics_report(
            outcome.diagnostics@,
            outcome.detector_executions@,
            outcome.correlator_executions@,
            limits.parts().4 as nat,
        ));
        lemma_no_limited_notes(po.detector_executions@, pnotes);
        assert(string_views(po.diagnostics@).len() == po.diagnostics@.len());
        assert(po.diagnostics@.len() == 0);
        assert(outcome.diagnostics@.take(0) =~= po.diagnostics@);
        assert(outcome.findings@.take(po.findings@.len() as int) =~= po.findings@);
        assert(extends_primary(outcome, po));
    }
    Ok(outcome)
}

} // verus!

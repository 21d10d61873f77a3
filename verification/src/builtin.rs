//! The built-in detectors and correlator, and the registries that hold them.

use vstd::prelude::*;
use crate::analysis::AnalysisError;
use crate::config::{DetectorParameters, ParameterView};
use crate::connection_behavior::RepeatedLowVolumeFlowDetector;
use crate::correlation::{CorrelationRegistry, FindingCorrelator};
use crate::detector::{Detector, DetectorDraftSink, DetectorMetadata};
use crate::dns_anomaly::{DnsLongQueryNameDetector, DnsPossibleTunnelingDetector};
use crate::error::{DetectorConfigError, DetectorExecutionError};
use crate::input::DetectionInput;
use crate::views::DraftView;
use crate::multi_signal::PossibleC2MultiSignalCorrelator;
use crate::periodic_beaconing::PeriodicBeaconingDetector;
use crate::registry::DetectorRegistry;
use crate::engine::{id_collision, required_missing};

verus! {

/// One of the built-in detectors.
#[derive(Debug)]
pub enum BuiltinDetector {
    /// `behavior.periodic_beaconing`.
    PeriodicBeaconing(PeriodicBeaconingDetector),
    /// `dns.possible_tunneling`.
    DnsPossibleTunneling(DnsPossibleTunnelingDetector),
    /// `dns.long_query_name`.
    DnsLongQueryName(DnsLongQueryNameDetector),
    /// `behavior.repeated_low_volume_flows`.
    RepeatedLowVolumeFlow(RepeatedLowVolumeFlowDetector),
}

impl Detector for BuiltinDetector {
    open spec fn spec_metadata(&self) -> DetectorMetadata {
        match self {
            BuiltinDetector::PeriodicBeaconing(d) => d.spec_metadata(),
            BuiltinDetector::DnsPossibleTunneling(d) => d.spec_metadata(),
            BuiltinDetector::DnsLongQueryName(d) => d.spec_metadata(),
            BuiltinDetector::RepeatedLowVolumeFlow(d) => d.spec_metadata(),
        }
    }

    fn metadata(&self) -> (m: &DetectorMetadata) {
        match self {
            BuiltinDetector::PeriodicBeaconing(d) => d.metadata(),
            BuiltinDetector::DnsPossibleTunneling(d) => d.metadata(),
            BuiltinDetector::DnsLongQueryName(d) => d.metadata(),
            BuiltinDetector::RepeatedLowVolumeFlow(d) => d.metadata(),
        }
    }

    open spec fn spec_params_valid(&self, parameters: Seq<ParameterView>) -> bool {
        match self {
            BuiltinDetector::PeriodicBeaconing(d) => d.spec_params_valid(parameters),
            BuiltinDetector::DnsPossibleTunneling(d) => d.spec_params_valid(parameters),
            BuiltinDetector::DnsLongQueryName(d) => d.spec_params_valid(parameters),
            BuiltinDetector::RepeatedLowVolumeFlow(d) => d.spec_params_valid(parameters),
        }
    }

    open spec fn spec_rejection(&self, parameters: Seq<ParameterView>, e: DetectorConfigError) -> bool {
        match self {
            BuiltinDetector::PeriodicBeaconing(d) => d.spec_rejection(parameters, e),
            BuiltinDetector::DnsPossibleTunneling(d) => d.spec_rejection(parameters, e),
            BuiltinDetector::DnsLongQueryName(d) => d.spec_rejection(parameters, e),
            BuiltinDetector::RepeatedLowVolumeFlow(d) => d.spec_rejection(parameters, e),
        }
    }

    open spec fn spec_fails_internally(
        &self,
        input: DetectionInput<'_>,
        parameters: Seq<ParameterView>,
        prior: Seq<DraftView>,
        finding_budget: nat,
        evidence_budget: nat,
    ) -> bool {
        match self {
            BuiltinDetector::PeriodicBeaconing(d) => d.spec_fails_internally(input, parameters, prior, finding_budget, evidence_budget),
            BuiltinDetector::DnsPossibleTunneling(d) => d.spec_fails_internally(input, parameters, prior, finding_budget, evidence_budget),
            BuiltinDetector::DnsLongQueryName(d) => d.spec_fails_internally(input, parameters, prior, finding_budget, evidence_budget),
            BuiltinDetector::RepeatedLowVolumeFlow(d) => d.spec_fails_internally(input, parameters, prior, finding_budget, evidence_budget),
        }
    }

    fn validate_parameters(&self, parameters: &DetectorParameters) -> (r: Result<(), DetectorConfigError>) {
        match self {
            BuiltinDetector::PeriodicBeaconing(d) => d.validate_parameters(parameters),
            BuiltinDetector::DnsPossibleTunneling(d) => d.validate_parameters(parameters),
            BuiltinDetector::DnsLongQueryName(d) => d.validate_parameters(parameters),
            BuiltinDetector::RepeatedLowVolumeFlow(d) => d.validate_parameters(parameters),
        }
    }

    open spec fn spec_drafts(&self, input: DetectionInput<'_>, parameters: Seq<ParameterView>) -> Seq<DraftView> {
        match self {
            BuiltinDetector::PeriodicBeaconing(d) => d.spec_drafts(input, parameters),
            BuiltinDetector::DnsPossibleTunneling(d) => d.spec_drafts(input, parameters),
            BuiltinDetector::DnsLongQueryName(d) => d.spec_drafts(input, parameters),
            BuiltinDetector::RepeatedLowVolumeFlow(d) => d.spec_drafts(input, parameters),
        }
    }

    open spec fn spec_succeeds(
        &self,
        input: DetectionInput<'_>,
        parameters: Seq<ParameterView>,
        prior: Seq<DraftView>,
        finding_budget: nat,
        evidence_budget: nat,
    ) -> bool {
        match self {
            BuiltinDetector::PeriodicBeaconing(d) => d.spec_succeeds(input, parameters, prior, finding_budget, evidence_budget),
            BuiltinDetector::DnsPossibleTunneling(d) => d.spec_succeeds(
                input,
                parameters,
                prior,
                finding_budget,
                evidence_budget,
            ),
            BuiltinDetector::DnsLongQueryName(d) => d.spec_succeeds(input, parameters, prior, finding_budget, evidence_budget),
            BuiltinDetector::RepeatedLowVolumeFlow(d) => d.spec_succeeds(
                input,
                parameters,
                prior,
                finding_budget,
                evidence_budget,
            ),
        }
    }

    fn evaluate(
        &self,
        input: &DetectionInput<'_>,
        parameters: &DetectorParameters,
        output: &mut DetectorDraftSink,
    ) -> (r: Result<(), DetectorExecutionError>)
    {
        match self {
            BuiltinDetector::PeriodicBeaconing(d) => d.evaluate(input, parameters, output),
            BuiltinDetector::DnsPossibleTunneling(d) => d.evaluate(input, parameters, output),
            BuiltinDetector::DnsLongQueryName(d) => d.evaluate(input, parameters, output),
            BuiltinDetector::RepeatedLowVolumeFlow(d) => d.evaluate(input, parameters, output),
        }
    }
}

proof fn lemma_builtin_ids_distinct()
    ensures
        "behavior.periodic_beaconing"@ != "dns.possible_tunneling"@,
        "behavior.periodic_beaconing"@ != "dns.long_query_name"@,
        "behavior.periodic_beaconing"@ != "behavior.repeated_low_volume_flows"@,
        "dns.possible_tunneling"@ != "dns.long_query_name"@,
        "dns.possible_tunneling"@ != "behavior.repeated_low_volume_flows"@,
        "dns.long_query_name"@ != "behavior.repeated_low_volume_flows"@,
        "behavior.possible_c2_multi_signal"@ != "behavior.periodic_beaconing"@,
        "behavior.possible_c2_multi_signal"@ != "dns.possible_tunneling"@,
        "behavior.possible_c2_multi_signal"@ != "dns.long_query_name"@,
        "behavior.possible_c2_multi_signal"@ != "behavior.repeated_low_volume_flows"@,
{
    reveal_strlit("behavior.possible_c2_multi_signal");
    assert("behavior.possible_c2_multi_signal"@.len() == 33);
    reveal_strlit("behavior.periodic_beaconing");
    reveal_strlit("dns.possible_tunneling");
    reveal_strlit("dns.long_query_name");
    reveal_strlit("behavior.repeated_low_volume_flows");
    assert("behavior.periodic_beaconing"@.len() == 27);
    assert("dns.possible_tunneling"@.len() == 22);
    assert("dns.long_query_name"@.len() == 19);
    assert("behavior.repeated_low_volume_flows"@.len() == 34);
}

/// Every detector accepts running with no parameters.
pub open spec fn accept_defaults(ds: Seq<BuiltinDetector>) -> bool {
    forall|j: int| 0 <= j < ds.len() ==> #[trigger] ds[j].spec_params_valid(Seq::empty())
}

/// One of the identifiers of the built-in detectors.
pub open spec fn builtin_detector_id(x: Seq<char>) -> bool {
    ||| x == "behavior.periodic_beaconing"@
    ||| x == "dns.possible_tunneling"@
    ||| x == "dns.long_query_name"@
    ||| x == "behavior.repeated_low_volume_flows"@
}

/// Registers a detector whose identifier is new into a registry with room, and says which
/// identifiers the registry then holds.
fn register_new(registry: &mut DetectorRegistry<BuiltinDetector>, d: BuiltinDetector) -> (r: Result<
    (),
    crate::error::DetectorRegistryError,
>)
    ensures
        final(registry).spec_capacity() == old(registry).spec_capacity(),
        r is Ok <==> old(registry).spec_detectors().len() < old(registry).spec_capacity() && !old(
            registry,
        ).ids().contains(d.spec_metadata().spec_id()),
        r is Ok ==> final(registry).spec_detectors().len() == old(registry).spec_detectors().len() + 1,
        r is Ok ==> forall|x: Seq<char>|
            #[trigger] final(registry).ids().contains(x) <==> (old(registry).ids().contains(x) || x
                == d.spec_metadata().spec_id()),
        r is Ok && accept_defaults(old(registry).spec_detectors()) && d.spec_params_valid(Seq::empty())
            ==> accept_defaults(final(registry).spec_detectors()),
{
    let ghost old_ds = registry.spec_detectors();
    let ghost new_id = d.spec_metadata().spec_id();
    let r = registry.register(d);
    proof {
        if r is Ok {
            let i = choose|i: int|
                0 <= i <= old_ds.len() && registry.spec_detectors() == old_ds.insert(i, d);
            let ids0 = crate::registry::detector_ids(old_ds);
            assert(registry.ids() =~= ids0.insert(i, new_id));
            assert forall|x: Seq<char>| #[trigger] registry.ids().contains(x) <==> (ids0.contains(x) || x == new_id) by {
                let t = ids0.insert(i, new_id);
                if t.contains(x) {
                    let k = choose|k: int| 0 <= k < t.len() && t[k] == x;
                    if k < i {
                        assert(ids0[k] == x);
                    } else if k > i {
                        assert(ids0[k - 1] == x);
                    }
                }
                if ids0.contains(x) {
                    let k = choose|k: int| 0 <= k < ids0.len() && ids0[k] == x;
                    if k < i {
                        assert(t[k] == x);
                    } else {
                        assert(t[k + 1] == x);
                    }
                }
                if x == new_id {
                    assert(t[i] == x);
                }
            }
            if accept_defaults(old_ds) && d.spec_params_valid(Seq::empty()) {
                let ds = registry.spec_detectors();
                assert forall|j: int| 0 <= j < ds.len() implies #[trigger] ds[j].spec_params_valid(Seq::empty()) by {
                    if j < i {
                        assert(ds[j] == old_ds[j]);
                    } else if j > i {
                        assert(ds[j] == old_ds[j - 1]);
                    }
                }
            }
        }
    }
    r
}

/// The registries hold the four built-in detectors and the built-in correlator.
pub open spec fn builtin_registries(
    d: DetectorRegistry<BuiltinDetector>,
    c: CorrelationRegistry<PossibleC2MultiSignalCorrelator>,
) -> bool {
    &&& d.spec_detectors().len() == 4
    &&& d.ids().contains("behavior.periodic_beaconing"@)
    &&& d.ids().contains("dns.possible_tunneling"@)
    &&& d.ids().contains("dns.long_query_name"@)
    &&& d.ids().contains("behavior.repeated_low_volume_flows"@)
    &&& forall|x: Seq<char>| #[trigger] d.ids().contains(x) ==> builtin_detector_id(x)
    &&& accept_defaults(d.spec_detectors())
    &&& c.spec_correlators().len() == 1
    &&& c.ids().contains("behavior.possible_c2_multi_signal"@)
    &&& !id_collision(c.spec_correlators(), d.ids())
    &&& !required_missing(c.spec_correlators(), d.ids())
}

/// The registries of the built-in detectors and correlator.
pub fn build_builtin_registries() -> (r: Result<
    (DetectorRegistry<BuiltinDetector>, CorrelationRegistry<PossibleC2MultiSignalCorrelator>),
    AnalysisError,
>)
    ensures
        r matches Ok((d, c)) && builtin_registries(d, c),
{
    proof { lemma_builtin_ids_distinct(); }
    let mut detectors: DetectorRegistry<BuiltinDetector> = DetectorRegistry::with_default_capacity();
    assert(detectors.ids() =~= Seq::<Seq<char>>::empty());
    match register_new(&mut detectors, BuiltinDetector::PeriodicBeaconing(PeriodicBeaconingDetector::new())) {
        Ok(()) => {},
        Err(_) => {
            return Err(AnalysisError::Fatal(String::from_str("failed to register beaconing detector")));
        },
    }
    match register_new(&mut detectors, BuiltinDetector::DnsPossibleTunneling(DnsPossibleTunnelingDetector::new())) {
        Ok(()) => {},
        Err(_) => {
            return Err(AnalysisError::Fatal(String::from_str("failed to register DNS tunneling detector")));
        },
    }
    match register_new(&mut detectors, BuiltinDetector::DnsLongQueryName(DnsLongQueryNameDetector::new())) {
        Ok(()) => {},
        Err(_) => {
            return Err(AnalysisError::Fatal(String::from_str("failed to register DNS long query detector")));
        },
    }
    match register_new(&mut detectors, BuiltinDetector::RepeatedLowVolumeFlow(RepeatedLowVolumeFlowDetector::new())) {
        Ok(()) => {},
        Err(_) => {
            return Err(AnalysisError::Fatal(String::from_str("failed to register low-volume flow detector")));
        },
    }
    let mut correlators: CorrelationRegistry<PossibleC2MultiSignalCorrelator> = CorrelationRegistry::empty();
    let c2 = PossibleC2MultiSignalCorrelator::new();
    let ghost cid = c2.spec_metadata().spec_id();
    assert(correlators.ids() =~= Seq::<Seq<char>>::empty());
    match correlators.register(c2) {
        Ok(()) => {},
        Err(_) => {
            return Err(AnalysisError::Fatal(String::from_str("failed to register C2 multi-signal correlator")));
        },
    }
    proof {
        let cs = correlators.spec_correlators();
        assert(cs.len() == 1);
        assert(correlators.ids()[0] == cid);
        assert(correlators.ids().contains(cid));
    }
    Ok((detectors, correlators))
}

} // verus!

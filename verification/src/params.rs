//! Per-parameter validation rules shared by the built-in detectors and correlators.

use vstd::prelude::*;
use crate::config::{DetectorParameter, DetectorParameterKey, DetectorParameters, ParameterView};
use crate::error::DetectorConfigError;

verus! {

/// How a detector judges one configuration parameter.
#[derive(Debug, Clone, Copy)]
pub enum ParamVerdict {
    /// The parameter is known and its value is in range.
    Accepted,
    /// The key is not a parameter of the component.
    UnknownKey,
    /// The value has another type than expected; the payload names the expected type.
    WrongType(&'static str),
    /// The value is outside the accepted range; the payload gives the reason.
    OutOfRange(&'static str),
}

/// Whether `e` is the error reported for a parameter with key `key` and verdict `v`.
pub open spec fn verdict_error(e: DetectorConfigError, key: Seq<char>, v: ParamVerdict) -> bool {
    match v {
        ParamVerdict::Accepted => false,
        ParamVerdict::UnknownKey => e matches DetectorConfigError::UnknownParameter(k) && k@ == key,
        ParamVerdict::WrongType(expected_type) => {
            &&& e matches DetectorConfigError::InvalidParameterType { key: k, expected }
            &&& e->InvalidParameterType_key@ == key
            &&& e->InvalidParameterType_expected@ == expected_type@
        },
        ParamVerdict::OutOfRange(why) => {
            &&& e matches DetectorConfigError::ParameterValueOutOfRange { key: k, reason }
            &&& e->ParameterValueOutOfRange_key@ == key
            &&& e->ParameterValueOutOfRange_reason@ == why@
        },
    }
}

/// The error reported for a rejected parameter.
pub fn verdict_to_error(key: &DetectorParameterKey, v: ParamVerdict) -> (e: DetectorConfigError)
    requires
        !(v is Accepted),
    ensures
        verdict_error(e, key@, v),
{
    match v {
        ParamVerdict::UnknownKey => DetectorConfigError::UnknownParameter(key.to_text()),
        ParamVerdict::WrongType(expected) => DetectorConfigError::InvalidParameterType {
            key: key.to_text(),
            expected,
        },
        ParamVerdict::OutOfRange(reason) => DetectorConfigError::ParameterValueOutOfRange {
            key: key.to_text(),
            reason,
        },
        ParamVerdict::Accepted => DetectorConfigError::UnknownParameter(key.to_text()),
    }
}

/// Every parameter of `ps` is accepted.
pub open spec fn all_accepted(ps: Seq<ParameterView>, verdict: spec_fn(ParameterView) -> ParamVerdict) -> bool {
    forall|i: int| 0 <= i < ps.len() ==> (#[trigger] verdict(ps[i])) is Accepted
}

/// `e` is the error for the first rejected parameter of `ps`.
pub open spec fn first_rejection_error(
    ps: Seq<ParameterView>,
    verdict: spec_fn(ParameterView) -> ParamVerdict,
    e: DetectorConfigError,
) -> bool {
    exists|i: int|
        0 <= i < ps.len() && (forall|j: int| 0 <= j < i ==> (#[trigger] verdict(ps[j])) is Accepted)
            && verdict_error(e, ps[i].0, #[trigger] verdict(ps[i]))
}

/// The parameter rules of a component.
pub trait ParameterRules {
    /// The verdict on one parameter.
    spec fn verdict(p: ParameterView) -> ParamVerdict;

    /// Judges one parameter.
    fn check(p: &DetectorParameter) -> (v: ParamVerdict)
        ensures
            v == Self::verdict(p.view_pair()),
    ;
}

/// Checks parameters in key order and reports the first rejected one.
pub fn validate_with_rules<R: ParameterRules>(parameters: &DetectorParameters) -> (r: Result<
    (),
    DetectorConfigError,
>)
    ensures
        r is Ok <==> all_accepted(parameters@, |p: ParameterView| R::verdict(p)),
        r matches Err(e) ==> first_rejection_error(parameters@, |p: ParameterView| R::verdict(p), e),
{
    let ps = parameters.as_slice();
    let n = ps.len();
    let ghost verdict = |p: ParameterView| R::verdict(p);
    let mut i: usize = 0;
    while i < n
        invariant
            n == ps@.len(),
            n == parameters@.len(),
            crate::config::parameter_views(ps@) == parameters@,
            verdict == (|p: ParameterView| R::verdict(p)),
            i <= n,
            forall|j: int| 0 <= j < i ==> (#[trigger] verdict(parameters@[j])) is Accepted,
        decreases n - i,
    {
        let v = R::check(&ps[i]);
        assert(parameters@[i as int] == ps@[i as int].view_pair());
        match v {
            ParamVerdict::Accepted => {},
            _ => {
                let e = verdict_to_error(&ps[i].key, v);
                assert(verdict(parameters@[i as int]) == v);
                return Err(e);
            },
        }
        i = i + 1;
    }
    Ok(())
}

} // verus!
